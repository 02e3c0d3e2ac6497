use vstd::prelude::*;
use crate::detect::AlertKey;

verus! {

/// No two entries share a key.
pub open spec fn rl_keys_unique(s: Seq<(AlertKey, i64)>) -> bool {
    forall|i: int, j: int| 0 <= i < j < s.len() ==> s[i].0 != s[j].0
}

/// Whether some entry carries key `k`.
pub open spec fn rl_has_key(s: Seq<(AlertKey, i64)>, k: AlertKey) -> bool {
    exists|i: int| 0 <= i < s.len() && s[i].0 == k
}

/// The index of the entry carrying `k`; meaningful only under
/// [`rl_has_key`] and [`rl_keys_unique`].
pub open spec fn rl_key_index(s: Seq<(AlertKey, i64)>, k: AlertKey) -> int {
    choose|i: int| 0 <= i < s.len() && s[i].0 == k
}

/// The entry list as a map from key to last-fired timestamp.
pub open spec fn rl_map_of(s: Seq<(AlertKey, i64)>) -> Map<AlertKey, i64> {
    Map::new(|k: AlertKey| rl_has_key(s, k), |k: AlertKey| s[rl_key_index(s, k)].1)
}

/// With unique keys, any position holding key `k` is the chosen one.
proof fn lemma_rl_index_pins(s: Seq<(AlertKey, i64)>, i: int)
    requires
        rl_keys_unique(s),
        0 <= i < s.len(),
    ensures
        rl_key_index(s, s[i].0) == i,
{
    let k = s[i].0;
    assert(rl_has_key(s, k));
    let j = rl_key_index(s, k);
    assert(0 <= j < s.len() && s[j].0 == k);
    if i < j {
        assert(s[i].0 != s[j].0);
    } else if j < i {
        assert(s[j].0 != s[i].0);
    }
}

/// Overwriting the timestamp at position `i` turns the map into an insert
/// for that entry's key.
proof fn lemma_rl_map_update(s: Seq<(AlertKey, i64)>, i: int, now: i64)
    requires
        rl_keys_unique(s),
        0 <= i < s.len(),
    ensures
        rl_keys_unique(s.update(i, (s[i].0, now))),
        rl_map_of(s.update(i, (s[i].0, now))) == rl_map_of(s).insert(s[i].0, now),
{
    let k = s[i].0;
    let s2 = s.update(i, (k, now));
    assert forall|x: int, y: int| 0 <= x < y < s2.len() implies s2[x].0 != s2[y].0 by {
        assert(s[x].0 != s[y].0);
    }
    assert forall|k2: AlertKey| rl_has_key(s2, k2) implies rl_has_key(s, k2) by {
        let w = choose|w: int| 0 <= w < s2.len() && s2[w].0 == k2;
        assert(s[w].0 == k2);
    }
    assert forall|k2: AlertKey| rl_has_key(s, k2) implies rl_has_key(s2, k2) by {
        let w = choose|w: int| 0 <= w < s.len() && s[w].0 == k2;
        assert(s2[w].0 == k2);
    }
    assert forall|k2: AlertKey| #[trigger] rl_has_key(s2, k2) implies rl_map_of(s2)[k2]
        == rl_map_of(s).insert(k, now)[k2] by {
        let w = rl_key_index(s2, k2);
        assert(0 <= w < s2.len() && s2[w].0 == k2);
        lemma_rl_index_pins(s2, w);
        if k2 == k {
            lemma_rl_index_pins(s, i);
            assert(s2[w].0 == s[i].0);
            if w != i {
                if w < i {
                    assert(s2[w].0 != s2[i].0);
                } else {
                    assert(s2[i].0 != s2[w].0);
                }
            }
            assert(w == i);
            assert(rl_map_of(s2)[k2] == now);
        } else {
            assert(w != i);
            assert(s[w].0 == k2);
            lemma_rl_index_pins(s, w);
            assert(rl_map_of(s)[k2] == s[w].1);
            assert(rl_map_of(s2)[k2] == s2[w].1);
            assert(s2[w].1 == s[w].1);
        }
    }
    assert(rl_map_of(s2) =~= rl_map_of(s).insert(k, now));
}

/// Appending an entry with an unseen key turns the map into an insert.
proof fn lemma_rl_map_push(s: Seq<(AlertKey, i64)>, k: AlertKey, now: i64)
    requires
        rl_keys_unique(s),
        !rl_has_key(s, k),
    ensures
        rl_keys_unique(s.push((k, now))),
        rl_map_of(s.push((k, now))) == rl_map_of(s).insert(k, now),
{
    let s2 = s.push((k, now));
    assert forall|x: int, y: int| 0 <= x < y < s2.len() implies s2[x].0 != s2[y].0 by {
        if y < s.len() {
            assert(s[x].0 != s[y].0);
        } else {
            assert(s2[y].0 == k);
            assert(s2[x].0 == s[x].0);
            if s[x].0 == k {
                assert(rl_has_key(s, k));
            }
        }
    }
    assert forall|k2: AlertKey| rl_has_key(s2, k2) implies (k2 == k || rl_has_key(s, k2)) by {
        let w = choose|w: int| 0 <= w < s2.len() && s2[w].0 == k2;
        if w < s.len() {
            assert(s[w].0 == k2);
        }
    }
    assert forall|k2: AlertKey| rl_has_key(s, k2) implies rl_has_key(s2, k2) by {
        let w = choose|w: int| 0 <= w < s.len() && s[w].0 == k2;
        assert(s2[w].0 == k2);
    }
    assert(s2[s.len() as int].0 == k);
    assert(rl_has_key(s2, k));
    assert forall|k2: AlertKey| #[trigger] rl_has_key(s2, k2) implies rl_map_of(s2)[k2]
        == rl_map_of(s).insert(k, now)[k2] by {
        let w = rl_key_index(s2, k2);
        assert(0 <= w < s2.len() && s2[w].0 == k2);
        lemma_rl_index_pins(s2, w);
        if k2 == k {
            lemma_rl_index_pins(s2, s.len() as int);
            assert(w == s.len());
            assert(rl_map_of(s2)[k2] == now);
        } else {
            assert(w < s.len());
            assert(s[w].0 == k2);
            lemma_rl_index_pins(s, w);
            assert(rl_map_of(s)[k2] == s[w].1);
            assert(rl_map_of(s2)[k2] == s2[w].1);
        }
    }
    assert(rl_map_of(s2) =~= rl_map_of(s).insert(k, now));
}

/// Whether a call with key `k` at time `now` is allowed against the
/// recorded last-fired map `m`: always for an unseen key, and otherwise
/// only when at least `interval` seconds of timestamp lie between.
pub open spec fn rl_allows(m: Map<AlertKey, i64>, interval: i64, k: AlertKey, now: i64) -> bool {
    !m.contains_key(k) || now - m[k] >= interval
}

/// Gates repeated alerts: one timestamp is remembered per suppression key,
/// and a key fires only when none was recorded within the minimum
/// interval.  The check and the record are one operation on a `&mut`
/// receiver; the limiter never fails and never blocks.  Entries are
/// created lazily and never pruned.
pub struct RateLimiter {
    pub entries: Vec<(AlertKey, i64)>,
    pub min_interval_seconds: i64,
}

impl RateLimiter {
    /// The recorded last-fired map.
    pub open spec fn map_of(&self) -> Map<AlertKey, i64> {
        rl_map_of(self.entries@)
    }

    /// Well-formedness: keys unique, interval non-negative.
    pub open spec fn inv(&self) -> bool {
        rl_keys_unique(self.entries@) && self.min_interval_seconds >= 0
    }

    /// An empty limiter with the given minimum interval.
    pub fn new(min_interval_seconds: i64) -> (r: RateLimiter)
        requires
            min_interval_seconds >= 0,
        ensures
            r.inv(),
            r.min_interval_seconds == min_interval_seconds,
            r.map_of() =~= Map::<AlertKey, i64>::empty(),
    {
        let r = RateLimiter { entries: Vec::new(), min_interval_seconds };
        proof {
            assert forall|k: AlertKey| !rl_has_key(r.entries@, k) by {}
            assert(r.map_of() =~= Map::<AlertKey, i64>::empty());
        }
        r
    }

    /// Finds the position of the entry for `k`, if any.
    fn find(&self, k: &AlertKey) -> (r: Option<usize>)
        ensures
            match r {
                Option::Some(i) => i < self.entries@.len() && self.entries@[i as int].0 == *k,
                Option::None => !rl_has_key(self.entries@, *k),
            },
    {
        let mut i: usize = 0;
        while i < self.entries.len()
            invariant
                i <= self.entries@.len(),
                forall|j: int| 0 <= j < i ==> self.entries@[j].0 != *k,
            decreases self.entries@.len() - i,
        {
            if self.entries[i].0 == *k {
                return Option::Some(i);
            }
            i = i + 1;
        }
        Option::None
    }

    /// Decides whether an alert under key `k` may fire at time `now`, and,
    /// exactly when it may, records `now` as the key's last-fired time.
    /// An unseen key always fires.
    pub fn allow(&mut self, k: AlertKey, now: i64) -> (r: bool)
        requires
            old(self).inv(),
        ensures
            final(self).inv(),
            final(self).min_interval_seconds == old(self).min_interval_seconds,
            r == rl_allows(old(self).map_of(), old(self).min_interval_seconds, k, now),
            final(self).map_of() == if r {
                old(self).map_of().insert(k, now)
            } else {
                old(self).map_of()
            },
    {
        let ghost s0 = self.entries@;
        match self.find(&k) {
            Option::Some(i) => {
                proof {
                    lemma_rl_index_pins(s0, i as int);
                    assert(rl_has_key(s0, k));
                    assert(old(self).map_of().contains_key(k));
                    assert(old(self).map_of()[k] == s0[i as int].1);
                }
                let last = self.entries[i].1;
                if (now as i128) - (last as i128) >= (self.min_interval_seconds as i128) {
                    self.entries[i].1 = now;
                    proof {
                        assert(self.entries@ =~= s0.update(i as int, (s0[i as int].0, now)));
                        lemma_rl_map_update(s0, i as int, now);
                    }
                    true
                } else {
                    false
                }
            }
            Option::None => {
                proof {
                    assert(!old(self).map_of().contains_key(k));
                }
                self.entries.push((k, now));
                proof {
                    lemma_rl_map_push(s0, k, now);
                }
                true
            }
        }
    }
}

} // verus!

use vstd::prelude::*;
use crate::detect::AlertKey;
use crate::event::{SwapEventV, SwapKind};
use crate::metrics::{TokenMetricsV, fresh_token, token_step};
use crate::ratelimit::rl_allows;
use crate::store::{MetricsStore, has_token, token_index, upd_token_seq};

verus! {

/// The token metrics after folding a sequence of timestamped events, in
/// order, into `m`.
pub open spec fn fold_token(m: TokenMetricsV, evs: Seq<(SwapEventV, i64)>) -> TokenMetricsV
    decreases evs.len(),
{
    if evs.len() == 0 {
        m
    } else {
        fold_token(token_step(m, evs[0].0, evs[0].1), evs.subrange(1, evs.len() as int))
    }
}

/// How many of the events are buys or sells.
pub open spec fn count_buy_sell(evs: Seq<(SwapEventV, i64)>) -> int
    decreases evs.len(),
{
    if evs.len() == 0 {
        0
    } else {
        (if evs[0].0.kind == SwapKind::Buy || evs[0].0.kind == SwapKind::Sell {
            1int
        } else {
            0int
        }) + count_buy_sell(evs.subrange(1, evs.len() as int))
    }
}

/// Counting law: over any sequence of events folded into one token's
/// metrics, `buy_count + sell_count` grows by exactly the number of Buy
/// and Sell events among them (Other events are excluded).  The bound
/// keeps the saturating counters out of saturation; it is unreachable in
/// any run, since each event adds one.
pub proof fn lemma_buy_sell_counts(m: TokenMetricsV, evs: Seq<(SwapEventV, i64)>)
    requires
        m.buy_count + m.sell_count + evs.len() <= u64::MAX,
    ensures
        fold_token(m, evs).buy_count + fold_token(m, evs).sell_count == m.buy_count + m.sell_count
            + count_buy_sell(evs),
    decreases evs.len(),
{
    if evs.len() > 0 {
        let m1 = token_step(m, evs[0].0, evs[0].1);
        assert(m1.buy_count + m1.sell_count == m.buy_count + m.sell_count + (
        if evs[0].0.kind == SwapKind::Buy || evs[0].0.kind == SwapKind::Sell {
            1int
        } else {
            0int
        }));
        lemma_buy_sell_counts(m1, evs.subrange(1, evs.len() as int));
    }
}

/// Counting law for a token's whole life: created by its first event and
/// then fed the rest, its counters equal the number of Buy and Sell
/// events it ever saw.
pub proof fn lemma_token_lifetime_counts(e0: (SwapEventV, i64), evs: Seq<(SwapEventV, i64)>)
    requires
        evs.len() + 1 <= u64::MAX,
    ensures
        ({
            let m = fold_token(token_step(fresh_token(e0.0, e0.1), e0.0, e0.1), evs);
            m.buy_count + m.sell_count == count_buy_sell(seq![e0] + evs)
        }),
{
    let base = token_step(fresh_token(e0.0, e0.1), e0.0, e0.1);
    assert(base.buy_count + base.sell_count <= 1);
    lemma_buy_sell_counts(base, evs);
    assert((seq![e0] + evs)[0] == e0);
    assert((seq![e0] + evs).subrange(1, (seq![e0] + evs).len() as int) =~= evs);
}

/// Immutability law: folding any sequence of events into a token's
/// metrics never changes its identity fields — the address, the display
/// name and symbol, the initial price, and the first-seen time.
pub proof fn lemma_initial_price_immutable(m: TokenMetricsV, evs: Seq<(SwapEventV, i64)>)
    ensures
        fold_token(m, evs).initial_price == m.initial_price,
        fold_token(m, evs).address == m.address,
        fold_token(m, evs).name == m.name,
        fold_token(m, evs).symbol == m.symbol,
        fold_token(m, evs).first_seen == m.first_seen,
    decreases evs.len(),
{
    if evs.len() > 0 {
        lemma_initial_price_immutable(
            token_step(m, evs[0].0, evs[0].1),
            evs.subrange(1, evs.len() as int),
        );
    }
}

/// The created-flag reported for each event of a sequence folded into the
/// token table, in order.
pub open spec fn created_flags(s: Seq<TokenMetricsV>, evs: Seq<(SwapEventV, i64)>) -> Seq<bool>
    decreases evs.len(),
{
    if evs.len() == 0 {
        Seq::empty()
    } else {
        seq![!has_token(s, evs[0].0.token)] + created_flags(
            upd_token_seq(s, evs[0].0, evs[0].1),
            evs.subrange(1, evs.len() as int),
        )
    }
}

/// `created_flags` yields one verdict per event.
pub proof fn lemma_created_flags_len(s: Seq<TokenMetricsV>, evs: Seq<(SwapEventV, i64)>)
    ensures
        created_flags(s, evs).len() == evs.len(),
    decreases evs.len(),
{
    if evs.len() > 0 {
        lemma_created_flags_len(
            upd_token_seq(s, evs[0].0, evs[0].1),
            evs.subrange(1, evs.len() as int),
        );
    }
}

/// A token update never removes an address, and always leaves the
/// updated event's token present.
pub proof fn lemma_upd_keeps_tokens(s: Seq<TokenMetricsV>, e: SwapEventV, now: i64, a: crate::addr::Addr)
    ensures
        has_token(s, a) ==> has_token(upd_token_seq(s, e, now), a),
        has_token(upd_token_seq(s, e, now), e.token),
        !has_token(s, a) && e.token != a ==> !has_token(upd_token_seq(s, e, now), a),
{
    let s2 = upd_token_seq(s, e, now);
    if has_token(s, e.token) {
        let i = token_index(s, e.token);
        assert(s2[i].address == e.token);
        if has_token(s, a) {
            let w = choose|w: int| 0 <= w < s.len() && s[w].address == a;
            if w == i {
                assert(s2[i].address == a);
            } else {
                assert(s2[w].address == a);
            }
        }
        if !has_token(s, a) && e.token != a {
            assert forall|w: int| 0 <= w < s2.len() implies s2[w].address != a by {
                if w != i {
                    assert(s2[w] == s[w]);
                    assert(!(s[w].address == a));
                }
            }
        }
    } else {
        assert(s2[s.len() as int].address == e.token);
        if has_token(s, a) {
            let w = choose|w: int| 0 <= w < s.len() && s[w].address == a;
            assert(s2[w].address == a);
        }
        if !has_token(s, a) && e.token != a {
            assert forall|w: int| 0 <= w < s2.len() implies s2[w].address != a by {
                if w < s.len() {
                    assert(s2[w] == s[w]);
                }
            }
        }
    }
}

/// Indexing the verdicts of the tail: position `t` of the whole sequence
/// is position `t - 1` after the first update.
pub proof fn lemma_created_flags_index(
    s: Seq<TokenMetricsV>,
    evs: Seq<(SwapEventV, i64)>,
    t: int,
)
    requires
        1 <= t < evs.len(),
    ensures
        created_flags(s, evs)[t] == created_flags(
            upd_token_seq(s, evs[0].0, evs[0].1),
            evs.subrange(1, evs.len() as int),
        )[t - 1],
{
    let s1 = upd_token_seq(s, evs[0].0, evs[0].1);
    let rest = evs.subrange(1, evs.len() as int);
    lemma_created_flags_len(s1, rest);
    let head = seq![!has_token(s, evs[0].0.token)];
    assert(created_flags(s, evs) == head + created_flags(s1, rest));
    assert((head + created_flags(s1, rest))[t] == created_flags(s1, rest)[t - 1]);
}

/// Once a token's address is in the table, no later event for it can
/// report "created" again.
pub proof fn lemma_no_create_when_present(
    s: Seq<TokenMetricsV>,
    evs: Seq<(SwapEventV, i64)>,
    a: crate::addr::Addr,
    t: int,
)
    requires
        has_token(s, a),
        0 <= t < evs.len(),
        evs[t].0.token == a,
    ensures
        !created_flags(s, evs)[t],
    decreases evs.len(),
{
    let s1 = upd_token_seq(s, evs[0].0, evs[0].1);
    let rest = evs.subrange(1, evs.len() as int);
    assert(created_flags(s, evs) == seq![!has_token(s, evs[0].0.token)] + created_flags(s1, rest));
    lemma_upd_keeps_tokens(s, evs[0].0, evs[0].1, a);
    if t == 0 {
        assert(created_flags(s, evs)[0] == !has_token(s, evs[0].0.token));
    } else {
        assert(rest[t - 1] == evs[t]);
        lemma_no_create_when_present(s1, rest, a, t - 1);
        lemma_created_flags_index(s, evs, t);
    }
}

/// Uniqueness law: the new-token verdict is reported at most once per
/// distinct token address over any sequence of events — if the update at
/// position `i` reported "created" for a token, no later update for the
/// same token does.
pub proof fn lemma_new_token_at_most_once(
    s: Seq<TokenMetricsV>,
    evs: Seq<(SwapEventV, i64)>,
    i: int,
    j: int,
)
    requires
        0 <= i < j < evs.len(),
        evs[i].0.token == evs[j].0.token,
        created_flags(s, evs)[i],
    ensures
        !created_flags(s, evs)[j],
    decreases i,
{
    let a = evs[i].0.token;
    let s1 = upd_token_seq(s, evs[0].0, evs[0].1);
    let rest = evs.subrange(1, evs.len() as int);
    assert(created_flags(s, evs) == seq![!has_token(s, evs[0].0.token)] + created_flags(s1, rest));
    if i == 0 {
        lemma_upd_keeps_tokens(s, evs[0].0, evs[0].1, a);
        assert(has_token(s1, a));
        assert(rest[j - 1] == evs[j]);
        lemma_no_create_when_present(s1, rest, a, j - 1);
        lemma_created_flags_index(s, evs, j);
    } else {
        assert(rest[i - 1] == evs[i]);
        assert(rest[j - 1] == evs[j]);
        lemma_created_flags_index(s, evs, i);
        lemma_new_token_at_most_once(s1, rest, i - 1, j - 1);
        lemma_created_flags_index(s, evs, j);
    }
}

/// Existence law: the first event for an address not yet in the table
/// does report "created".
pub proof fn lemma_new_token_fires_first(
    s: Seq<TokenMetricsV>,
    evs: Seq<(SwapEventV, i64)>,
    i: int,
)
    requires
        0 <= i < evs.len(),
        !has_token(s, evs[i].0.token),
        forall|t: int| 0 <= t < i ==> evs[t].0.token != evs[i].0.token,
    ensures
        created_flags(s, evs)[i],
    decreases i,
{
    let s1 = upd_token_seq(s, evs[0].0, evs[0].1);
    let rest = evs.subrange(1, evs.len() as int);
    assert(created_flags(s, evs) == seq![!has_token(s, evs[0].0.token)] + created_flags(s1, rest));
    if i == 0 {
        assert(created_flags(s, evs)[0] == !has_token(s, evs[0].0.token));
    } else {
        let a = evs[i].0.token;
        assert(evs[0].0.token != a);
        lemma_upd_keeps_tokens(s, evs[0].0, evs[0].1, a);
        assert(!has_token(s1, a));
        assert(rest[i - 1] == evs[i]);
        assert forall|t: int| 0 <= t < i - 1 implies rest[t].0.token != a by {
            assert(rest[t] == evs[t + 1]);
        }
        lemma_new_token_fires_first(s1, rest, i - 1);
        lemma_created_flags_index(s, evs, i);
    }
}

/// The verdicts of a sequence of limiter calls, in order, starting from
/// last-fired map `m`.
pub open spec fn rl_results(
    m: Map<AlertKey, i64>,
    interval: i64,
    calls: Seq<(AlertKey, i64)>,
) -> Seq<bool>
    decreases calls.len(),
{
    if calls.len() == 0 {
        Seq::empty()
    } else {
        let fired = rl_allows(m, interval, calls[0].0, calls[0].1);
        let m1 = if fired {
            m.insert(calls[0].0, calls[0].1)
        } else {
            m
        };
        seq![fired] + rl_results(m1, interval, calls.subrange(1, calls.len() as int))
    }
}

/// `rl_results` yields one verdict per call.
pub proof fn lemma_rl_results_len(
    m: Map<AlertKey, i64>,
    interval: i64,
    calls: Seq<(AlertKey, i64)>,
)
    ensures
        rl_results(m, interval, calls).len() == calls.len(),
    decreases calls.len(),
{
    if calls.len() > 0 {
        let fired = rl_allows(m, interval, calls[0].0, calls[0].1);
        let m1 = if fired {
            m.insert(calls[0].0, calls[0].1)
        } else {
            m
        };
        lemma_rl_results_len(m1, interval, calls.subrange(1, calls.len() as int));
    }
}

/// Indexing the verdicts of the tail: position `t` of the whole sequence
/// is position `t - 1` after the first call.
pub proof fn lemma_rl_results_index(
    m: Map<AlertKey, i64>,
    interval: i64,
    calls: Seq<(AlertKey, i64)>,
    t: int,
)
    requires
        1 <= t < calls.len(),
    ensures
        ({
            let fired = rl_allows(m, interval, calls[0].0, calls[0].1);
            let m1 = if fired {
                m.insert(calls[0].0, calls[0].1)
            } else {
                m
            };
            rl_results(m, interval, calls)[t] == rl_results(
                m1,
                interval,
                calls.subrange(1, calls.len() as int),
            )[t - 1]
        }),
{
    let fired = rl_allows(m, interval, calls[0].0, calls[0].1);
    let m1 = if fired {
        m.insert(calls[0].0, calls[0].1)
    } else {
        m
    };
    let rest = calls.subrange(1, calls.len() as int);
    lemma_rl_results_len(m1, interval, rest);
    assert(rl_results(m, interval, calls) == seq![fired] + rl_results(m1, interval, rest));
    assert((seq![fired] + rl_results(m1, interval, rest))[t] == rl_results(m1, interval, rest)[t
        - 1]);
}

/// A key never seen before is granted immediately, whatever the time.
pub proof fn lemma_rate_limiter_first_call(
    m: Map<AlertKey, i64>,
    interval: i64,
    k: AlertKey,
    now: i64,
)
    requires
        !m.contains_key(k),
    ensures
        rl_allows(m, interval, k, now),
{
}

/// While a key's recorded time stands at `t0`, the next granted call for
/// that key lies at least `interval` later.
pub proof fn lemma_rl_entry_guards(
    m: Map<AlertKey, i64>,
    interval: i64,
    calls: Seq<(AlertKey, i64)>,
    k: AlertKey,
    t0: i64,
    j: int,
)
    requires
        m.contains_key(k),
        m[k] == t0,
        0 <= j < calls.len(),
        calls[j].0 == k,
        rl_results(m, interval, calls)[j],
        forall|t: int| 0 <= t < j && calls[t].0 == k ==> !rl_results(m, interval, calls)[t],
    ensures
        calls[j].1 - t0 >= interval,
    decreases j,
{
    let fired = rl_allows(m, interval, calls[0].0, calls[0].1);
    let m1 = if fired {
        m.insert(calls[0].0, calls[0].1)
    } else {
        m
    };
    let rest = calls.subrange(1, calls.len() as int);
    assert(rl_results(m, interval, calls) == seq![fired] + rl_results(m1, interval, rest));
    if j == 0 {
        assert(rl_results(m, interval, calls)[0] == fired);
    } else {
        if calls[0].0 == k {
            assert(!rl_results(m, interval, calls)[0]);
            assert(!fired);
        }
        assert(m1.contains_key(k) && m1[k] == t0);
        assert(rest[j - 1] == calls[j]);
        lemma_rl_results_index(m, interval, calls, j);
        assert forall|t: int| 0 <= t < j - 1 && rest[t].0 == k implies !rl_results(
            m1,
            interval,
            rest,
        )[t] by {
            assert(rest[t] == calls[t + 1]);
            assert(calls[t + 1].0 == k);
            assert(!rl_results(m, interval, calls)[t + 1]);
            lemma_rl_results_index(m, interval, calls, t + 1);
        }
        lemma_rl_entry_guards(m1, interval, rest, k, t0, j - 1);
    }
}

/// Suppression law: for a fixed key, between one granted call and the
/// next granted call, at least `interval` seconds of timestamp lie —
/// so within any window shorter than the minimum interval the limiter
/// grants a key at most once.  A key never seen before is granted
/// immediately: that is the `allow` contract itself.
pub proof fn lemma_rate_limiter_window(
    m: Map<AlertKey, i64>,
    interval: i64,
    calls: Seq<(AlertKey, i64)>,
    k: AlertKey,
    i: int,
    j: int,
)
    requires
        0 <= i < j < calls.len(),
        calls[i].0 == k,
        calls[j].0 == k,
        rl_results(m, interval, calls)[i],
        rl_results(m, interval, calls)[j],
        forall|t: int| i < t < j && calls[t].0 == k ==> !rl_results(m, interval, calls)[t],
    ensures
        calls[j].1 - calls[i].1 >= interval,
    decreases i,
{
    let fired = rl_allows(m, interval, calls[0].0, calls[0].1);
    let m1 = if fired {
        m.insert(calls[0].0, calls[0].1)
    } else {
        m
    };
    let rest = calls.subrange(1, calls.len() as int);
    assert(rl_results(m, interval, calls) == seq![fired] + rl_results(m1, interval, rest));
    if i == 0 {
        assert(rl_results(m, interval, calls)[0] == fired);
        assert(fired);
        assert(m1.contains_key(k) && m1[k] == calls[0].1);
        assert(rest[j - 1] == calls[j]);
        lemma_rl_results_index(m, interval, calls, j);
        assert forall|t: int| 0 <= t < j - 1 && rest[t].0 == k implies !rl_results(
            m1,
            interval,
            rest,
        )[t] by {
            assert(rest[t] == calls[t + 1]);
            assert(calls[t + 1].0 == k);
            assert(0 < t + 1 < j);
            assert(!rl_results(m, interval, calls)[t + 1]);
            lemma_rl_results_index(m, interval, calls, t + 1);
        }
        lemma_rl_entry_guards(m1, interval, rest, k, calls[0].1, j - 1);
    } else {
        assert(rest[i - 1] == calls[i]);
        assert(rest[j - 1] == calls[j]);
        lemma_rl_results_index(m, interval, calls, i);
        lemma_rl_results_index(m, interval, calls, j);
        assert forall|t: int| i - 1 < t < j - 1 && rest[t].0 == k implies !rl_results(
            m1,
            interval,
            rest,
        )[t] by {
            assert(rest[t] == calls[t + 1]);
            assert(calls[t + 1].0 == k);
            assert(!rl_results(m, interval, calls)[t + 1]);
            lemma_rl_results_index(m, interval, calls, t + 1);
        }
        lemma_rate_limiter_window(m1, interval, rest, k, i - 1, j - 1);
    }
}

/// Idempotence law: the snapshot contract pins its result to the store's
/// current mathematical value, so any two snapshots taken with no update
/// in between are identical.
pub proof fn lemma_snapshot_idempotent(
    s: MetricsStore,
    r1: (Seq<TokenMetricsV>, Seq<crate::metrics::WalletMetricsV>),
    r2: (Seq<TokenMetricsV>, Seq<crate::metrics::WalletMetricsV>),
)
    requires
        r1.0 == s.tokens_v() && r1.1 == s.wallets_v(),
        r2.0 == s.tokens_v() && r2.1 == s.wallets_v(),
    ensures
        r1 == r2,
{
}

} // verus!

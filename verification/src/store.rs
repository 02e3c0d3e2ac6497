use vstd::prelude::*;
use crate::addr::Addr;
use crate::event::{SwapEvent, SwapEventV};
use crate::metrics::{
    TokenMetrics, TokenMetricsV, WalletMetrics, WalletMetricsV, fresh_token, fresh_wallet,
    token_step, wallet_step,
};

verus! {

/// Whether some entry in `s` is keyed by address `a`.
pub open spec fn has_token(s: Seq<TokenMetricsV>, a: Addr) -> bool {
    exists|i: int| 0 <= i < s.len() && s[i].address == a
}

/// The index of the entry keyed by `a`; meaningful only when
/// [`has_token`] holds and the keys are unique.
pub open spec fn token_index(s: Seq<TokenMetricsV>, a: Addr) -> int {
    choose|i: int| 0 <= i < s.len() && s[i].address == a
}

/// Whether some entry in `s` is keyed by wallet address `a`.
pub open spec fn has_wallet(s: Seq<WalletMetricsV>, a: Addr) -> bool {
    exists|i: int| 0 <= i < s.len() && s[i].address == a
}

/// The index of the wallet entry keyed by `a`.
pub open spec fn wallet_index(s: Seq<WalletMetricsV>, a: Addr) -> int {
    choose|i: int| 0 <= i < s.len() && s[i].address == a
}

/// No two token entries share an address.
pub open spec fn tokens_unique(s: Seq<TokenMetricsV>) -> bool {
    forall|i: int, j: int| 0 <= i < j < s.len() ==> s[i].address != s[j].address
}

/// No two wallet entries share an address.
pub open spec fn wallets_unique(s: Seq<WalletMetricsV>) -> bool {
    forall|i: int, j: int| 0 <= i < j < s.len() ==> s[i].address != s[j].address
}

/// The token snapshot produced by folding `e` into `s`: the stepped value
/// of the existing entry, or of a fresh one when the token is new.
pub open spec fn upd_token_snap(s: Seq<TokenMetricsV>, e: SwapEventV, now: i64) -> TokenMetricsV {
    if has_token(s, e.token) {
        token_step(s[token_index(s, e.token)], e, now)
    } else {
        token_step(fresh_token(e, now), e, now)
    }
}

/// The token table after folding `e` into `s`: updated in place, or grown
/// by one entry when the token is new.
pub open spec fn upd_token_seq(s: Seq<TokenMetricsV>, e: SwapEventV, now: i64) -> Seq<
    TokenMetricsV,
> {
    if has_token(s, e.token) {
        s.update(token_index(s, e.token), upd_token_snap(s, e, now))
    } else {
        s.push(upd_token_snap(s, e, now))
    }
}

/// The wallet snapshot produced by folding `e` into `s`.
pub open spec fn upd_wallet_snap(s: Seq<WalletMetricsV>, e: SwapEventV) -> WalletMetricsV {
    if has_wallet(s, e.wallet) {
        wallet_step(s[wallet_index(s, e.wallet)], e)
    } else {
        wallet_step(fresh_wallet(e), e)
    }
}

/// The wallet table after folding `e` into `s`.
pub open spec fn upd_wallet_seq(s: Seq<WalletMetricsV>, e: SwapEventV) -> Seq<WalletMetricsV> {
    if has_wallet(s, e.wallet) {
        s.update(wallet_index(s, e.wallet), upd_wallet_snap(s, e))
    } else {
        s.push(upd_wallet_snap(s, e))
    }
}

/// The in-memory tables of per-token and per-wallet metrics.  Each update
/// is one atomic get-or-create-and-mutate step on a `&mut` receiver, and
/// reports whether it created the entry, so no separate read-then-write
/// pair (and no window for a duplicate "new token" verdict) exists.
pub struct MetricsStore {
    pub tokens: Vec<TokenMetrics>,
    pub wallets: Vec<WalletMetrics>,
}

impl MetricsStore {
    /// The mathematical value of the token table.
    pub open spec fn tokens_v(&self) -> Seq<TokenMetricsV> {
        self.tokens.deep_view()
    }

    /// The mathematical value of the wallet table.
    pub open spec fn wallets_v(&self) -> Seq<WalletMetricsV> {
        self.wallets.deep_view()
    }

    /// Well-formedness: both tables are keyed uniquely.
    pub open spec fn inv(&self) -> bool {
        tokens_unique(self.tokens_v()) && wallets_unique(self.wallets_v())
    }

    /// An empty store.
    pub fn new() -> (r: MetricsStore)
        ensures
            r.inv(),
            r.tokens_v() =~= Seq::<TokenMetricsV>::empty(),
            r.wallets_v() =~= Seq::<WalletMetricsV>::empty(),
    {
        MetricsStore { tokens: Vec::new(), wallets: Vec::new() }
    }

    /// Finds the position of the token entry keyed by `a`, if any.
    fn find_token(&self, a: &Addr) -> (r: Option<usize>)
        ensures
            match r {
                Option::Some(i) => i < self.tokens_v().len() && self.tokens_v()[i as int].address
                    == *a,
                Option::None => !has_token(self.tokens_v(), *a),
            },
    {
        let mut i: usize = 0;
        while i < self.tokens.len()
            invariant
                i <= self.tokens_v().len(),
                self.tokens_v().len() == self.tokens.len(),
                forall|j: int| 0 <= j < i ==> self.tokens_v()[j].address != *a,
            decreases self.tokens.len() - i,
        {
            if self.tokens[i].address == *a {
                assert(self.tokens_v()[i as int].address == *a);
                return Option::Some(i);
            }
            assert(self.tokens_v()[i as int].address != *a);
            i = i + 1;
        }
        Option::None
    }

    /// Finds the position of the wallet entry keyed by `a`, if any.
    fn find_wallet(&self, a: &Addr) -> (r: Option<usize>)
        ensures
            match r {
                Option::Some(i) => i < self.wallets_v().len() && self.wallets_v()[i as int].address
                    == *a,
                Option::None => !has_wallet(self.wallets_v(), *a),
            },
    {
        let mut i: usize = 0;
        while i < self.wallets.len()
            invariant
                i <= self.wallets_v().len(),
                self.wallets_v().len() == self.wallets.len(),
                forall|j: int| 0 <= j < i ==> self.wallets_v()[j].address != *a,
            decreases self.wallets.len() - i,
        {
            if self.wallets[i].address == *a {
                assert(self.wallets_v()[i as int].address == *a);
                return Option::Some(i);
            }
            assert(self.wallets_v()[i as int].address != *a);
            i = i + 1;
        }
        Option::None
    }

    /// Folds `e` at time `now` into the token table as one atomic step and
    /// returns the post-update snapshot together with whether the entry was
    /// created by this very update.
    pub fn update_token(&mut self, e: &SwapEvent, now: i64) -> (r: (TokenMetrics, bool))
        requires
            old(self).inv(),
        ensures
            final(self).inv(),
            final(self).wallets_v() == old(self).wallets_v(),
            r.1 == !has_token(old(self).tokens_v(), e@.token),
            r.0@ == upd_token_snap(old(self).tokens_v(), e@, now),
            final(self).tokens_v() == upd_token_seq(old(self).tokens_v(), e@, now),
    {
        let ghost s0 = self.tokens_v();
        match self.find_token(&e.token) {
            Option::Some(i) => {
                proof {
                    assert(has_token(s0, e@.token));
                    // uniqueness pins the found index to the chosen one
                    let k = token_index(s0, e@.token);
                    assert(0 <= k < s0.len() && s0[k].address == e@.token);
                    assert(k == i as int);
                }
                self.tokens[i].apply(e, now);
                let snap = self.tokens[i].clone();
                proof {
                    assert(final(self).tokens_v() =~= s0.update(
                        i as int,
                        token_step(s0[i as int], e@, now),
                    ));
                    assert(tokens_unique(final(self).tokens_v()));
                    assert(final(self).wallets_v() =~= old(self).wallets_v());
                }
                (snap, false)
            }
            Option::None => {
                let mut m = TokenMetrics::fresh(e, now);
                m.apply(e, now);
                let snap = m.clone();
                self.tokens.push(m);
                proof {
                    assert(final(self).tokens_v() =~= s0.push(
                        token_step(fresh_token(e@, now), e@, now),
                    ));
                    assert(final(self).wallets_v() =~= old(self).wallets_v());
                    assert(tokens_unique(final(self).tokens_v()));
                }
                (snap, true)
            }
        }
    }

    /// Folds `e` into the wallet table as one atomic step and returns the
    /// post-update snapshot.
    pub fn update_wallet(&mut self, e: &SwapEvent) -> (r: WalletMetrics)
        requires
            old(self).inv(),
        ensures
            final(self).inv(),
            final(self).tokens_v() == old(self).tokens_v(),
            r@ == upd_wallet_snap(old(self).wallets_v(), e@),
            final(self).wallets_v() == upd_wallet_seq(old(self).wallets_v(), e@),
    {
        let ghost s0 = self.wallets_v();
        match self.find_wallet(&e.wallet) {
            Option::Some(i) => {
                proof {
                    let k = wallet_index(s0, e@.wallet);
                    assert(0 <= k < s0.len() && s0[k].address == e@.wallet);
                    assert(k == i as int);
                }
                self.wallets[i].apply(e);
                let snap = self.wallets[i].clone();
                proof {
                    assert(final(self).wallets_v() =~= s0.update(
                        i as int,
                        wallet_step(s0[i as int], e@),
                    ));
                    assert(wallets_unique(final(self).wallets_v()));
                    assert(final(self).tokens_v() =~= old(self).tokens_v());
                }
                snap
            }
            Option::None => {
                let mut m = WalletMetrics::fresh(e);
                m.apply(e);
                let snap = m.clone();
                self.wallets.push(m);
                proof {
                    assert(final(self).wallets_v() =~= s0.push(wallet_step(fresh_wallet(e@), e@)));
                    assert(final(self).tokens_v() =~= old(self).tokens_v());
                    assert(wallets_unique(final(self).wallets_v()));
                }
                snap
            }
        }
    }

    /// Looks up the token entry keyed by `a`, returning a copy of it.
    pub fn get_token(&self, a: &Addr) -> (r: Option<TokenMetrics>)
        requires
            self.inv(),
        ensures
            match r {
                Option::Some(m) => has_token(self.tokens_v(), *a) && m@ == self.tokens_v()[
                    token_index(self.tokens_v(), *a)
                ],
                Option::None => !has_token(self.tokens_v(), *a),
            },
    {
        match self.find_token(a) {
            Option::Some(i) => {
                proof {
                    let k = token_index(self.tokens_v(), *a);
                    assert(0 <= k < self.tokens_v().len() && self.tokens_v()[k].address == *a);
                    assert(k == i as int);
                }
                Option::Some(self.tokens[i].clone())
            }
            Option::None => Option::None,
        }
    }

    /// A point-in-time copy of both tables, in insertion order.
    pub fn snapshot(&self) -> (r: (Vec<TokenMetrics>, Vec<WalletMetrics>))
        ensures
            r.0.deep_view() == self.tokens_v(),
            r.1.deep_view() == self.wallets_v(),
    {
        let mut ts: Vec<TokenMetrics> = Vec::new();
        let mut i: usize = 0;
        while i < self.tokens.len()
            invariant
                i <= self.tokens.len(),
                self.tokens_v().len() == self.tokens.len(),
                ts@.len() == i,
                ts.deep_view() =~= self.tokens_v().subrange(0, i as int),
            decreases self.tokens.len() - i,
        {
            let ghost prev = ts@;
            let ghost pre = ts.deep_view();
            let c = self.tokens[i].clone();
            proof {
                assert(c.deep_view() == self.tokens_v()[i as int]);
            }
            ts.push(c);
            proof {
                assert(prev.len() == i);
                assert(ts@ == prev.push(c));
                assert forall|k: int| 0 <= k < ts.deep_view().len() implies ts.deep_view()[k]
                    == self.tokens_v().subrange(0, i + 1 as int)[k] by {
                    assert(ts.deep_view()[k] == ts@[k].deep_view());
                    if k < i {
                        assert(ts@[k] == prev[k]);
                        assert(pre[k] == prev[k].deep_view());
                    }
                }
                assert(ts.deep_view() =~= self.tokens_v().subrange(0, i + 1 as int));
            }
            i = i + 1;
        }
        let mut ws: Vec<WalletMetrics> = Vec::new();
        let mut j: usize = 0;
        while j < self.wallets.len()
            invariant
                j <= self.wallets.len(),
                self.wallets_v().len() == self.wallets.len(),
                ws@.len() == j,
                ws.deep_view() =~= self.wallets_v().subrange(0, j as int),
            decreases self.wallets.len() - j,
        {
            let ghost prev = ws@;
            let ghost pre = ws.deep_view();
            let c = self.wallets[j].clone();
            proof {
                assert(c.deep_view() == self.wallets_v()[j as int]);
            }
            ws.push(c);
            proof {
                assert(prev.len() == j);
                assert(ws@ == prev.push(c));
                assert forall|k: int| 0 <= k < ws.deep_view().len() implies ws.deep_view()[k]
                    == self.wallets_v().subrange(0, j + 1 as int)[k] by {
                    assert(ws.deep_view()[k] == ws@[k].deep_view());
                    if k < j {
                        assert(ws@[k] == prev[k]);
                        assert(pre[k] == prev[k].deep_view());
                    }
                }
                assert(ws.deep_view() =~= self.wallets_v().subrange(0, j + 1 as int));
            }
            j = j + 1;
        }
        proof {
            assert(ts.deep_view() =~= self.tokens_v());
            assert(ws.deep_view() =~= self.wallets_v());
        }
        (ts, ws)
    }
}

} // verus!

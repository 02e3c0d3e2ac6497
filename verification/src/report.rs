use vstd::prelude::*;
use vstd::seq_lib::lemma_multiset_commutative;
use crate::detect::lemma_mul_le;
use crate::metrics::{TokenMetrics, TokenMetricsV, WalletMetrics, WalletMetricsV};
use crate::render::{addr_str, addr_string, dec_str, u128_string, u64_string};

verus! {

/// The sort key of one candidate line of the gainers table: the position
/// of its token in the snapshot and the two prices whose ratio ranks it.
#[derive(Clone, Copy, PartialEq, Eq, Structural, Debug)]
pub struct GainKey {
    pub idx: usize,
    pub initial: u64,
    pub current: u64,
}

/// The sort key of one candidate line of the active-wallets table.
#[derive(Clone, Copy, PartialEq, Eq, Structural, Debug)]
pub struct WalletKey {
    pub idx: usize,
    pub trades: u128,
}

/// Whether a token can be ranked by price change: both prices known and a
/// positive initial price to divide by.
pub open spec fn gain_eligible(m: TokenMetricsV) -> bool {
    match m.initial_price {
        Option::Some(ip) => ip > 0 && m.current_price is Some,
        Option::None => false,
    }
}

/// The ranking candidates of a token table, in table order.
pub open spec fn gain_keys(s: Seq<TokenMetricsV>) -> Seq<GainKey>
    decreases s.len(),
{
    if s.len() == 0 {
        Seq::empty()
    } else {
        let pre = gain_keys(s.drop_last());
        let m = s.last();
        if gain_eligible(m) {
            pre.push(
                GainKey {
                    idx: (s.len() - 1) as usize,
                    initial: m.initial_price->Some_0,
                    current: m.current_price->Some_0,
                },
            )
        } else {
            pre
        }
    }
}

/// Strict ranking of gainers: `a` ranks before `b` when its relative
/// price change `(current - initial) / initial` is greater, compared
/// exactly by cross-multiplication, with the earlier table position
/// winning ties.  On distinct positions this order is total.
pub open spec fn gain_before(a: GainKey, b: GainKey) -> bool {
    let ga = (a.current - a.initial) * b.initial;
    let gb = (b.current - b.initial) * a.initial;
    ga > gb || (ga == gb && a.idx < b.idx)
}

/// Strict ranking of wallets: more trades first, earlier table position
/// winning ties.
pub open spec fn wallet_before(a: WalletKey, b: WalletKey) -> bool {
    a.trades > b.trades || (a.trades == b.trades && a.idx < b.idx)
}

/// Inserts `x` into `s` before the first entry it ranks above.
pub open spec fn insert_gain(x: GainKey, s: Seq<GainKey>) -> Seq<GainKey>
    decreases s.len(),
{
    if s.len() == 0 {
        seq![x]
    } else if gain_before(x, s[0]) {
        seq![x] + s
    } else {
        seq![s[0]] + insert_gain(x, s.subrange(1, s.len() as int))
    }
}

/// Sorts ranking candidates by [`gain_before`] (insertion sort, stable by
/// construction: ties keep table order through the position tie-break).
pub open spec fn sort_gains(s: Seq<GainKey>) -> Seq<GainKey>
    decreases s.len(),
{
    if s.len() == 0 {
        Seq::empty()
    } else {
        insert_gain(s.last(), sort_gains(s.drop_last()))
    }
}

/// Inserts `x` into `s` before the first entry it ranks above.
pub open spec fn insert_wallet(x: WalletKey, s: Seq<WalletKey>) -> Seq<WalletKey>
    decreases s.len(),
{
    if s.len() == 0 {
        seq![x]
    } else if wallet_before(x, s[0]) {
        seq![x] + s
    } else {
        seq![s[0]] + insert_wallet(x, s.subrange(1, s.len() as int))
    }
}

/// Sorts wallet candidates by [`wallet_before`].
pub open spec fn sort_wallets(s: Seq<WalletKey>) -> Seq<WalletKey>
    decreases s.len(),
{
    if s.len() == 0 {
        Seq::empty()
    } else {
        insert_wallet(s.last(), sort_wallets(s.drop_last()))
    }
}

/// The wallet candidates of a wallet table, in table order; every wallet
/// is ranked by its total number of trades.
pub open spec fn wallet_keys(s: Seq<WalletMetricsV>) -> Seq<WalletKey>
    decreases s.len(),
{
    if s.len() == 0 {
        Seq::empty()
    } else {
        let w = s.last();
        wallet_keys(s.drop_last()).push(
            WalletKey {
                idx: (s.len() - 1) as usize,
                trades: (w.total_buys + w.total_sells) as u128,
            },
        )
    }
}

/// The sum of all tokens' running volumes, in lamports.
pub open spec fn total_vol(s: Seq<TokenMetricsV>) -> int
    decreases s.len(),
{
    if s.len() == 0 {
        0
    } else {
        total_vol(s.drop_last()) + s.last().volume_24h
    }
}

/// The first `n` entries of `s`, or all of them if there are fewer.
pub open spec fn take_at_most<T>(s: Seq<T>, n: int) -> Seq<T> {
    if s.len() <= n {
        s
    } else {
        s.subrange(0, n)
    }
}

/// One line of the gainers table: the token's display name and its signed
/// whole-percent price change, truncated toward zero.
pub open spec fn gline(tokens: Seq<TokenMetricsV>, g: GainKey) -> Seq<char> {
    let name = if g.idx < tokens.len() {
        match tokens[g.idx as int].name {
            Option::Some(n) => n,
            Option::None => Seq::<char>::empty(),
        }
    } else {
        Seq::<char>::empty()
    };
    let sign = if g.current >= g.initial {
        "+"@
    } else {
        "-"@
    };
    let mag: int = if g.current >= g.initial {
        g.current - g.initial
    } else {
        g.initial - g.current
    };
    let pct: int = if g.initial > 0 {
        mag * 100 / (g.initial as int)
    } else {
        0
    };
    "  "@ + name + " | change pct "@ + sign + dec_str(pct) + "\n"@
}

/// The gainers table, one line per entry.
pub open spec fn glines(tokens: Seq<TokenMetricsV>, rows: Seq<GainKey>) -> Seq<char>
    decreases rows.len(),
{
    if rows.len() == 0 {
        Seq::empty()
    } else {
        glines(tokens, rows.drop_last()) + gline(tokens, rows.last())
    }
}

/// One line of the active-wallets table: the wallet's address and its
/// number of trades.
pub open spec fn wline(wallets: Seq<WalletMetricsV>, w: WalletKey) -> Seq<char> {
    let addr = if w.idx < wallets.len() {
        addr_str(wallets[w.idx as int].address)
    } else {
        Seq::<char>::empty()
    };
    "  "@ + addr + " | trades "@ + dec_str(w.trades as int) + "\n"@
}

/// The active-wallets table, one line per entry.
pub open spec fn wlines(wallets: Seq<WalletMetricsV>, rows: Seq<WalletKey>) -> Seq<char>
    decreases rows.len(),
{
    if rows.len() == 0 {
        Seq::empty()
    } else {
        wlines(wallets, rows.drop_last()) + wline(wallets, rows.last())
    }
}

/// The whole report: totals, the top five gainers ranked by exact
/// relative price change, and the three most active wallets, ties broken
/// by table order throughout.
pub open spec fn report_text(tokens: Seq<TokenMetricsV>, wallets: Seq<WalletMetricsV>) -> Seq<
    char,
> {
    "MONITORING REPORT\n"@ + "tokens monitored: "@ + dec_str(tokens.len() as int) + "\n"@
        + "total volume lamports: "@ + dec_str(total_vol(tokens)) + "\n"@ + "top gainers:\n"@
        + glines(tokens, take_at_most(sort_gains(gain_keys(tokens)), 5)) + "wallets tracked: "@
        + dec_str(wallets.len() as int) + "\n"@ + "most active wallets:\n"@ + wlines(
        wallets,
        take_at_most(sort_wallets(wallet_keys(wallets)), 3),
    )
}

/// Descending order of the gainers table: no later entry ranks strictly
/// before an earlier one.
pub open spec fn gains_sorted(s: Seq<GainKey>) -> bool {
    forall|i: int, j: int| 0 <= i < j < s.len() ==> !gain_before(s[j], s[i])
}

/// Descending order of the active-wallets table.
pub open spec fn wallets_sorted(s: Seq<WalletKey>) -> bool {
    forall|i: int, j: int| 0 <= i < j < s.len() ==> !wallet_before(s[j], s[i])
}

/// The ranking of gainers is asymmetric: two entries never each rank
/// strictly before the other.
pub proof fn lemma_gain_asym(a: GainKey, b: GainKey)
    ensures
        !(gain_before(a, b) && gain_before(b, a)),
{
}

/// The ranking of gainers is transitive on entries with positive initial
/// prices (which every ranked candidate has).
pub proof fn lemma_gain_trans(a: GainKey, b: GainKey, c: GainKey)
    requires
        a.initial > 0,
        b.initial > 0,
        c.initial > 0,
        gain_before(a, b),
        gain_before(b, c),
    ensures
        gain_before(a, c),
{
    let na = a.current - a.initial;
    let nb = b.current - b.initial;
    let nc = c.current - c.initial;
    let ia = a.initial as int;
    let ib = b.initial as int;
    let ic = c.initial as int;
    if na * ib > nb * ia && nb * ic > nc * ib {
        assert(na * ic > nc * ia) by (nonlinear_arith)
            requires
                na * ib > nb * ia,
                nb * ic > nc * ib,
                ia > 0,
                ib > 0,
                ic > 0,
        ;
    } else if na * ib > nb * ia && nb * ic == nc * ib {
        assert(na * ic > nc * ia) by (nonlinear_arith)
            requires
                na * ib > nb * ia,
                nb * ic == nc * ib,
                ia > 0,
                ib > 0,
                ic > 0,
        ;
    } else if na * ib == nb * ia && nb * ic > nc * ib {
        assert(na * ic > nc * ia) by (nonlinear_arith)
            requires
                na * ib == nb * ia,
                nb * ic > nc * ib,
                ia > 0,
                ib > 0,
                ic > 0,
        ;
    } else {
        assert(na * ib == nb * ia && nb * ic == nc * ib && a.idx < b.idx < c.idx);
        assert(na * ic == nc * ia) by (nonlinear_arith)
            requires
                na * ib == nb * ia,
                nb * ic == nc * ib,
                ia > 0,
                ib > 0,
                ic > 0,
        ;
    }
}

/// Every entry of an insertion result is the inserted entry or one of the
/// list's own.
proof fn lemma_insert_gain_elems(x: GainKey, s: Seq<GainKey>, t: int)
    requires
        0 <= t < insert_gain(x, s).len(),
    ensures
        insert_gain(x, s)[t] == x || s.contains(insert_gain(x, s)[t]),
    decreases s.len(),
{
    let r = insert_gain(x, s);
    if s.len() == 0 {
    } else if gain_before(x, s[0]) {
        if t > 0 {
            assert(r[t] == s[t - 1]);
        }
    } else {
        let tail = s.subrange(1, s.len() as int);
        if t == 0 {
            assert(r[0] == s[0]);
        } else {
            assert(r[t] == insert_gain(x, tail)[t - 1]);
            lemma_insert_gain_elems(x, tail, t - 1);
            if insert_gain(x, tail)[t - 1] != x {
                let w = choose|w: int| 0 <= w < tail.len() && tail[w] == insert_gain(
                    x,
                    tail,
                )[t - 1];
                assert(s[w + 1] == insert_gain(x, tail)[t - 1]);
            }
        }
    }
}

/// Inserting into a sorted list of positive-initial entries keeps it
/// sorted.
proof fn lemma_insert_gain_sorted(x: GainKey, s: Seq<GainKey>)
    requires
        gains_sorted(s),
        x.initial > 0,
        forall|k: int| 0 <= k < s.len() ==> s[k].initial > 0,
    ensures
        gains_sorted(insert_gain(x, s)),
    decreases s.len(),
{
    let r = insert_gain(x, s);
    if s.len() == 0 {
    } else if gain_before(x, s[0]) {
        assert forall|i: int, j: int| 0 <= i < j < r.len() implies !gain_before(r[j], r[i]) by {
            assert(r[j] == s[j - 1]);
            if i == 0 {
                if gain_before(s[j - 1], x) {
                    if j - 1 == 0 {
                        lemma_gain_asym(x, s[0]);
                    } else {
                        lemma_gain_trans(s[j - 1], x, s[0]);
                    }
                }
            } else {
                assert(r[i] == s[i - 1]);
            }
        }
    } else {
        let tail = s.subrange(1, s.len() as int);
        assert forall|k: int| 0 <= k < tail.len() implies tail[k].initial > 0 by {
            assert(tail[k] == s[k + 1]);
        }
        assert forall|i: int, j: int| 0 <= i < j < tail.len() implies !gain_before(
            tail[j],
            tail[i],
        ) by {
            assert(tail[i] == s[i + 1] && tail[j] == s[j + 1]);
        }
        lemma_insert_gain_sorted(x, tail);
        let rt = insert_gain(x, tail);
        assert forall|i: int, j: int| 0 <= i < j < r.len() implies !gain_before(r[j], r[i]) by {
            if i == 0 {
                assert(r[0] == s[0]);
                assert(r[j] == rt[j - 1]);
                lemma_insert_gain_elems(x, tail, j - 1);
                if rt[j - 1] == x {
                    assert(!gain_before(x, s[0]));
                } else {
                    let w = choose|w: int| 0 <= w < tail.len() && tail[w] == rt[j - 1];
                    assert(s[w + 1] == rt[j - 1]);
                    assert(!gain_before(s[w + 1], s[0]));
                }
            } else {
                assert(r[i] == rt[i - 1] && r[j] == rt[j - 1]);
            }
        }
    }
}

/// Sorting law for the gainers table: the result of `sort_gains` is in
/// descending ranking order whenever every candidate has a positive
/// initial price, which every candidate produced by `gain_keys` does.
pub proof fn lemma_sort_gains_sorted(s: Seq<GainKey>)
    requires
        forall|k: int| 0 <= k < s.len() ==> s[k].initial > 0,
    ensures
        gains_sorted(sort_gains(s)),
        forall|t: int|
            0 <= t < sort_gains(s).len() ==> #[trigger] sort_gains(s)[t].initial > 0,
    decreases s.len(),
{
    if s.len() > 0 {
        let pre = s.drop_last();
        assert forall|k: int| 0 <= k < pre.len() implies pre[k].initial > 0 by {
            assert(pre[k] == s[k]);
        }
        lemma_sort_gains_sorted(pre);
        let sorted_pre = sort_gains(pre);
        lemma_insert_gain_sorted(s.last(), sorted_pre);
        assert forall|t: int|
            0 <= t < sort_gains(s).len() implies #[trigger] sort_gains(s)[t].initial > 0 by {
            lemma_insert_gain_elems(s.last(), sorted_pre, t);
            if sort_gains(s)[t] != s.last() {
                let w = choose|w: int|
                    0 <= w < sorted_pre.len() && sorted_pre[w] == sort_gains(s)[t];
            }
        }
    }
}

/// Insertion adds exactly the inserted entry to the list's contents.
proof fn lemma_insert_gain_multiset(x: GainKey, s: Seq<GainKey>)
    ensures
        insert_gain(x, s).to_multiset() == s.to_multiset().insert(x),
    decreases s.len(),
{
    broadcast use vstd::seq_lib::group_to_multiset_ensures;

    if s.len() == 0 {
        assert(seq![x] =~= Seq::<GainKey>::empty().push(x));
        assert(insert_gain(x, s).to_multiset() =~= s.to_multiset().insert(x));
    } else if gain_before(x, s[0]) {
        lemma_multiset_commutative(seq![x], s);
        assert(seq![x] =~= Seq::<GainKey>::empty().push(x));
        assert(insert_gain(x, s).to_multiset() =~= s.to_multiset().insert(x));
    } else {
        let tail = s.subrange(1, s.len() as int);
        lemma_insert_gain_multiset(x, tail);
        lemma_multiset_commutative(seq![s[0]], insert_gain(x, tail));
        lemma_multiset_commutative(seq![s[0]], tail);
        assert(s =~= seq![s[0]] + tail);
        assert(seq![s[0]] =~= Seq::<GainKey>::empty().push(s[0]));
        assert(insert_gain(x, s).to_multiset() =~= s.to_multiset().insert(x));
    }
}

/// Permutation law for the gainers table: sorting only reorders the
/// candidates, never adds, drops or changes one.
pub proof fn lemma_sort_gains_permutation(s: Seq<GainKey>)
    ensures
        sort_gains(s).to_multiset() == s.to_multiset(),
    decreases s.len(),
{
    broadcast use vstd::seq_lib::group_to_multiset_ensures;

    if s.len() > 0 {
        let pre = s.drop_last();
        lemma_sort_gains_permutation(pre);
        lemma_insert_gain_multiset(s.last(), sort_gains(pre));
        assert(s =~= pre.push(s.last()));
    }
}

/// The ranking of wallets is asymmetric.
pub proof fn lemma_wallet_asym(a: WalletKey, b: WalletKey)
    ensures
        !(wallet_before(a, b) && wallet_before(b, a)),
{
}

/// The ranking of wallets is transitive.
pub proof fn lemma_wallet_trans(a: WalletKey, b: WalletKey, c: WalletKey)
    requires
        wallet_before(a, b),
        wallet_before(b, c),
    ensures
        wallet_before(a, c),
{
}

/// Every entry of an insertion result is the inserted entry or one of the
/// list's own.
proof fn lemma_insert_wallet_elems(x: WalletKey, s: Seq<WalletKey>, t: int)
    requires
        0 <= t < insert_wallet(x, s).len(),
    ensures
        insert_wallet(x, s)[t] == x || s.contains(insert_wallet(x, s)[t]),
    decreases s.len(),
{
    let r = insert_wallet(x, s);
    if s.len() == 0 {
    } else if wallet_before(x, s[0]) {
        if t > 0 {
            assert(r[t] == s[t - 1]);
        }
    } else {
        let tail = s.subrange(1, s.len() as int);
        if t == 0 {
            assert(r[0] == s[0]);
        } else {
            assert(r[t] == insert_wallet(x, tail)[t - 1]);
            lemma_insert_wallet_elems(x, tail, t - 1);
            if insert_wallet(x, tail)[t - 1] != x {
                let w = choose|w: int| 0 <= w < tail.len() && tail[w] == insert_wallet(
                    x,
                    tail,
                )[t - 1];
                assert(s[w + 1] == insert_wallet(x, tail)[t - 1]);
            }
        }
    }
}

/// Inserting into a sorted wallet list keeps it sorted.
proof fn lemma_insert_wallet_sorted(x: WalletKey, s: Seq<WalletKey>)
    requires
        wallets_sorted(s),
    ensures
        wallets_sorted(insert_wallet(x, s)),
    decreases s.len(),
{
    let r = insert_wallet(x, s);
    if s.len() == 0 {
    } else if wallet_before(x, s[0]) {
        assert forall|i: int, j: int| 0 <= i < j < r.len() implies !wallet_before(r[j], r[i]) by {
            assert(r[j] == s[j - 1]);
            if i == 0 {
                if wallet_before(s[j - 1], x) {
                    if j - 1 == 0 {
                        lemma_wallet_asym(x, s[0]);
                    } else {
                        lemma_wallet_trans(s[j - 1], x, s[0]);
                    }
                }
            } else {
                assert(r[i] == s[i - 1]);
            }
        }
    } else {
        let tail = s.subrange(1, s.len() as int);
        assert forall|i: int, j: int| 0 <= i < j < tail.len() implies !wallet_before(
            tail[j],
            tail[i],
        ) by {
            assert(tail[i] == s[i + 1] && tail[j] == s[j + 1]);
        }
        lemma_insert_wallet_sorted(x, tail);
        let rt = insert_wallet(x, tail);
        assert forall|i: int, j: int| 0 <= i < j < r.len() implies !wallet_before(r[j], r[i]) by {
            if i == 0 {
                assert(r[0] == s[0]);
                assert(r[j] == rt[j - 1]);
                lemma_insert_wallet_elems(x, tail, j - 1);
                if rt[j - 1] == x {
                    assert(!wallet_before(x, s[0]));
                } else {
                    let w = choose|w: int| 0 <= w < tail.len() && tail[w] == rt[j - 1];
                    assert(s[w + 1] == rt[j - 1]);
                    assert(!wallet_before(s[w + 1], s[0]));
                }
            } else {
                assert(r[i] == rt[i - 1] && r[j] == rt[j - 1]);
            }
        }
    }
}

/// Sorting law for the active-wallets table: the result of
/// `sort_wallets` is in descending ranking order.
pub proof fn lemma_sort_wallets_sorted(s: Seq<WalletKey>)
    ensures
        wallets_sorted(sort_wallets(s)),
    decreases s.len(),
{
    if s.len() > 0 {
        lemma_sort_wallets_sorted(s.drop_last());
        lemma_insert_wallet_sorted(s.last(), sort_wallets(s.drop_last()));
    }
}

/// Insertion adds exactly the inserted entry to the list's contents.
proof fn lemma_insert_wallet_multiset(x: WalletKey, s: Seq<WalletKey>)
    ensures
        insert_wallet(x, s).to_multiset() == s.to_multiset().insert(x),
    decreases s.len(),
{
    broadcast use vstd::seq_lib::group_to_multiset_ensures;

    if s.len() == 0 {
        assert(seq![x] =~= Seq::<WalletKey>::empty().push(x));
        assert(insert_wallet(x, s).to_multiset() =~= s.to_multiset().insert(x));
    } else if wallet_before(x, s[0]) {
        lemma_multiset_commutative(seq![x], s);
        assert(seq![x] =~= Seq::<WalletKey>::empty().push(x));
        assert(insert_wallet(x, s).to_multiset() =~= s.to_multiset().insert(x));
    } else {
        let tail = s.subrange(1, s.len() as int);
        lemma_insert_wallet_multiset(x, tail);
        lemma_multiset_commutative(seq![s[0]], insert_wallet(x, tail));
        lemma_multiset_commutative(seq![s[0]], tail);
        assert(s =~= seq![s[0]] + tail);
        assert(seq![s[0]] =~= Seq::<WalletKey>::empty().push(s[0]));
        assert(insert_wallet(x, s).to_multiset() =~= s.to_multiset().insert(x));
    }
}

/// Permutation law for the active-wallets table.
pub proof fn lemma_sort_wallets_permutation(s: Seq<WalletKey>)
    ensures
        sort_wallets(s).to_multiset() == s.to_multiset(),
    decreases s.len(),
{
    broadcast use vstd::seq_lib::group_to_multiset_ensures;

    if s.len() > 0 {
        let pre = s.drop_last();
        lemma_sort_wallets_permutation(pre);
        lemma_insert_wallet_multiset(s.last(), sort_wallets(pre));
        assert(s =~= pre.push(s.last()));
    }
}

/// Products of non-negative factors are non-negative; used to relate the
/// machine comparisons below to the exact cross-multiplied ranking.
proof fn lemma_neg_mul(x: int, y: int)
    ensures
        (-x) * y == -(x * y),
{
    assert((-x) * y == -(x * y)) by (nonlinear_arith);
}

/// Decides [`gain_before`] exactly, splitting on the signs of the two
/// price changes so that every product fits a machine word pair.
fn gain_before_exec(a: &GainKey, b: &GainKey) -> (r: bool)
    ensures
        r == gain_before(*a, *b),
{
    let a_pos = a.current >= a.initial;
    let b_pos = b.current >= b.initial;
    let mag_a: u64 = if a_pos {
        a.current - a.initial
    } else {
        a.initial - a.current
    };
    let mag_b: u64 = if b_pos {
        b.current - b.initial
    } else {
        b.initial - b.current
    };
    proof {
        lemma_mul_le(mag_a as u128, b.initial as u128, u64::MAX as u128, u64::MAX as u128);
        lemma_mul_le(mag_b as u128, a.initial as u128, u64::MAX as u128, u64::MAX as u128);
    }
    let pa: u128 = (mag_a as u128) * (b.initial as u128);
    let pb: u128 = (mag_b as u128) * (a.initial as u128);
    proof {
        lemma_neg_mul(mag_a as int, b.initial as int);
        lemma_neg_mul(mag_b as int, a.initial as int);
        assert(pa as int == (mag_a as int) * (b.initial as int));
        assert(pb as int == (mag_b as int) * (a.initial as int));
        if a_pos {
            assert((a.current - a.initial) * b.initial == pa as int);
        } else {
            assert((a.current - a.initial) * b.initial == -(pa as int));
        }
        if b_pos {
            assert((b.current - b.initial) * a.initial == pb as int);
        } else {
            assert((b.current - b.initial) * a.initial == -(pb as int));
        }
    }
    let gt: bool = if a_pos && b_pos {
        pa > pb
    } else if a_pos && !b_pos {
        pa > 0 || pb > 0
    } else if !a_pos && b_pos {
        false
    } else {
        pb > pa
    };
    let eq: bool = if a_pos == b_pos {
        pa == pb
    } else {
        pa == 0 && pb == 0
    };
    gt || (eq && a.idx < b.idx)
}

/// Decides [`wallet_before`].
fn wallet_before_exec(a: &WalletKey, b: &WalletKey) -> (r: bool)
    ensures
        r == wallet_before(*a, *b),
{
    a.trades > b.trades || (a.trades == b.trades && a.idx < b.idx)
}

/// Splitting `insert_gain` at the insertion point: with everything before
/// position `j` ranking at or above `x` and the entry at `j` (if any)
/// ranking below it, the insertion is exactly a splice at `j`.
proof fn lemma_insert_gain_at(x: GainKey, s: Seq<GainKey>, j: int)
    requires
        0 <= j <= s.len(),
        forall|t: int| 0 <= t < j ==> !gain_before(x, s[t]),
        j < s.len() ==> gain_before(x, s[j]),
    ensures
        insert_gain(x, s) == s.subrange(0, j) + seq![x] + s.subrange(j, s.len() as int),
    decreases j,
{
    if j == 0 {
        if s.len() == 0 {
            assert(insert_gain(x, s) =~= s.subrange(0, 0) + seq![x] + s.subrange(0, 0));
        } else {
            assert(gain_before(x, s[0]));
            assert(insert_gain(x, s) =~= s.subrange(0, 0) + seq![x] + s.subrange(
                0,
                s.len() as int,
            ));
        }
    } else {
        let tail = s.subrange(1, s.len() as int);
        assert(!gain_before(x, s[0]));
        assert forall|t: int| 0 <= t < j - 1 implies !gain_before(x, tail[t]) by {
            assert(tail[t] == s[t + 1]);
        }
        if j - 1 < tail.len() {
            assert(tail[j - 1] == s[j]);
        }
        lemma_insert_gain_at(x, tail, j - 1);
        assert(insert_gain(x, s) == seq![s[0]] + (tail.subrange(0, j - 1) + seq![x]
            + tail.subrange(j - 1, tail.len() as int)));
        assert(tail.subrange(0, j - 1) =~= s.subrange(1, j));
        assert(tail.subrange(j - 1, tail.len() as int) =~= s.subrange(j, s.len() as int));
        assert(insert_gain(x, s) =~= s.subrange(0, j) + seq![x] + s.subrange(j, s.len() as int));
    }
}

/// Splitting `insert_wallet` at the insertion point.
proof fn lemma_insert_wallet_at(x: WalletKey, s: Seq<WalletKey>, j: int)
    requires
        0 <= j <= s.len(),
        forall|t: int| 0 <= t < j ==> !wallet_before(x, s[t]),
        j < s.len() ==> wallet_before(x, s[j]),
    ensures
        insert_wallet(x, s) == s.subrange(0, j) + seq![x] + s.subrange(j, s.len() as int),
    decreases j,
{
    if j == 0 {
        if s.len() == 0 {
            assert(insert_wallet(x, s) =~= s.subrange(0, 0) + seq![x] + s.subrange(0, 0));
        } else {
            assert(wallet_before(x, s[0]));
            assert(insert_wallet(x, s) =~= s.subrange(0, 0) + seq![x] + s.subrange(
                0,
                s.len() as int,
            ));
        }
    } else {
        let tail = s.subrange(1, s.len() as int);
        assert(!wallet_before(x, s[0]));
        assert forall|t: int| 0 <= t < j - 1 implies !wallet_before(x, tail[t]) by {
            assert(tail[t] == s[t + 1]);
        }
        if j - 1 < tail.len() {
            assert(tail[j - 1] == s[j]);
        }
        lemma_insert_wallet_at(x, tail, j - 1);
        assert(insert_wallet(x, s) == seq![s[0]] + (tail.subrange(0, j - 1) + seq![x]
            + tail.subrange(j - 1, tail.len() as int)));
        assert(tail.subrange(0, j - 1) =~= s.subrange(1, j));
        assert(tail.subrange(j - 1, tail.len() as int) =~= s.subrange(j, s.len() as int));
        assert(insert_wallet(x, s) =~= s.subrange(0, j) + seq![x] + s.subrange(
            j,
            s.len() as int,
        ));
    }
}

/// Collects the ranking candidates of the token table.
fn gain_keys_exec(tokens: &Vec<TokenMetrics>) -> (r: Vec<GainKey>)
    ensures
        r@ == gain_keys(tokens.deep_view()),
{
    let ghost tv = tokens.deep_view();
    let mut r: Vec<GainKey> = Vec::new();
    let mut i: usize = 0;
    while i < tokens.len()
        invariant
            i <= tokens.len(),
            tv == tokens.deep_view(),
            tv.len() == tokens.len(),
            r@ == gain_keys(tv.subrange(0, i as int)),
        decreases tokens.len() - i,
    {
        proof {
            assert(tv.subrange(0, i + 1 as int).drop_last() =~= tv.subrange(0, i as int));
            assert(tv.subrange(0, i + 1 as int).last() == tv[i as int]);
            assert(tv[i as int] == tokens@[i as int].deep_view());
        }
        if let Option::Some(ip) = tokens[i].initial_price {
            if ip > 0 {
                if let Option::Some(cp) = tokens[i].current_price {
                    r.push(GainKey { idx: i, initial: ip, current: cp });
                }
            }
        }
        proof {
            assert(r@ =~= gain_keys(tv.subrange(0, i + 1 as int)));
        }
        i = i + 1;
    }
    proof {
        assert(tv.subrange(0, tv.len() as int) =~= tv);
    }
    r
}

/// Collects the wallet candidates of the wallet table.
fn wallet_keys_exec(wallets: &Vec<WalletMetrics>) -> (r: Vec<WalletKey>)
    ensures
        r@ == wallet_keys(wallets.deep_view()),
{
    let ghost wv = wallets.deep_view();
    let mut r: Vec<WalletKey> = Vec::new();
    let mut i: usize = 0;
    while i < wallets.len()
        invariant
            i <= wallets.len(),
            wv == wallets.deep_view(),
            wv.len() == wallets.len(),
            r@ == wallet_keys(wv.subrange(0, i as int)),
        decreases wallets.len() - i,
    {
        proof {
            assert(wv.subrange(0, i + 1 as int).drop_last() =~= wv.subrange(0, i as int));
            assert(wv.subrange(0, i + 1 as int).last() == wv[i as int]);
            assert(wv[i as int] == wallets@[i as int].deep_view());
        }
        let trades: u128 = (wallets[i].total_buys as u128) + (wallets[i].total_sells as u128);
        r.push(WalletKey { idx: i, trades });
        proof {
            assert(r@ =~= wallet_keys(wv.subrange(0, i + 1 as int)));
        }
        i = i + 1;
    }
    proof {
        assert(wv.subrange(0, wv.len() as int) =~= wv);
    }
    r
}

/// Sorts the ranking candidates by [`gain_before`].
fn sort_gains_exec(v: &Vec<GainKey>) -> (r: Vec<GainKey>)
    ensures
        r@ == sort_gains(v@),
{
    let mut r: Vec<GainKey> = Vec::new();
    let mut i: usize = 0;
    while i < v.len()
        invariant
            i <= v.len(),
            r@ == sort_gains(v@.subrange(0, i as int)),
        decreases v.len() - i,
    {
        let x = v[i];
        let ghost s0 = r@;
        let mut j: usize = 0;
        while j < r.len()
            invariant
                j <= r.len(),
                r@ == s0,
                forall|t: int| 0 <= t < j ==> !gain_before(x, s0[t]),
            ensures
                j <= r.len(),
                r@ == s0,
                forall|t: int| 0 <= t < j ==> !gain_before(x, s0[t]),
                j < s0.len() ==> gain_before(x, s0[j as int]),
            decreases r.len() - j,
        {
            if gain_before_exec(&x, &r[j]) {
                break ;
            }
            j = j + 1;
        }
        r.insert(j, x);
        proof {
            lemma_insert_gain_at(x, s0, j as int);
            assert(r@ =~= s0.subrange(0, j as int) + seq![x] + s0.subrange(
                j as int,
                s0.len() as int,
            ));
            assert(v@.subrange(0, i + 1 as int).drop_last() =~= v@.subrange(0, i as int));
            assert(v@.subrange(0, i + 1 as int).last() == v@[i as int]);
            assert(r@ == insert_gain(x, sort_gains(v@.subrange(0, i as int))));
        }
        i = i + 1;
    }
    proof {
        assert(v@.subrange(0, v@.len() as int) =~= v@);
    }
    r
}

/// Sorts the wallet candidates by [`wallet_before`].
fn sort_wallets_exec(v: &Vec<WalletKey>) -> (r: Vec<WalletKey>)
    ensures
        r@ == sort_wallets(v@),
{
    let mut r: Vec<WalletKey> = Vec::new();
    let mut i: usize = 0;
    while i < v.len()
        invariant
            i <= v.len(),
            r@ == sort_wallets(v@.subrange(0, i as int)),
        decreases v.len() - i,
    {
        let x = v[i];
        let ghost s0 = r@;
        let mut j: usize = 0;
        while j < r.len()
            invariant
                j <= r.len(),
                r@ == s0,
                forall|t: int| 0 <= t < j ==> !wallet_before(x, s0[t]),
            ensures
                j <= r.len(),
                r@ == s0,
                forall|t: int| 0 <= t < j ==> !wallet_before(x, s0[t]),
                j < s0.len() ==> wallet_before(x, s0[j as int]),
            decreases r.len() - j,
        {
            if wallet_before_exec(&x, &r[j]) {
                break ;
            }
            j = j + 1;
        }
        r.insert(j, x);
        proof {
            lemma_insert_wallet_at(x, s0, j as int);
            assert(r@ =~= s0.subrange(0, j as int) + seq![x] + s0.subrange(
                j as int,
                s0.len() as int,
            ));
            assert(v@.subrange(0, i + 1 as int).drop_last() =~= v@.subrange(0, i as int));
            assert(v@.subrange(0, i + 1 as int).last() == v@[i as int]);
            assert(r@ == insert_wallet(x, sort_wallets(v@.subrange(0, i as int))));
        }
        i = i + 1;
    }
    proof {
        assert(v@.subrange(0, v@.len() as int) =~= v@);
    }
    r
}

/// Sums every token's running volume.
fn total_vol_exec(tokens: &Vec<TokenMetrics>) -> (r: u128)
    ensures
        r as int == total_vol(tokens.deep_view()),
{
    let ghost tv = tokens.deep_view();
    let mut acc: u128 = 0;
    let mut i: usize = 0;
    while i < tokens.len()
        invariant
            i <= tokens.len(),
            tv == tokens.deep_view(),
            tv.len() == tokens.len(),
            acc as int == total_vol(tv.subrange(0, i as int)),
            acc as int <= (i as int) * (u64::MAX as int),
        decreases tokens.len() - i,
    {
        proof {
            assert(tv.subrange(0, i + 1 as int).drop_last() =~= tv.subrange(0, i as int));
            assert(tv.subrange(0, i + 1 as int).last() == tv[i as int]);
            assert(tv[i as int] == tokens@[i as int].deep_view());
            assert((i as int) * (u64::MAX as int) + (u64::MAX as int) == ((i + 1) as int) * (
            u64::MAX as int)) by (nonlinear_arith);
            assert(((i + 1) as int) * (u64::MAX as int) <= (usize::MAX as int) * (
            u64::MAX as int)) by (nonlinear_arith)
                requires
                    (i + 1) as int <= usize::MAX as int,
            ;
        }
        acc = acc + (tokens[i].volume_24h as u128);
        i = i + 1;
    }
    proof {
        assert(tv.subrange(0, tv.len() as int) =~= tv);
    }
    acc
}

/// Renders one gainers line, per [`gline`].
fn gline_exec(tokens: &Vec<TokenMetrics>, g: &GainKey) -> (r: String)
    ensures
        r@ == gline(tokens.deep_view(), *g),
{
    let mut t = String::from_str("  ");
    if g.idx < tokens.len() {
        proof {
            assert(tokens.deep_view()[g.idx as int] == tokens@[g.idx as int].deep_view());
        }
        if let Option::Some(n) = &tokens[g.idx].name {
            let nc = n.clone();
            t.append(nc.as_str());
        }
    }
    t.append(" | change pct ");
    if g.current >= g.initial {
        t.append("+");
    } else {
        t.append("-");
    }
    let mag: u64 = if g.current >= g.initial {
        g.current - g.initial
    } else {
        g.initial - g.current
    };
    let pct: u128 = if g.initial > 0 {
        ((mag as u128) * 100) / (g.initial as u128)
    } else {
        0
    };
    let p = u128_string(pct);
    t.append(p.as_str());
    t.append("\n");
    proof {
        assert(t@ =~= gline(tokens.deep_view(), *g));
    }
    t
}

/// Renders one active-wallets line, per [`wline`].
fn wline_exec(wallets: &Vec<WalletMetrics>, w: &WalletKey) -> (r: String)
    ensures
        r@ == wline(wallets.deep_view(), *w),
{
    let mut t = String::from_str("  ");
    if w.idx < wallets.len() {
        proof {
            assert(wallets.deep_view()[w.idx as int] == wallets@[w.idx as int].deep_view());
        }
        let a = addr_string(&wallets[w.idx].address);
        t.append(a.as_str());
    }
    t.append(" | trades ");
    let n = u128_string(w.trades);
    t.append(n.as_str());
    t.append("\n");
    proof {
        assert(t@ =~= wline(wallets.deep_view(), *w));
    }
    t
}

/// Renders the whole report over a snapshot of both tables, per
/// [`report_text`]: totals, the top five gainers, the three most active
/// wallets.  A pure function of the snapshot; nothing is mutated.
pub fn render_report(tokens: &Vec<TokenMetrics>, wallets: &Vec<WalletMetrics>) -> (r: String)
    ensures
        r@ == report_text(tokens.deep_view(), wallets.deep_view()),
{
    let ghost tv = tokens.deep_view();
    let ghost wv = wallets.deep_view();
    let mut out = String::from_str("MONITORING REPORT\n");
    out.append("tokens monitored: ");
    let n_tokens = u64_string(tokens.len() as u64);
    out.append(n_tokens.as_str());
    out.append("\n");
    out.append("total volume lamports: ");
    let vol = total_vol_exec(tokens);
    let vol_s = u128_string(vol);
    out.append(vol_s.as_str());
    out.append("\n");
    out.append("top gainers:\n");

    let keys = gain_keys_exec(tokens);
    let sorted = sort_gains_exec(&keys);
    let k: usize = if sorted.len() < 5 {
        sorted.len()
    } else {
        5
    };
    let ghost top = take_at_most(sort_gains(gain_keys(tv)), 5);
    proof {
        assert(sorted@.subrange(0, k as int) =~= top);
    }
    let ghost base = out@;
    let mut i: usize = 0;
    while i < k
        invariant
            i <= k,
            k <= sorted.len(),
            tv == tokens.deep_view(),
            sorted@.subrange(0, k as int) == top,
            out@ == base + glines(tv, top.subrange(0, i as int)),
        decreases k - i,
    {
        proof {
            assert(top.subrange(0, i + 1 as int).drop_last() =~= top.subrange(0, i as int));
            assert(top.subrange(0, i + 1 as int).last() == top[i as int]);
            assert(top[i as int] == sorted@[i as int]);
        }
        let line = gline_exec(tokens, &sorted[i]);
        out.append(line.as_str());
        proof {
            assert(out@ =~= base + glines(tv, top.subrange(0, i + 1 as int)));
        }
        i = i + 1;
    }
    proof {
        assert(top.subrange(0, top.len() as int) =~= top);
        assert(out@ == base + glines(tv, top));
    }

    out.append("wallets tracked: ");
    let n_wallets = u64_string(wallets.len() as u64);
    out.append(n_wallets.as_str());
    out.append("\n");
    out.append("most active wallets:\n");

    let wkeys = wallet_keys_exec(wallets);
    let wsorted = sort_wallets_exec(&wkeys);
    let wk: usize = if wsorted.len() < 3 {
        wsorted.len()
    } else {
        3
    };
    let ghost wtop = take_at_most(sort_wallets(wallet_keys(wv)), 3);
    proof {
        assert(wsorted@.subrange(0, wk as int) =~= wtop);
    }
    let ghost wbase = out@;
    let mut j: usize = 0;
    while j < wk
        invariant
            j <= wk,
            wk <= wsorted.len(),
            wv == wallets.deep_view(),
            wsorted@.subrange(0, wk as int) == wtop,
            out@ == wbase + wlines(wv, wtop.subrange(0, j as int)),
        decreases wk - j,
    {
        proof {
            assert(wtop.subrange(0, j + 1 as int).drop_last() =~= wtop.subrange(0, j as int));
            assert(wtop.subrange(0, j + 1 as int).last() == wtop[j as int]);
            assert(wtop[j as int] == wsorted@[j as int]);
        }
        let line = wline_exec(wallets, &wsorted[j]);
        out.append(line.as_str());
        proof {
            assert(out@ =~= wbase + wlines(wv, wtop.subrange(0, j + 1 as int)));
        }
        j = j + 1;
    }
    proof {
        assert(wtop.subrange(0, wtop.len() as int) =~= wtop);
        assert(out@ == wbase + wlines(wv, wtop));
        assert(out@ =~= report_text(tv, wv));
    }
    out
}

} // verus!

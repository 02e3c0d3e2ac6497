use vstd::prelude::*;
use crate::addr::Addr;
use crate::event::{SwapEvent, SwapEventV, SwapKind, opt_str_view};

verus! {

/// Rolling metrics for one token, keyed by its mint address.  One instance
/// exists per distinct token ever observed.  All SOL quantities are
/// lamports; prices are fixed-point values in the caller's quote unit.
pub struct TokenMetrics {
    pub address: Addr,
    /// Display name, captured from the first event that created the entry.
    pub name: Option<String>,
    /// Display symbol, captured from the first event that created the entry.
    pub symbol: Option<String>,
    /// Price at first observation; never overwritten afterwards.
    pub initial_price: Option<u64>,
    /// Price of the most recent event that carried one.
    pub current_price: Option<u64>,
    /// Lifetime running volume in lamports (the "24h" label is nominal:
    /// this total is never windowed or decayed).
    pub volume_24h: u64,
    /// Last-known pool liquidity in lamports.
    pub liquidity: u64,
    /// Timestamp (Unix seconds) of the event that created the entry.
    pub first_seen: i64,
    /// Timestamp (Unix seconds) of the most recent update.
    pub last_updated: i64,
    pub buy_count: u64,
    pub sell_count: u64,
    /// Largest single buy seen, in lamports.
    pub largest_buy_sol: u64,
    /// Largest single sell seen, in lamports.
    pub largest_sell_sol: u64,
}

/// The mathematical value of a [`TokenMetrics`].
pub struct TokenMetricsV {
    pub address: Addr,
    pub name: Option<Seq<char>>,
    pub symbol: Option<Seq<char>>,
    pub initial_price: Option<u64>,
    pub current_price: Option<u64>,
    pub volume_24h: u64,
    pub liquidity: u64,
    pub first_seen: i64,
    pub last_updated: i64,
    pub buy_count: u64,
    pub sell_count: u64,
    pub largest_buy_sol: u64,
    pub largest_sell_sol: u64,
}

impl View for TokenMetrics {
    type V = TokenMetricsV;

    open spec fn view(&self) -> TokenMetricsV {
        TokenMetricsV {
            address: self.address,
            name: opt_str_view(self.name),
            symbol: opt_str_view(self.symbol),
            initial_price: self.initial_price,
            current_price: self.current_price,
            volume_24h: self.volume_24h,
            liquidity: self.liquidity,
            first_seen: self.first_seen,
            last_updated: self.last_updated,
            buy_count: self.buy_count,
            sell_count: self.sell_count,
            largest_buy_sol: self.largest_buy_sol,
            largest_sell_sol: self.largest_sell_sol,
        }
    }
}

impl DeepView for TokenMetrics {
    type V = TokenMetricsV;

    open spec fn deep_view(&self) -> TokenMetricsV {
        self.view()
    }
}

/// Metrics for one wallet, keyed by the signer address.  The last three
/// fields are placeholders sourced externally; this engine never computes
/// them and leaves them at zero.
pub struct WalletMetrics {
    pub address: Addr,
    pub total_buys: u64,
    pub total_sells: u64,
    /// Every token this wallet has touched, without duplicates, in first-touch order.
    pub tokens_traded: Vec<Addr>,
    /// Lifetime running volume in lamports, summed over all events.
    pub total_volume_sol: u64,
    pub hypothetical_pnl: i64,
    pub win_rate: u64,
    pub average_hold_time: u64,
}

/// The mathematical value of a [`WalletMetrics`].
pub struct WalletMetricsV {
    pub address: Addr,
    pub total_buys: u64,
    pub total_sells: u64,
    pub tokens_traded: Seq<Addr>,
    pub total_volume_sol: u64,
    pub hypothetical_pnl: i64,
    pub win_rate: u64,
    pub average_hold_time: u64,
}

impl View for WalletMetrics {
    type V = WalletMetricsV;

    open spec fn view(&self) -> WalletMetricsV {
        WalletMetricsV {
            address: self.address,
            total_buys: self.total_buys,
            total_sells: self.total_sells,
            tokens_traded: self.tokens_traded@,
            total_volume_sol: self.total_volume_sol,
            hypothetical_pnl: self.hypothetical_pnl,
            win_rate: self.win_rate,
            average_hold_time: self.average_hold_time,
        }
    }
}

impl DeepView for WalletMetrics {
    type V = WalletMetricsV;

    open spec fn deep_view(&self) -> WalletMetricsV {
        self.view()
    }
}

/// Addition on `u64` that saturates at the top of the range.
pub open spec fn sat_add64(a: u64, b: u64) -> u64 {
    if a + b > u64::MAX {
        u64::MAX
    } else {
        (a + b) as u64
    }
}

/// The larger of two `u64` values.
pub open spec fn max64(a: u64, b: u64) -> u64 {
    if a > b {
        a
    } else {
        b
    }
}

/// The lamport amount an event contributes: its SOL amount, or zero when absent.
pub open spec fn event_amount(e: SwapEventV) -> u64 {
    match e.sol_amount {
        Option::Some(a) => a,
        Option::None => 0,
    }
}

/// The metrics entry created when a token is first observed, before the
/// creating event itself is folded in with [`token_step`].
pub open spec fn fresh_token(e: SwapEventV, now: i64) -> TokenMetricsV {
    TokenMetricsV {
        address: e.token,
        name: e.token_name,
        symbol: e.token_symbol,
        initial_price: e.price,
        current_price: e.price,
        volume_24h: 0,
        liquidity: event_liquidity_or(e, 0),
        first_seen: now,
        last_updated: now,
        buy_count: 0,
        sell_count: 0,
        largest_buy_sol: 0,
        largest_sell_sol: 0,
    }
}

/// The event's liquidity, or a fallback when it carries none.
pub open spec fn event_liquidity_or(e: SwapEventV, fallback: u64) -> u64 {
    match e.liquidity {
        Option::Some(l) => l,
        Option::None => fallback,
    }
}

/// How one event changes one token's metrics.  Counters and running sums
/// saturate at `u64::MAX`; `initial_price`, identity and `first_seen` are
/// untouched; `current_price` is overwritten only when the event carries a
/// price; `liquidity` only when the event carries one.
pub open spec fn token_step(m: TokenMetricsV, e: SwapEventV, now: i64) -> TokenMetricsV {
    let amt = event_amount(e);
    let counted = match e.kind {
        SwapKind::Buy => TokenMetricsV {
            buy_count: sat_add64(m.buy_count, 1),
            largest_buy_sol: max64(m.largest_buy_sol, amt),
            volume_24h: sat_add64(m.volume_24h, amt),
            ..m
        },
        SwapKind::Sell => TokenMetricsV {
            sell_count: sat_add64(m.sell_count, 1),
            largest_sell_sol: max64(m.largest_sell_sol, amt),
            volume_24h: sat_add64(m.volume_24h, amt),
            ..m
        },
        SwapKind::Other => m,
    };
    TokenMetricsV {
        current_price: match e.price {
            Option::Some(p) => Option::Some(p),
            Option::None => counted.current_price,
        },
        liquidity: event_liquidity_or(e, counted.liquidity),
        last_updated: now,
        ..counted
    }
}

/// The wallet entry created when a signer is first observed.
pub open spec fn fresh_wallet(e: SwapEventV) -> WalletMetricsV {
    WalletMetricsV {
        address: e.wallet,
        total_buys: 0,
        total_sells: 0,
        tokens_traded: Seq::empty(),
        total_volume_sol: 0,
        hypothetical_pnl: 0,
        win_rate: 0,
        average_hold_time: 0,
    }
}

/// How one event changes one wallet's metrics.  The traded-token list gains
/// the event's token only if it is not already present; the volume sum
/// counts every event, whatever its kind.
pub open spec fn wallet_step(w: WalletMetricsV, e: SwapEventV) -> WalletMetricsV {
    let counted = match e.kind {
        SwapKind::Buy => WalletMetricsV { total_buys: sat_add64(w.total_buys, 1), ..w },
        SwapKind::Sell => WalletMetricsV { total_sells: sat_add64(w.total_sells, 1), ..w },
        SwapKind::Other => w,
    };
    WalletMetricsV {
        tokens_traded: if counted.tokens_traded.contains(e.token) {
            counted.tokens_traded
        } else {
            counted.tokens_traded.push(e.token)
        },
        total_volume_sol: sat_add64(counted.total_volume_sol, event_amount(e)),
        ..counted
    }
}

/// The relative price change of a token snapshot: the direction and the
/// whole-percent magnitude of `(current - initial) / initial`, truncated
/// toward zero and saturated at `u64::MAX`; absent without both prices
/// and a positive initial price.
pub open spec fn change_pct_spec(m: TokenMetricsV) -> Option<(bool, u64)> {
    match m.initial_price {
        Option::Some(ip) => {
            if ip > 0 {
                match m.current_price {
                    Option::Some(cp) => {
                        let up = cp >= ip;
                        let mag: int = if up {
                            cp - ip
                        } else {
                            ip - cp
                        };
                        let pct = mag * 100 / (ip as int);
                        Option::Some((up, if pct > u64::MAX { u64::MAX } else { pct as u64 }))
                    },
                    Option::None => Option::None,
                }
            } else {
                Option::None
            }
        },
        Option::None => Option::None,
    }
}

/// Clones an optional string, preserving its view.
pub fn clone_opt_string(o: &Option<String>) -> (r: Option<String>)
    ensures
        opt_str_view(r) == opt_str_view(*o),
{
    match o {
        Option::Some(s) => Option::Some(s.clone()),
        Option::None => Option::None,
    }
}

/// Copies a list of addresses element by element.
pub fn clone_addrs(v: &Vec<Addr>) -> (r: Vec<Addr>)
    ensures
        r@ == v@,
{
    let mut r: Vec<Addr> = Vec::new();
    let mut i: usize = 0;
    while i < v.len()
        invariant
            i <= v.len(),
            r@ == v@.subrange(0, i as int),
        decreases v.len() - i,
    {
        r.push(v[i]);
        proof {
            assert(r@ =~= v@.subrange(0, i + 1 as int));
        }
        i = i + 1;
    }
    proof {
        assert(r@ =~= v@);
    }
    r
}

impl Clone for TokenMetrics {
    /// The copy has the same mathematical value as the original.
    fn clone(&self) -> (r: Self)
        ensures
            r@ == self@,
    {
        TokenMetrics {
            address: self.address,
            name: clone_opt_string(&self.name),
            symbol: clone_opt_string(&self.symbol),
            initial_price: self.initial_price,
            current_price: self.current_price,
            volume_24h: self.volume_24h,
            liquidity: self.liquidity,
            first_seen: self.first_seen,
            last_updated: self.last_updated,
            buy_count: self.buy_count,
            sell_count: self.sell_count,
            largest_buy_sol: self.largest_buy_sol,
            largest_sell_sol: self.largest_sell_sol,
        }
    }
}

impl Clone for WalletMetrics {
    /// The copy has the same mathematical value as the original.
    fn clone(&self) -> (r: Self)
        ensures
            r@ == self@,
    {
        WalletMetrics {
            address: self.address,
            total_buys: self.total_buys,
            total_sells: self.total_sells,
            tokens_traded: clone_addrs(&self.tokens_traded),
            total_volume_sol: self.total_volume_sol,
            hypothetical_pnl: self.hypothetical_pnl,
            win_rate: self.win_rate,
            average_hold_time: self.average_hold_time,
        }
    }
}

impl TokenMetrics {
    /// Builds the entry for a token first observed through event `e` at time `now`.
    pub fn fresh(e: &SwapEvent, now: i64) -> (r: TokenMetrics)
        ensures
            r@ == fresh_token(e@, now),
    {
        TokenMetrics {
            address: e.token,
            name: clone_opt_string(&e.token_name),
            symbol: clone_opt_string(&e.token_symbol),
            initial_price: e.price,
            current_price: e.price,
            volume_24h: 0,
            liquidity: match e.liquidity {
                Option::Some(l) => l,
                Option::None => 0,
            },
            first_seen: now,
            last_updated: now,
            buy_count: 0,
            sell_count: 0,
            largest_buy_sol: 0,
            largest_sell_sol: 0,
        }
    }

    /// The token's relative price change so far, as a sign (`true` for a
    /// gain or unchanged price) and the whole-percent magnitude truncated
    /// toward zero; absent until both prices are known and the initial
    /// price is positive.  This is the hypothetical profit of a position
    /// opened at first observation.
    pub fn change_pct(&self) -> (r: Option<(bool, u64)>)
        ensures
            r == change_pct_spec(self@),
    {
        if let Option::Some(ip) = self.initial_price {
            if ip > 0 {
                if let Option::Some(cp) = self.current_price {
                    let up = cp >= ip;
                    let mag: u64 = if up {
                        cp - ip
                    } else {
                        ip - cp
                    };
                    let pct: u128 = ((mag as u128) * 100) / (ip as u128);
                    let capped: u64 = if pct > u64::MAX as u128 {
                        u64::MAX
                    } else {
                        pct as u64
                    };
                    return Option::Some((up, capped));
                }
            }
        }
        Option::None
    }

    /// Folds event `e` at time `now` into this token's metrics.
    pub fn apply(&mut self, e: &SwapEvent, now: i64)
        ensures
            final(self)@ == token_step(old(self)@, e@, now),
    {
        let amt: u64 = match e.sol_amount {
            Option::Some(a) => a,
            Option::None => 0,
        };
        match e.kind {
            SwapKind::Buy => {
                if self.buy_count < u64::MAX {
                    self.buy_count = self.buy_count + 1;
                }
                if amt > self.largest_buy_sol {
                    self.largest_buy_sol = amt;
                }
                if amt <= u64::MAX - self.volume_24h {
                    self.volume_24h = self.volume_24h + amt;
                } else {
                    self.volume_24h = u64::MAX;
                }
            }
            SwapKind::Sell => {
                if self.sell_count < u64::MAX {
                    self.sell_count = self.sell_count + 1;
                }
                if amt > self.largest_sell_sol {
                    self.largest_sell_sol = amt;
                }
                if amt <= u64::MAX - self.volume_24h {
                    self.volume_24h = self.volume_24h + amt;
                } else {
                    self.volume_24h = u64::MAX;
                }
            }
            SwapKind::Other => {}
        }
        if let Option::Some(p) = e.price {
            self.current_price = Option::Some(p);
        }
        if let Option::Some(l) = e.liquidity {
            self.liquidity = l;
        }
        self.last_updated = now;
    }
}

impl WalletMetrics {
    /// Builds the entry for a wallet first observed through event `e`.
    pub fn fresh(e: &SwapEvent) -> (r: WalletMetrics)
        ensures
            r@ == fresh_wallet(e@),
    {
        let r = WalletMetrics {
            address: e.wallet,
            total_buys: 0,
            total_sells: 0,
            tokens_traded: Vec::new(),
            total_volume_sol: 0,
            hypothetical_pnl: 0,
            win_rate: 0,
            average_hold_time: 0,
        };
        proof {
            assert(r@.tokens_traded =~= fresh_wallet(e@).tokens_traded);
        }
        r
    }

    /// Whether this wallet has already traded `token`.
    pub fn has_traded(&self, token: &Addr) -> (r: bool)
        ensures
            r == self@.tokens_traded.contains(*token),
    {
        let mut i: usize = 0;
        while i < self.tokens_traded.len()
            invariant
                i <= self.tokens_traded.len(),
                forall|j: int| 0 <= j < i ==> self@.tokens_traded[j] != *token,
            decreases self.tokens_traded.len() - i,
        {
            if self.tokens_traded[i] == *token {
                return true;
            }
            i = i + 1;
        }
        false
    }

    /// Folds event `e` into this wallet's metrics.
    pub fn apply(&mut self, e: &SwapEvent)
        ensures
            final(self)@ == wallet_step(old(self)@, e@),
    {
        match e.kind {
            SwapKind::Buy => {
                if self.total_buys < u64::MAX {
                    self.total_buys = self.total_buys + 1;
                }
            }
            SwapKind::Sell => {
                if self.total_sells < u64::MAX {
                    self.total_sells = self.total_sells + 1;
                }
            }
            SwapKind::Other => {}
        }
        if !self.has_traded(&e.token) {
            self.tokens_traded.push(e.token);
        }
        let amt: u64 = match e.sol_amount {
            Option::Some(a) => a,
            Option::None => 0,
        };
        if amt <= u64::MAX - self.total_volume_sol {
            self.total_volume_sol = self.total_volume_sol + amt;
        } else {
            self.total_volume_sol = u64::MAX;
        }
    }
}

} // verus!

use vstd::prelude::*;
use crate::addr::Addr;
use crate::config::EngineConfig;
use crate::event::{SwapEvent, SwapEventV, SwapKind};
use crate::metrics::{TokenMetricsV, event_amount, event_liquidity_or};

verus! {

/// The suppression key of an alert: its category together with the
/// entities involved.  Two semantically distinct situations are distinct
/// values of this enum, so they can never collide, and the same situation
/// always maps to the same key.
#[derive(Clone, Copy, PartialEq, Eq, Structural, Debug)]
pub enum AlertKey {
    NewToken(Addr),
    WalletActivity(Addr, Addr),
    PriceMovement(Addr),
    BuyPressure(Addr),
    LargeTransaction(Addr),
    Recovery(Addr),
    VolumeSpike(Addr),
}

/// A detected pattern, carrying the values its rendered payload needs.
pub enum AlertIntent {
    NewToken { token: Addr, liquidity: u64, dex: String },
    WalletActivity { wallet: Addr, token: Addr, is_buy: bool, amount: u64 },
    PriceMovement { token: Addr, initial: u64, current: u64 },
    BuyPressure { token: Addr, buys: u64, sells: u64 },
    LargeTransaction { token: Addr, amount: u64 },
    Recovery { token: Addr, initial: u64, current: u64, buys: u64, sells: u64 },
}

/// The mathematical value of an [`AlertIntent`].
pub enum AlertIntentV {
    NewToken { token: Addr, liquidity: u64, dex: Seq<char> },
    WalletActivity { wallet: Addr, token: Addr, is_buy: bool, amount: u64 },
    PriceMovement { token: Addr, initial: u64, current: u64 },
    BuyPressure { token: Addr, buys: u64, sells: u64 },
    LargeTransaction { token: Addr, amount: u64 },
    Recovery { token: Addr, initial: u64, current: u64, buys: u64, sells: u64 },
}

impl View for AlertIntent {
    type V = AlertIntentV;

    open spec fn view(&self) -> AlertIntentV {
        match self {
            AlertIntent::NewToken { token, liquidity, dex } => AlertIntentV::NewToken {
                token: *token,
                liquidity: *liquidity,
                dex: dex@,
            },
            AlertIntent::WalletActivity { wallet, token, is_buy, amount } => {
                AlertIntentV::WalletActivity {
                    wallet: *wallet,
                    token: *token,
                    is_buy: *is_buy,
                    amount: *amount,
                }
            },
            AlertIntent::PriceMovement { token, initial, current } => {
                AlertIntentV::PriceMovement {
                    token: *token,
                    initial: *initial,
                    current: *current,
                }
            },
            AlertIntent::BuyPressure { token, buys, sells } => AlertIntentV::BuyPressure {
                token: *token,
                buys: *buys,
                sells: *sells,
            },
            AlertIntent::LargeTransaction { token, amount } => AlertIntentV::LargeTransaction {
                token: *token,
                amount: *amount,
            },
            AlertIntent::Recovery { token, initial, current, buys, sells } => {
                AlertIntentV::Recovery {
                    token: *token,
                    initial: *initial,
                    current: *current,
                    buys: *buys,
                    sells: *sells,
                }
            },
        }
    }
}

impl DeepView for AlertIntent {
    type V = AlertIntentV;

    open spec fn deep_view(&self) -> AlertIntentV {
        self.view()
    }
}

/// The suppression key an intent maps to.
pub open spec fn key_of(i: AlertIntentV) -> AlertKey {
    match i {
        AlertIntentV::NewToken { token, .. } => AlertKey::NewToken(token),
        AlertIntentV::WalletActivity { wallet, token, .. } => AlertKey::WalletActivity(
            wallet,
            token,
        ),
        AlertIntentV::PriceMovement { token, .. } => AlertKey::PriceMovement(token),
        AlertIntentV::BuyPressure { token, .. } => AlertKey::BuyPressure(token),
        AlertIntentV::LargeTransaction { token, .. } => AlertKey::LargeTransaction(token),
        AlertIntentV::Recovery { token, .. } => AlertKey::Recovery(token),
    }
}

/// Computes the suppression key of an intent, per [`key_of`].
pub fn intent_key(i: &AlertIntent) -> (k: AlertKey)
    ensures
        k == key_of(i@),
{
    match i {
        AlertIntent::NewToken { token, .. } => AlertKey::NewToken(*token),
        AlertIntent::WalletActivity { wallet, token, .. } => AlertKey::WalletActivity(
            *wallet,
            *token,
        ),
        AlertIntent::PriceMovement { token, .. } => AlertKey::PriceMovement(*token),
        AlertIntent::BuyPressure { token, .. } => AlertKey::BuyPressure(*token),
        AlertIntent::LargeTransaction { token, .. } => AlertKey::LargeTransaction(*token),
        AlertIntent::Recovery { token, .. } => AlertKey::Recovery(*token),
    }
}

/// A significant price movement: both prices known and the absolute change
/// exceeds the configured percentage of the initial price, evaluated
/// exactly as `|current - initial| * 100 > threshold * initial`.
pub open spec fn price_move_fires(c: EngineConfig, m: TokenMetricsV) -> bool {
    match m.initial_price {
        Option::Some(ip) => match m.current_price {
            Option::Some(cp) => {
                let diff = if cp >= ip {
                    cp - ip
                } else {
                    ip - cp
                };
                diff * 100 > c.price_change_threshold_pct * ip
            },
            Option::None => false,
        },
        Option::None => false,
    }
}

/// High buy pressure: both counters positive and
/// `buy_count > threshold * sell_count`, the exact form of
/// `buy_count / sell_count > threshold`.
pub open spec fn buy_pressure_fires(c: EngineConfig, m: TokenMetricsV) -> bool {
    m.buy_count > 0 && m.sell_count > 0 && m.buy_count > c.buy_sell_ratio_threshold * m.sell_count
}

/// A whale transaction: the triggering event carries a SOL amount above
/// the configured lamport threshold.
pub open spec fn large_tx_fires(c: EngineConfig, e: SwapEventV) -> bool {
    match e.sol_amount {
        Option::Some(a) => a > c.large_tx_lamports,
        Option::None => false,
    }
}

/// A potential recovery: both prices known, the drop from the initial
/// price exceeds the configured percentage (exactly:
/// `(initial - current) * 100 > threshold * initial`), and buys outnumber
/// sells.
pub open spec fn recovery_fires(c: EngineConfig, m: TokenMetricsV) -> bool {
    match m.initial_price {
        Option::Some(ip) => match m.current_price {
            Option::Some(cp) => (ip - cp) * 100 > c.recovery_drop_pct * ip && m.buy_count
                > m.sell_count,
            Option::None => false,
        },
        Option::None => false,
    }
}

/// Everything the detector emits for one post-update snapshot `m` of the
/// event's token, the event `e` itself, and the store's verdict `created`,
/// in this fixed order: new token, wallet activity, price movement, buy
/// pressure, large transaction, recovery.  Each rule is emitted only when
/// its category is enabled.
pub open spec fn detect_spec(
    c: EngineConfig,
    m: TokenMetricsV,
    e: SwapEventV,
    created: bool,
) -> Seq<AlertIntentV> {
    let new_token: Seq<AlertIntentV> = if created && c.alert_new_tokens {
        seq![
            AlertIntentV::NewToken {
                token: e.token,
                liquidity: event_liquidity_or(e, 0),
                dex: e.dex_name,
            },
        ]
    } else {
        Seq::empty()
    };
    let wallet: Seq<AlertIntentV> = if c.alert_wallet_activity && (e.kind == SwapKind::Buy
        || e.kind == SwapKind::Sell) {
        seq![
            AlertIntentV::WalletActivity {
                wallet: e.wallet,
                token: e.token,
                is_buy: e.kind == SwapKind::Buy,
                amount: event_amount(e),
            },
        ]
    } else {
        Seq::empty()
    };
    let price: Seq<AlertIntentV> = if c.alert_price_movements && price_move_fires(c, m) {
        seq![
            AlertIntentV::PriceMovement {
                token: m.address,
                initial: m.initial_price->Some_0,
                current: m.current_price->Some_0,
            },
        ]
    } else {
        Seq::empty()
    };
    let pressure: Seq<AlertIntentV> = if c.alert_sniper_opportunities && buy_pressure_fires(
        c,
        m,
    ) {
        seq![
            AlertIntentV::BuyPressure { token: m.address, buys: m.buy_count, sells: m.sell_count },
        ]
    } else {
        Seq::empty()
    };
    let large: Seq<AlertIntentV> = if c.alert_sniper_opportunities && large_tx_fires(c, e) {
        seq![AlertIntentV::LargeTransaction { token: m.address, amount: e.sol_amount->Some_0 }]
    } else {
        Seq::empty()
    };
    let recovery: Seq<AlertIntentV> = if c.alert_sniper_opportunities && recovery_fires(c, m) {
        seq![
            AlertIntentV::Recovery {
                token: m.address,
                initial: m.initial_price->Some_0,
                current: m.current_price->Some_0,
                buys: m.buy_count,
                sells: m.sell_count,
            },
        ]
    } else {
        Seq::empty()
    };
    new_token + wallet + price + pressure + large + recovery
}

/// Multiplying within bounds stays within the product of the bounds.
pub proof fn lemma_mul_le(a: u128, b: u128, c: u128, d: u128)
    requires
        a <= c,
        b <= d,
    ensures
        a * b <= c * d,
{
    assert(a * b <= c * d) by (nonlinear_arith)
        requires
            a <= c,
            b <= d,
    ;
}

/// Clones a string.
fn clone_string(s: &String) -> (r: String)
    ensures
        r@ == s@,
{
    s.clone()
}

/// Evaluates the price movement rule on a snapshot.
fn price_move_check(c: &EngineConfig, m: &crate::metrics::TokenMetrics) -> (b: bool)
    ensures
        b == price_move_fires(*c, m@),
{
    if let Option::Some(ip) = m.initial_price {
        if let Option::Some(cp) = m.current_price {
            let diff: u64 = if cp >= ip {
                cp - ip
            } else {
                ip - cp
            };
            proof {
                lemma_mul_le(
                    c.price_change_threshold_pct as u128,
                    ip as u128,
                    u32::MAX as u128,
                    u64::MAX as u128,
                );
            }
            return (diff as u128) * 100 > (c.price_change_threshold_pct as u128) * (ip as u128);
        }
    }
    false
}

/// Evaluates the buy pressure rule on a snapshot.
fn buy_pressure_check(c: &EngineConfig, m: &crate::metrics::TokenMetrics) -> (b: bool)
    ensures
        b == buy_pressure_fires(*c, m@),
{
    proof {
        lemma_mul_le(
            c.buy_sell_ratio_threshold as u128,
            m.sell_count as u128,
            u32::MAX as u128,
            u64::MAX as u128,
        );
    }
    m.buy_count > 0 && m.sell_count > 0 && (m.buy_count as u128) > (
    c.buy_sell_ratio_threshold as u128) * (m.sell_count as u128)
}

/// Evaluates the large transaction rule on an event.
fn large_tx_check(c: &EngineConfig, e: &SwapEvent) -> (b: bool)
    ensures
        b == large_tx_fires(*c, e@),
{
    match e.sol_amount {
        Option::Some(a) => a > c.large_tx_lamports,
        Option::None => false,
    }
}

/// Evaluates the recovery rule on a snapshot.
fn recovery_check(c: &EngineConfig, m: &crate::metrics::TokenMetrics) -> (b: bool)
    ensures
        b == recovery_fires(*c, m@),
{
    if let Option::Some(ip) = m.initial_price {
        if let Option::Some(cp) = m.current_price {
            proof {
                lemma_mul_le(
                    c.recovery_drop_pct as u128,
                    ip as u128,
                    u32::MAX as u128,
                    u64::MAX as u128,
                );
            }
            return cp < ip && ((ip - cp) as u128) * 100 > (c.recovery_drop_pct as u128) * (
            ip as u128) && m.buy_count > m.sell_count;
        }
    }
    false
}

/// Evaluates every detection rule on the post-update snapshot `m` of the
/// event's token and returns the triggered intents in the fixed order of
/// [`detect_spec`].
#[verifier::rlimit(100)]
pub fn detect(c: &EngineConfig, m: &crate::metrics::TokenMetrics, e: &SwapEvent, created: bool) -> (r:
    Vec<AlertIntent>)
    ensures
        r.deep_view() == detect_spec(*c, m@, e@, created),
{
    let mut r: Vec<AlertIntent> = Vec::new();

    if created && c.alert_new_tokens {
        let liq: u64 = match e.liquidity {
            Option::Some(l) => l,
            Option::None => 0,
        };
        r.push(
            AlertIntent::NewToken { token: e.token, liquidity: liq, dex: clone_string(&e.dex_name) },
        );
    }

    let is_buy = match e.kind {
        SwapKind::Buy => true,
        _ => false,
    };
    let is_sell = match e.kind {
        SwapKind::Sell => true,
        _ => false,
    };
    if c.alert_wallet_activity && (is_buy || is_sell) {
        let amount: u64 = match e.sol_amount {
            Option::Some(a) => a,
            Option::None => 0,
        };
        r.push(AlertIntent::WalletActivity { wallet: e.wallet, token: e.token, is_buy, amount });
    }

    if c.alert_price_movements && price_move_check(c, m) {
        let ip = match m.initial_price {
            Option::Some(p) => p,
            Option::None => 0,
        };
        let cp = match m.current_price {
            Option::Some(p) => p,
            Option::None => 0,
        };
        r.push(AlertIntent::PriceMovement { token: m.address, initial: ip, current: cp });
    }

    if c.alert_sniper_opportunities {
        if buy_pressure_check(c, m) {
            r.push(
                AlertIntent::BuyPressure {
                    token: m.address,
                    buys: m.buy_count,
                    sells: m.sell_count,
                },
            );
        }
        if large_tx_check(c, e) {
            let amount = match e.sol_amount {
                Option::Some(a) => a,
                Option::None => 0,
            };
            r.push(AlertIntent::LargeTransaction { token: m.address, amount });
        }
        if recovery_check(c, m) {
            let ip = match m.initial_price {
                Option::Some(p) => p,
                Option::None => 0,
            };
            let cp = match m.current_price {
                Option::Some(p) => p,
                Option::None => 0,
            };
            r.push(
                AlertIntent::Recovery {
                    token: m.address,
                    initial: ip,
                    current: cp,
                    buys: m.buy_count,
                    sells: m.sell_count,
                },
            );
        }
    }

    proof {
        assert(r.deep_view() =~= detect_spec(*c, m@, e@, created));
    }
    r
}

} // verus!

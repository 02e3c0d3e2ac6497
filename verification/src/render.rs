use vstd::prelude::*;
use crate::addr::Addr;
use crate::detect::{AlertIntent, AlertIntentV};

verus! {

/// The decimal digit character for a value below ten.
pub open spec fn dec_digit(d: int) -> char {
    if d == 0 {
        '0'
    } else if d == 1 {
        '1'
    } else if d == 2 {
        '2'
    } else if d == 3 {
        '3'
    } else if d == 4 {
        '4'
    } else if d == 5 {
        '5'
    } else if d == 6 {
        '6'
    } else if d == 7 {
        '7'
    } else if d == 8 {
        '8'
    } else {
        '9'
    }
}

/// The decimal rendering of a non-negative integer, most significant digit
/// first, without leading zeroes (a lone zero for zero itself).
pub open spec fn dec_str(n: int) -> Seq<char>
    decreases n,
{
    if n < 10 {
        seq![dec_digit(n)]
    } else {
        dec_str(n / 10).push(dec_digit(n % 10))
    }
}

/// The single-character string for one decimal digit.
fn digit_str(d: u64) -> (r: &'static str)
    requires
        d < 10,
    ensures
        r@ == seq![dec_digit(d as int)],
{
    if d == 0 {
        proof {
            reveal_strlit("0");
        }
        "0"
    } else if d == 1 {
        proof {
            reveal_strlit("1");
        }
        "1"
    } else if d == 2 {
        proof {
            reveal_strlit("2");
        }
        "2"
    } else if d == 3 {
        proof {
            reveal_strlit("3");
        }
        "3"
    } else if d == 4 {
        proof {
            reveal_strlit("4");
        }
        "4"
    } else if d == 5 {
        proof {
            reveal_strlit("5");
        }
        "5"
    } else if d == 6 {
        proof {
            reveal_strlit("6");
        }
        "6"
    } else if d == 7 {
        proof {
            reveal_strlit("7");
        }
        "7"
    } else if d == 8 {
        proof {
            reveal_strlit("8");
        }
        "8"
    } else {
        proof {
            reveal_strlit("9");
        }
        "9"
    }
}

/// Renders a 128-bit value in decimal.
pub fn u128_string(n: u128) -> (r: String)
    ensures
        r@ == dec_str(n as int),
    decreases n,
{
    if n < 10 {
        let r = String::from_str(digit_str(n as u64));
        proof {
            assert(r@ =~= dec_str(n as int));
        }
        r
    } else {
        let mut r = u128_string(n / 10);
        r.append(digit_str((n % 10) as u64));
        proof {
            assert(r@ =~= dec_str(n as int));
        }
        r
    }
}

/// Renders a 64-bit value in decimal.
pub fn u64_string(n: u64) -> (r: String)
    ensures
        r@ == dec_str(n as int),
{
    u128_string(n as u128)
}

/// The textual form of an address: its four words in decimal, separated by
/// hyphens.
pub open spec fn addr_str(a: Addr) -> Seq<char> {
    dec_str(a.w0 as int) + "-"@ + dec_str(a.w1 as int) + "-"@ + dec_str(a.w2 as int) + "-"@
        + dec_str(a.w3 as int)
}

/// Renders an address as its four words in decimal, separated by hyphens.
pub fn addr_string(a: &Addr) -> (r: String)
    ensures
        r@ == addr_str(*a),
{
    let mut r = u64_string(a.w0);
    r.append("-");
    let s1 = u64_string(a.w1);
    r.append(s1.as_str());
    r.append("-");
    let s2 = u64_string(a.w2);
    r.append(s2.as_str());
    r.append("-");
    let s3 = u64_string(a.w3);
    r.append(s3.as_str());
    proof {
        assert(r@ =~= addr_str(*a));
    }
    r
}

/// The payload of a volume spike alert.
pub open spec fn volume_spike_text(token: Addr, current: u64, average: u64) -> Seq<char> {
    "VOLUME SPIKE | token "@ + addr_str(token) + " | current lamports "@ + dec_str(current as int)
        + " | average lamports "@ + dec_str(average as int)
}

/// Renders the payload of a volume spike alert, per [`volume_spike_text`].
pub fn render_volume_spike(token: &Addr, current: u64, average: u64) -> (r: String)
    ensures
        r@ == volume_spike_text(*token, current, average),
{
    let mut t = String::from_str("VOLUME SPIKE | token ");
    let a = addr_string(token);
    t.append(a.as_str());
    t.append(" | current lamports ");
    let c = u64_string(current);
    t.append(c.as_str());
    t.append(" | average lamports ");
    let v = u64_string(average);
    t.append(v.as_str());
    proof {
        assert(t@ =~= volume_spike_text(*token, current, average));
    }
    t
}

/// The text of a daily summary over three running totals.
pub open spec fn daily_summary_text(
    tokens_monitored: u64,
    wallet_activities: u64,
    significant_movements: u64,
) -> Seq<char> {
    "DAILY SUMMARY\n"@ + "tokens monitored: "@ + dec_str(tokens_monitored as int) + "\n"@
        + "wallet activities: "@ + dec_str(wallet_activities as int) + "\n"@
        + "significant movements: "@ + dec_str(significant_movements as int) + "\n"@
}

/// Renders the daily summary, per [`daily_summary_text`].
pub fn daily_summary(
    tokens_monitored: u64,
    wallet_activities: u64,
    significant_movements: u64,
) -> (r: String)
    ensures
        r@ == daily_summary_text(tokens_monitored, wallet_activities, significant_movements),
{
    let mut t = String::from_str("DAILY SUMMARY\n");
    t.append("tokens monitored: ");
    let a = u64_string(tokens_monitored);
    t.append(a.as_str());
    t.append("\n");
    t.append("wallet activities: ");
    let b = u64_string(wallet_activities);
    t.append(b.as_str());
    t.append("\n");
    t.append("significant movements: ");
    let c = u64_string(significant_movements);
    t.append(c.as_str());
    t.append("\n");
    proof {
        assert(t@ =~= daily_summary_text(
            tokens_monitored,
            wallet_activities,
            significant_movements,
        ));
    }
    t
}

/// The risk note appended to every payload when the configuration asks
/// for risk warnings.
pub open spec fn risk_note() -> Seq<char> {
    " | note: trading involves substantial risk; informational only"@
}

/// The rendered payload of an intent: a category tag followed by the
/// entities and quantities involved, and the risk note when asked for.
pub open spec fn intent_text(i: AlertIntentV, risk: bool) -> Seq<char> {
    let base = match i {
        AlertIntentV::NewToken { token, liquidity, dex } => "NEW TOKEN | token "@ + addr_str(token)
            + " | liquidity lamports "@ + dec_str(liquidity as int) + " | dex "@ + dex,
        AlertIntentV::WalletActivity { wallet, token, is_buy, amount } => "WALLET "@ + (if is_buy {
            "BUY"@
        } else {
            "SELL"@
        }) + " | wallet "@ + addr_str(wallet) + " | token "@ + addr_str(token)
            + " | amount lamports "@ + dec_str(amount as int),
        AlertIntentV::PriceMovement { token, initial, current } => "PRICE MOVEMENT | token "@
            + addr_str(token) + " | initial "@ + dec_str(initial as int) + " | current "@ + dec_str(
            current as int,
        ),
        AlertIntentV::BuyPressure { token, buys, sells } => "HIGH BUY PRESSURE | token "@
            + addr_str(token) + " | buys "@ + dec_str(buys as int) + " | sells "@ + dec_str(
            sells as int,
        ),
        AlertIntentV::LargeTransaction { token, amount } => "LARGE TRANSACTION | token "@
            + addr_str(token) + " | amount lamports "@ + dec_str(amount as int),
        AlertIntentV::Recovery { token, initial, current, buys, sells } => {
            "POTENTIAL RECOVERY | token "@ + addr_str(token) + " | initial "@ + dec_str(
                initial as int,
            ) + " | current "@ + dec_str(current as int) + " | buys "@ + dec_str(buys as int)
                + " | sells "@ + dec_str(sells as int)
        },
    };
    if risk {
        base + risk_note()
    } else {
        base
    }
}

/// Renders the payload of one intent, per [`intent_text`].
pub fn render_intent(i: &AlertIntent, risk: bool) -> (r: String)
    ensures
        r@ == intent_text(i@, risk),
{
    let mut r: String = match i {
        AlertIntent::NewToken { token, liquidity, dex } => {
            let mut t = String::from_str("NEW TOKEN | token ");
            let a = addr_string(token);
            t.append(a.as_str());
            t.append(" | liquidity lamports ");
            let l = u64_string(*liquidity);
            t.append(l.as_str());
            t.append(" | dex ");
            t.append(dex.as_str());
            t
        },
        AlertIntent::WalletActivity { wallet, token, is_buy, amount } => {
            let mut t = String::from_str("WALLET ");
            if *is_buy {
                t.append("BUY");
            } else {
                t.append("SELL");
            }
            t.append(" | wallet ");
            let w = addr_string(wallet);
            t.append(w.as_str());
            t.append(" | token ");
            let a = addr_string(token);
            t.append(a.as_str());
            t.append(" | amount lamports ");
            let m = u64_string(*amount);
            t.append(m.as_str());
            t
        },
        AlertIntent::PriceMovement { token, initial, current } => {
            let mut t = String::from_str("PRICE MOVEMENT | token ");
            let a = addr_string(token);
            t.append(a.as_str());
            t.append(" | initial ");
            let ip = u64_string(*initial);
            t.append(ip.as_str());
            t.append(" | current ");
            let cp = u64_string(*current);
            t.append(cp.as_str());
            t
        },
        AlertIntent::BuyPressure { token, buys, sells } => {
            let mut t = String::from_str("HIGH BUY PRESSURE | token ");
            let a = addr_string(token);
            t.append(a.as_str());
            t.append(" | buys ");
            let b = u64_string(*buys);
            t.append(b.as_str());
            t.append(" | sells ");
            let sl = u64_string(*sells);
            t.append(sl.as_str());
            t
        },
        AlertIntent::LargeTransaction { token, amount } => {
            let mut t = String::from_str("LARGE TRANSACTION | token ");
            let a = addr_string(token);
            t.append(a.as_str());
            t.append(" | amount lamports ");
            let m = u64_string(*amount);
            t.append(m.as_str());
            t
        },
        AlertIntent::Recovery { token, initial, current, buys, sells } => {
            let mut t = String::from_str("POTENTIAL RECOVERY | token ");
            let a = addr_string(token);
            t.append(a.as_str());
            t.append(" | initial ");
            let ip = u64_string(*initial);
            t.append(ip.as_str());
            t.append(" | current ");
            let cp = u64_string(*current);
            t.append(cp.as_str());
            t.append(" | buys ");
            let b = u64_string(*buys);
            t.append(b.as_str());
            t.append(" | sells ");
            let sl = u64_string(*sells);
            t.append(sl.as_str());
            t
        },
    };
    if risk {
        r.append(" | note: trading involves substantial risk; informational only");
    }
    proof {
        assert(r@ =~= intent_text(i@, risk));
    }
    r
}

} // verus!

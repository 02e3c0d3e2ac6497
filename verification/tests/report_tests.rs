use swap_monitor::addr::Addr;
use swap_monitor::config::EngineConfig;
use swap_monitor::engine::Engine;
use swap_monitor::event::{SwapEvent, SwapKind};
use swap_monitor::render::{addr_string, u128_string, u64_string};

fn addr(n: u64) -> Addr {
    Addr { w0: n, w1: 0, w2: 0, w3: 0 }
}

fn named_event(
    token: Addr,
    wallet: Addr,
    kind: SwapKind,
    lamports: Option<u64>,
    price: Option<u64>,
    name: &str,
) -> SwapEvent {
    SwapEvent {
        token,
        wallet,
        kind,
        sol_amount: lamports,
        price,
        liquidity: None,
        token_name: Some(String::from(name)),
        token_symbol: None,
        dex_name: String::from("testdex"),
    }
}

fn quiet_config() -> EngineConfig {
    let mut c = EngineConfig::default();
    c.include_risk_warnings = false;
    c
}

#[test]
fn decimal_rendering_is_exact() {
    assert_eq!(u64_string(0), "0");
    assert_eq!(u64_string(7), "7");
    assert_eq!(u64_string(1_234_567_890), "1234567890");
    assert_eq!(u64_string(u64::MAX), "18446744073709551615");
    assert_eq!(u128_string(u128::MAX), "340282366920938463463374607431768211455");
    assert_eq!(addr_string(&Addr { w0: 1, w1: 22, w2: 333, w3: 0 }), "1-22-333-0");
}

#[test]
fn empty_engine_reports_zeroes() {
    let engine = Engine::new(quiet_config());
    assert_eq!(
        engine.generate_report(),
        "MONITORING REPORT\n\
         tokens monitored: 0\n\
         total volume lamports: 0\n\
         top gainers:\n\
         wallets tracked: 0\n\
         most active wallets:\n"
    );
}

#[test]
fn report_ranks_gainers_and_wallets() {
    let mut engine = Engine::new(quiet_config());
    let w1 = addr(101);
    let w2 = addr(102);
    // token A: 100 -> 150, +50 percent
    engine.process_event(&named_event(addr(1), w1, SwapKind::Buy, Some(10), Some(100), "AAA"), 0);
    engine.process_event(&named_event(addr(1), w1, SwapKind::Buy, Some(10), Some(150), "AAA"), 1);
    // token B: 100 -> 90, -10 percent
    engine.process_event(&named_event(addr(2), w2, SwapKind::Buy, Some(10), Some(100), "BBB"), 2);
    engine.process_event(&named_event(addr(2), w1, SwapKind::Sell, Some(10), Some(90), "BBB"), 3);
    // token C: no price data, excluded from the gainers table
    engine.process_event(&named_event(addr(3), w2, SwapKind::Buy, Some(5), None, "CCC"), 4);
    // w1 made 3 trades, w2 made 2
    let report = engine.generate_report();
    assert_eq!(
        report,
        "MONITORING REPORT\n\
         tokens monitored: 3\n\
         total volume lamports: 45\n\
         top gainers:\n  \
           AAA | change pct +50\n  \
           BBB | change pct -10\n\
         wallets tracked: 2\n\
         most active wallets:\n  \
           101-0-0-0 | trades 3\n  \
           102-0-0-0 | trades 2\n"
    );
}

#[test]
fn report_ties_keep_first_seen_order() {
    let mut engine = Engine::new(quiet_config());
    // two tokens with identical gains: the earlier one stays first
    engine.process_event(&named_event(addr(5), addr(9), SwapKind::Buy, None, Some(10), "FIRST"), 0);
    engine.process_event(&named_event(addr(6), addr(9), SwapKind::Buy, None, Some(10), "SECOND"), 1);
    engine.process_event(&named_event(addr(5), addr(9), SwapKind::Buy, None, Some(20), "FIRST"), 2);
    engine.process_event(&named_event(addr(6), addr(9), SwapKind::Buy, None, Some(20), "SECOND"), 3);
    let report = engine.generate_report();
    let first = report.find("FIRST").unwrap();
    let second = report.find("SECOND").unwrap();
    assert!(first < second);
}

#[test]
fn report_truncates_to_top_five_gainers() {
    let mut engine = Engine::new(quiet_config());
    for i in 0..7u64 {
        let t = addr(10 + i);
        let name = format!("T{}", i);
        engine.process_event(&named_event(t, addr(9), SwapKind::Buy, None, Some(100), &name), 0);
        // gains 0, 10, 20, ... percent: later tokens gain more
        engine.process_event(
            &named_event(t, addr(9), SwapKind::Buy, None, Some(100 + 10 * i), &name),
            1,
        );
    }
    let report = engine.generate_report();
    // the two smallest gainers fall outside the top five
    assert!(report.contains("T6"));
    assert!(report.contains("T2"));
    assert!(!report.contains("T1 "));
    assert!(!report.contains("T0 "));
    let gainer_lines = report.lines().filter(|l| l.contains("change pct")).count();
    assert_eq!(gainer_lines, 5);
}

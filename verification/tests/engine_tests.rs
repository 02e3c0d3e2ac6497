use swap_monitor::addr::Addr;
use swap_monitor::config::{ConfigError, EngineConfig, RawConfig};
use swap_monitor::detect::AlertKey;
use swap_monitor::engine::{Alert, Engine};
use swap_monitor::event::{SwapEvent, SwapKind};
use swap_monitor::ratelimit::RateLimiter;

fn addr(n: u64) -> Addr {
    Addr { w0: n, w1: 0, w2: 0, w3: 0 }
}

fn event(token: Addr, wallet: Addr, kind: SwapKind, lamports: Option<u64>, price: Option<u64>) -> SwapEvent {
    SwapEvent {
        token,
        wallet,
        kind,
        sol_amount: lamports,
        price,
        liquidity: None,
        token_name: None,
        token_symbol: None,
        dex_name: String::from("testdex"),
    }
}

fn quiet_config() -> EngineConfig {
    let mut c = EngineConfig::default();
    c.include_risk_warnings = false;
    c
}

fn has_key(alerts: &[Alert], key: &AlertKey) -> bool {
    alerts.iter().any(|a| a.key == *key)
}

#[test]
fn new_token_alert_fires_once_per_address() {
    let mut engine = Engine::new(quiet_config());
    let t = addr(1);
    let w = addr(2);
    let a1 = engine.process_event(&event(t, w, SwapKind::Buy, Some(1), None), 0);
    assert!(has_key(&a1, &AlertKey::NewToken(t)));
    let a2 = engine.process_event(&event(t, w, SwapKind::Buy, Some(1), None), 1000);
    assert!(!has_key(&a2, &AlertKey::NewToken(t)));
    // a different token gets its own new-token alert
    let a3 = engine.process_event(&event(addr(9), w, SwapKind::Buy, Some(1), None), 2000);
    assert!(has_key(&a3, &AlertKey::NewToken(addr(9))));
}

#[test]
fn buy_and_sell_counts_match_events() {
    let mut engine = Engine::new(quiet_config());
    let t = addr(1);
    let w = addr(2);
    engine.process_event(&event(t, w, SwapKind::Buy, Some(5), None), 0);
    engine.process_event(&event(t, w, SwapKind::Sell, Some(5), None), 1);
    engine.process_event(&event(t, w, SwapKind::Other, Some(5), None), 2);
    engine.process_event(&event(t, w, SwapKind::Buy, Some(5), None), 3);
    let (tokens, _) = engine.snapshot();
    assert_eq!(tokens.len(), 1);
    assert_eq!(tokens[0].buy_count, 2);
    assert_eq!(tokens[0].sell_count, 1);
    assert_eq!(tokens[0].buy_count + tokens[0].sell_count, 3);
}

#[test]
fn initial_price_never_changes_once_set() {
    let mut engine = Engine::new(quiet_config());
    let t = addr(1);
    let w = addr(2);
    engine.process_event(&event(t, w, SwapKind::Buy, Some(1), Some(100)), 0);
    engine.process_event(&event(t, w, SwapKind::Buy, Some(1), Some(500)), 1);
    engine.process_event(&event(t, w, SwapKind::Sell, Some(1), Some(7)), 2);
    let (tokens, _) = engine.snapshot();
    assert_eq!(tokens[0].initial_price, Some(100));
    assert_eq!(tokens[0].current_price, Some(7));
}

#[test]
fn current_price_keeps_last_known_value() {
    let mut engine = Engine::new(quiet_config());
    let t = addr(1);
    let w = addr(2);
    engine.process_event(&event(t, w, SwapKind::Buy, Some(1), Some(100)), 0);
    engine.process_event(&event(t, w, SwapKind::Buy, Some(1), None), 1);
    let (tokens, _) = engine.snapshot();
    assert_eq!(tokens[0].current_price, Some(100));
}

#[test]
fn price_movement_respects_rate_limit_window() {
    let mut engine = Engine::new(quiet_config());
    let t = addr(1);
    let w = addr(2);
    // first observation sets the initial price; no movement yet
    let a0 = engine.process_event(&event(t, w, SwapKind::Buy, Some(1), Some(100)), 0);
    assert!(!has_key(&a0, &AlertKey::PriceMovement(t)));
    // 25 percent gain: above the 20 percent threshold
    let a1 = engine.process_event(&event(t, w, SwapKind::Buy, Some(1), Some(125)), 1000);
    assert!(has_key(&a1, &AlertKey::PriceMovement(t)));
    // still above threshold, but within the 30 s window: suppressed
    let a2 = engine.process_event(&event(t, w, SwapKind::Buy, Some(1), Some(126)), 1010);
    assert!(!has_key(&a2, &AlertKey::PriceMovement(t)));
    // window elapsed: fires again
    let a3 = engine.process_event(&event(t, w, SwapKind::Buy, Some(1), Some(150)), 1040);
    assert!(has_key(&a3, &AlertKey::PriceMovement(t)));
}

#[test]
fn price_movement_needs_threshold_crossed() {
    let mut engine = Engine::new(quiet_config());
    let t = addr(1);
    let w = addr(2);
    engine.process_event(&event(t, w, SwapKind::Buy, Some(1), Some(100)), 0);
    // exactly 20 percent is not "more than 20 percent"
    let a = engine.process_event(&event(t, w, SwapKind::Buy, Some(1), Some(120)), 1000);
    assert!(!has_key(&a, &AlertKey::PriceMovement(t)));
    let b = engine.process_event(&event(t, w, SwapKind::Buy, Some(1), Some(121)), 2000);
    assert!(has_key(&b, &AlertKey::PriceMovement(t)));
}

#[test]
fn buy_pressure_fires_above_ratio_three() {
    let mut engine = Engine::new(quiet_config());
    let t = addr(1);
    let w = addr(2);
    for i in 0..4 {
        engine.process_event(&event(t, w, SwapKind::Buy, Some(1), None), i);
    }
    // 4 buys and 1 sell: ratio 4 > 3
    let a = engine.process_event(&event(t, w, SwapKind::Sell, Some(1), None), 10);
    assert!(has_key(&a, &AlertKey::BuyPressure(t)));
}

#[test]
fn buy_pressure_silent_at_ratio_two() {
    let mut engine = Engine::new(quiet_config());
    let t = addr(1);
    let w = addr(2);
    engine.process_event(&event(t, w, SwapKind::Buy, Some(1), None), 0);
    engine.process_event(&event(t, w, SwapKind::Buy, Some(1), None), 1);
    // 2 buys and 1 sell: ratio 2, not above 3
    let a = engine.process_event(&event(t, w, SwapKind::Sell, Some(1), None), 2);
    assert!(!has_key(&a, &AlertKey::BuyPressure(t)));
}

#[test]
fn large_transaction_threshold_is_ten_sol() {
    let mut engine = Engine::new(quiet_config());
    let t = addr(1);
    let w = addr(2);
    // 15 SOL: above the 10 SOL default threshold
    let a = engine.process_event(&event(t, w, SwapKind::Buy, Some(15_000_000_000), None), 0);
    assert!(has_key(&a, &AlertKey::LargeTransaction(t)));
    // 5 SOL: below it
    let b = engine.process_event(&event(t, w, SwapKind::Buy, Some(5_000_000_000), None), 1000);
    assert!(!has_key(&b, &AlertKey::LargeTransaction(t)));
}

#[test]
fn recovery_needs_drop_and_buy_majority() {
    let mut engine = Engine::new(quiet_config());
    let t = addr(1);
    let w = addr(2);
    engine.process_event(&event(t, w, SwapKind::Buy, Some(1), Some(1000)), 0);
    engine.process_event(&event(t, w, SwapKind::Buy, Some(1), None), 1);
    // down 40 percent with 3 buys vs 0 sells
    let a = engine.process_event(&event(t, w, SwapKind::Buy, Some(1), Some(600)), 2);
    assert!(has_key(&a, &AlertKey::Recovery(t)));
    // a shallow dip does not qualify
    let mut engine2 = Engine::new(quiet_config());
    engine2.process_event(&event(t, w, SwapKind::Buy, Some(1), Some(1000)), 0);
    let b = engine2.process_event(&event(t, w, SwapKind::Buy, Some(1), Some(900)), 1);
    assert!(!has_key(&b, &AlertKey::Recovery(t)));
}

#[test]
fn wallet_counts_tokens_without_duplicates() {
    let mut engine = Engine::new(quiet_config());
    let t = addr(1);
    let w = addr(2);
    engine.process_event(&event(t, w, SwapKind::Buy, Some(1), None), 0);
    engine.process_event(&event(t, w, SwapKind::Buy, Some(1), None), 1);
    let (_, wallets) = engine.snapshot();
    assert_eq!(wallets.len(), 1);
    assert_eq!(wallets[0].total_buys, 2);
    assert_eq!(wallets[0].total_sells, 0);
    assert_eq!(wallets[0].tokens_traded.len(), 1);
    assert_eq!(wallets[0].tokens_traded[0], t);
}

#[test]
fn wallet_volume_sums_every_event() {
    let mut engine = Engine::new(quiet_config());
    let t = addr(1);
    let w = addr(2);
    engine.process_event(&event(t, w, SwapKind::Buy, Some(100), None), 0);
    engine.process_event(&event(t, w, SwapKind::Sell, Some(50), None), 1);
    engine.process_event(&event(t, w, SwapKind::Other, Some(25), None), 2);
    let (_, wallets) = engine.snapshot();
    assert_eq!(wallets[0].total_volume_sol, 175);
}

#[test]
fn snapshot_is_idempotent_without_updates() {
    let mut engine = Engine::new(quiet_config());
    let t = addr(1);
    let w = addr(2);
    engine.process_event(&event(t, w, SwapKind::Buy, Some(7), Some(3)), 5);
    let (t1, w1) = engine.snapshot();
    let (t2, w2) = engine.snapshot();
    assert_eq!(t1.len(), t2.len());
    assert_eq!(w1.len(), w2.len());
    for (a, b) in t1.iter().zip(t2.iter()) {
        assert_eq!(a.address, b.address);
        assert_eq!(a.name, b.name);
        assert_eq!(a.initial_price, b.initial_price);
        assert_eq!(a.current_price, b.current_price);
        assert_eq!(a.volume_24h, b.volume_24h);
        assert_eq!(a.buy_count, b.buy_count);
        assert_eq!(a.sell_count, b.sell_count);
        assert_eq!(a.largest_buy_sol, b.largest_buy_sol);
        assert_eq!(a.largest_sell_sol, b.largest_sell_sol);
        assert_eq!(a.first_seen, b.first_seen);
        assert_eq!(a.last_updated, b.last_updated);
    }
    for (a, b) in w1.iter().zip(w2.iter()) {
        assert_eq!(a.address, b.address);
        assert_eq!(a.total_buys, b.total_buys);
        assert_eq!(a.total_sells, b.total_sells);
        assert_eq!(a.tokens_traded, b.tokens_traded);
        assert_eq!(a.total_volume_sol, b.total_volume_sol);
    }
}

#[test]
fn largest_buy_and_sell_track_maxima() {
    let mut engine = Engine::new(quiet_config());
    let t = addr(1);
    let w = addr(2);
    engine.process_event(&event(t, w, SwapKind::Buy, Some(100), None), 0);
    engine.process_event(&event(t, w, SwapKind::Buy, Some(40), None), 1);
    engine.process_event(&event(t, w, SwapKind::Sell, Some(70), None), 2);
    let (tokens, _) = engine.snapshot();
    assert_eq!(tokens[0].largest_buy_sol, 100);
    assert_eq!(tokens[0].largest_sell_sol, 70);
    assert_eq!(tokens[0].volume_24h, 210);
}

#[test]
fn rate_limiter_allows_unseen_key_immediately() {
    let mut rl = RateLimiter::new(30);
    let k = AlertKey::NewToken(addr(1));
    assert!(rl.allow(k, 100));
}

#[test]
fn rate_limiter_suppresses_within_window() {
    let mut rl = RateLimiter::new(30);
    let k = AlertKey::PriceMovement(addr(1));
    assert!(rl.allow(k, 100));
    assert!(!rl.allow(k, 129));
    assert!(rl.allow(k, 130));
    // the suppressed call did not refresh the timestamp
    assert!(!rl.allow(k, 159));
    assert!(rl.allow(k, 160));
}

#[test]
fn rate_limiter_keys_are_independent() {
    let mut rl = RateLimiter::new(30);
    let k1 = AlertKey::PriceMovement(addr(1));
    let k2 = AlertKey::PriceMovement(addr(2));
    let k3 = AlertKey::BuyPressure(addr(1));
    assert!(rl.allow(k1, 100));
    assert!(rl.allow(k2, 100));
    assert!(rl.allow(k3, 100));
    assert!(!rl.allow(k1, 101));
}

#[test]
fn config_rejects_negative_settings() {
    let mut raw = default_raw();
    raw.buy_sell_ratio_threshold = -1;
    assert_eq!(EngineConfig::validate(&raw), Err(ConfigError::NegativeThreshold));
    let mut raw2 = default_raw();
    raw2.min_alert_interval_seconds = -5;
    assert_eq!(EngineConfig::validate(&raw2), Err(ConfigError::NegativeThreshold));
}

#[test]
fn config_rejects_oversized_percentages() {
    let mut raw = default_raw();
    raw.price_change_threshold_pct = (u32::MAX as i64) + 1;
    assert_eq!(EngineConfig::validate(&raw), Err(ConfigError::ThresholdTooLarge));
}

#[test]
fn config_accepts_defaults() {
    let raw = default_raw();
    let c = EngineConfig::validate(&raw).unwrap();
    assert_eq!(c, EngineConfig::default());
}

fn default_raw() -> RawConfig {
    RawConfig {
        price_change_threshold_pct: 20,
        buy_sell_ratio_threshold: 3,
        large_tx_lamports: 10_000_000_000,
        recovery_drop_pct: 30,
        alert_new_tokens: true,
        alert_wallet_activity: true,
        alert_price_movements: true,
        alert_volume_spikes: true,
        alert_sniper_opportunities: true,
        include_risk_warnings: true,
        min_alert_interval_seconds: 30,
    }
}

#[test]
fn disabled_categories_stay_silent() {
    let mut c = quiet_config();
    c.alert_new_tokens = false;
    c.alert_wallet_activity = false;
    let mut engine = Engine::new(c);
    let t = addr(1);
    let w = addr(2);
    let a = engine.process_event(&event(t, w, SwapKind::Buy, Some(1), None), 0);
    assert!(a.is_empty());
}

#[test]
fn alert_text_carries_the_amounts() {
    let mut engine = Engine::new(quiet_config());
    let t = addr(1);
    let w = addr(2);
    let alerts = engine.process_event(&event(t, w, SwapKind::Buy, Some(15_000_000_000), None), 0);
    let large = alerts
        .iter()
        .find(|a| a.key == AlertKey::LargeTransaction(t))
        .expect("large transaction alert");
    assert_eq!(
        large.text,
        "LARGE TRANSACTION | token 1-0-0-0 | amount lamports 15000000000"
    );
    let fresh = alerts
        .iter()
        .find(|a| a.key == AlertKey::NewToken(t))
        .expect("new token alert");
    assert_eq!(
        fresh.text,
        "NEW TOKEN | token 1-0-0-0 | liquidity lamports 0 | dex testdex"
    );
}

#[test]
fn risk_note_follows_configuration() {
    let mut engine = Engine::new(EngineConfig::default());
    let t = addr(1);
    let w = addr(2);
    let alerts = engine.process_event(&event(t, w, SwapKind::Buy, Some(1), None), 0);
    assert!(alerts.iter().all(|a| a.text.ends_with(
        " | note: trading involves substantial risk; informational only"
    )));
}

#[test]
fn delivery_failure_cannot_undo_state() {
    // alerts are handed back as values; dropping them (as a failed send
    // would) leaves the already-committed metrics in place
    let mut engine = Engine::new(quiet_config());
    let t = addr(1);
    let w = addr(2);
    let alerts = engine.process_event(&event(t, w, SwapKind::Buy, Some(1), None), 0);
    drop(alerts);
    let (tokens, _) = engine.snapshot();
    assert_eq!(tokens[0].buy_count, 1);
}

#[test]
fn process_event_now_uses_the_clock() {
    let mut engine = Engine::new(quiet_config());
    let t = addr(1);
    let w = addr(2);
    engine.process_event_now(&event(t, w, SwapKind::Buy, Some(1), None));
    let (tokens, _) = engine.snapshot();
    assert_eq!(tokens.len(), 1);
    // the engine stamped the entry with the wall clock, not a default
    assert!(tokens[0].first_seen > 1_500_000_000);
}

#[test]
fn change_pct_reports_exact_percentages() {
    let mut engine = Engine::new(quiet_config());
    let t = addr(1);
    let w = addr(2);
    engine.process_event(&event(t, w, SwapKind::Buy, None, Some(100)), 0);
    engine.process_event(&event(t, w, SwapKind::Buy, None, Some(125)), 1);
    let (tokens, _) = engine.snapshot();
    assert_eq!(tokens[0].change_pct(), Some((true, 25)));
    engine.process_event(&event(t, w, SwapKind::Sell, None, Some(60)), 2);
    let (tokens, _) = engine.snapshot();
    assert_eq!(tokens[0].change_pct(), Some((false, 40)));
    // a token without price data has no change
    engine.process_event(&event(addr(3), w, SwapKind::Buy, None, None), 3);
    let (tokens, _) = engine.snapshot();
    assert_eq!(tokens[1].change_pct(), None);
}

#[test]
fn configure_replaces_thresholds_and_keeps_state() {
    let mut engine = Engine::new(quiet_config());
    let t = addr(1);
    let w = addr(2);
    engine.process_event(&event(t, w, SwapKind::Buy, Some(1), Some(100)), 0);
    // raise the movement threshold so a 25 percent gain stays silent
    let mut strict = quiet_config();
    strict.price_change_threshold_pct = 50;
    engine.configure(strict);
    let a = engine.process_event(&event(t, w, SwapKind::Buy, Some(1), Some(125)), 1000);
    assert!(!has_key(&a, &AlertKey::PriceMovement(t)));
    // the metrics recorded before reconfiguration are still there
    let (tokens, _) = engine.snapshot();
    assert_eq!(tokens[0].buy_count, 2);
}

#[test]
fn volume_spike_fires_at_threshold_multiple() {
    let mut engine = Engine::new(quiet_config());
    let t = addr(1);
    // 300 >= 3 * 100: fires
    let a = engine.volume_spike_alert(&t, 300, 100, 3, 0);
    let alert = a.expect("spike alert");
    assert_eq!(alert.key, AlertKey::VolumeSpike(t));
    assert_eq!(
        alert.text,
        "VOLUME SPIKE | token 1-0-0-0 | current lamports 300 | average lamports 100"
    );
    // within the window: suppressed even though the condition holds
    assert!(engine.volume_spike_alert(&t, 400, 100, 3, 10).is_none());
    // 299 < 3 * 100: silent
    assert!(engine.volume_spike_alert(&t, 299, 100, 3, 100).is_none());
}

#[test]
fn daily_summary_renders_totals() {
    assert_eq!(
        swap_monitor::render::daily_summary(12, 34, 5),
        "DAILY SUMMARY\ntokens monitored: 12\nwallet activities: 34\nsignificant movements: 5\n"
    );
}

#[test]
fn get_token_finds_only_known_addresses() {
    let mut engine = Engine::new(quiet_config());
    let t = addr(1);
    let w = addr(2);
    engine.process_event(&event(t, w, SwapKind::Buy, Some(5), Some(100)), 0);
    let found = engine.store.get_token(&t).expect("token entry");
    assert_eq!(found.address, t);
    assert_eq!(found.buy_count, 1);
    assert!(engine.store.get_token(&addr(99)).is_none());
}

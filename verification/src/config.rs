use vstd::prelude::*;

verus! {

/// Why a raw configuration was rejected.
#[derive(Clone, Copy, PartialEq, Eq, Structural, Debug)]
pub enum ConfigError {
    /// A threshold or the minimum alert interval was negative.
    NegativeThreshold,
    /// A percentage or ratio threshold was too large to evaluate exactly.
    ThresholdTooLarge,
}

/// Validated engine configuration: detection thresholds, per-category
/// enable flags, and the minimum interval between two alerts that share a
/// suppression key.
#[derive(Clone, Copy, PartialEq, Eq, Structural, Debug)]
pub struct EngineConfig {
    /// A price movement alert needs `|current - initial| / initial * 100`
    /// to exceed this percentage.
    pub price_change_threshold_pct: u32,
    /// A buy pressure alert needs `buy_count / sell_count` to exceed this ratio.
    pub buy_sell_ratio_threshold: u32,
    /// A large transaction alert needs the event's SOL amount to exceed
    /// this many lamports.
    pub large_tx_lamports: u64,
    /// A recovery alert needs `(initial - current) / initial * 100` to
    /// exceed this percentage (and buys to outnumber sells).
    pub recovery_drop_pct: u32,
    pub alert_new_tokens: bool,
    pub alert_wallet_activity: bool,
    pub alert_price_movements: bool,
    pub alert_volume_spikes: bool,
    pub alert_sniper_opportunities: bool,
    pub include_risk_warnings: bool,
    pub min_alert_interval_seconds: i64,
}

/// Raw, unvalidated configuration values as an outer layer would read them
/// from its environment.  Numeric fields are signed so that a nonsensical
/// negative setting can be detected and rejected rather than wrapped.
#[derive(Clone, Copy, PartialEq, Eq, Structural, Debug)]
pub struct RawConfig {
    pub price_change_threshold_pct: i64,
    pub buy_sell_ratio_threshold: i64,
    pub large_tx_lamports: i64,
    pub recovery_drop_pct: i64,
    pub alert_new_tokens: bool,
    pub alert_wallet_activity: bool,
    pub alert_price_movements: bool,
    pub alert_volume_spikes: bool,
    pub alert_sniper_opportunities: bool,
    pub include_risk_warnings: bool,
    pub min_alert_interval_seconds: i64,
}

/// Whether some numeric setting in `raw` is negative.
pub open spec fn raw_has_negative(raw: RawConfig) -> bool {
    raw.price_change_threshold_pct < 0 || raw.buy_sell_ratio_threshold < 0
        || raw.large_tx_lamports < 0 || raw.recovery_drop_pct < 0
        || raw.min_alert_interval_seconds < 0
}

/// Whether some percentage or ratio setting in `raw` is beyond the range
/// the detector evaluates exactly.
pub open spec fn raw_too_large(raw: RawConfig) -> bool {
    raw.price_change_threshold_pct > u32::MAX || raw.buy_sell_ratio_threshold > u32::MAX
        || raw.recovery_drop_pct > u32::MAX
}

impl Default for EngineConfig {
    /// The stock configuration: movement over 20 percent, buy/sell ratio
    /// over 3, transactions over 10 SOL, recovery after a 30 percent drop,
    /// every alert category enabled, and 30 seconds between alerts that
    /// share a key.
    fn default() -> (r: EngineConfig)
        ensures
            r == EngineConfig::default_spec(),
    {
        EngineConfig {
            price_change_threshold_pct: 20,
            buy_sell_ratio_threshold: 3,
            large_tx_lamports: 10_000_000_000,
            recovery_drop_pct: 30,
            alert_new_tokens: true,
            alert_wallet_activity: true,
            alert_price_movements: true,
            alert_volume_spikes: true,
            alert_sniper_opportunities: true,
            include_risk_warnings: true,
            min_alert_interval_seconds: 30,
        }
    }
}

impl EngineConfig {
    /// The stock configuration as a mathematical value.
    pub open spec fn default_spec() -> EngineConfig {
        EngineConfig {
            price_change_threshold_pct: 20,
            buy_sell_ratio_threshold: 3,
            large_tx_lamports: 10_000_000_000,
            recovery_drop_pct: 30,
            alert_new_tokens: true,
            alert_wallet_activity: true,
            alert_price_movements: true,
            alert_volume_spikes: true,
            alert_sniper_opportunities: true,
            include_risk_warnings: true,
            min_alert_interval_seconds: 30,
        }
    }

    /// The configuration `raw` validates to, when it does.
    pub open spec fn accepted_spec(raw: RawConfig) -> EngineConfig {
        EngineConfig {
            price_change_threshold_pct: raw.price_change_threshold_pct as u32,
            buy_sell_ratio_threshold: raw.buy_sell_ratio_threshold as u32,
            large_tx_lamports: raw.large_tx_lamports as u64,
            recovery_drop_pct: raw.recovery_drop_pct as u32,
            alert_new_tokens: raw.alert_new_tokens,
            alert_wallet_activity: raw.alert_wallet_activity,
            alert_price_movements: raw.alert_price_movements,
            alert_volume_spikes: raw.alert_volume_spikes,
            alert_sniper_opportunities: raw.alert_sniper_opportunities,
            include_risk_warnings: raw.include_risk_warnings,
            min_alert_interval_seconds: raw.min_alert_interval_seconds,
        }
    }

    /// Validates raw settings.  A negative number is rejected first; then a
    /// percentage or ratio threshold too large to evaluate exactly; every
    /// other input is accepted unchanged.
    pub fn validate(raw: &RawConfig) -> (r: Result<EngineConfig, ConfigError>)
        ensures
            raw_has_negative(*raw) <==> r == Result::<EngineConfig, ConfigError>::Err(
                ConfigError::NegativeThreshold,
            ),
            !raw_has_negative(*raw) && raw_too_large(*raw) <==> r == Result::<
                EngineConfig,
                ConfigError,
            >::Err(ConfigError::ThresholdTooLarge),
            !raw_has_negative(*raw) && !raw_too_large(*raw) <==> r == Result::<
                EngineConfig,
                ConfigError,
            >::Ok(EngineConfig::accepted_spec(*raw)),
    {
        if raw.price_change_threshold_pct < 0 || raw.buy_sell_ratio_threshold < 0
            || raw.large_tx_lamports < 0 || raw.recovery_drop_pct < 0
            || raw.min_alert_interval_seconds < 0 {
            Result::Err(ConfigError::NegativeThreshold)
        } else if raw.price_change_threshold_pct > u32::MAX as i64
            || raw.buy_sell_ratio_threshold > u32::MAX as i64
            || raw.recovery_drop_pct > u32::MAX as i64 {
            Result::Err(ConfigError::ThresholdTooLarge)
        } else {
            Result::Ok(
                EngineConfig {
                    price_change_threshold_pct: raw.price_change_threshold_pct as u32,
                    buy_sell_ratio_threshold: raw.buy_sell_ratio_threshold as u32,
                    large_tx_lamports: raw.large_tx_lamports as u64,
                    recovery_drop_pct: raw.recovery_drop_pct as u32,
                    alert_new_tokens: raw.alert_new_tokens,
                    alert_wallet_activity: raw.alert_wallet_activity,
                    alert_price_movements: raw.alert_price_movements,
                    alert_volume_spikes: raw.alert_volume_spikes,
                    alert_sniper_opportunities: raw.alert_sniper_opportunities,
                    include_risk_warnings: raw.include_risk_warnings,
                    min_alert_interval_seconds: raw.min_alert_interval_seconds,
                },
            )
        }
    }
}

} // verus!

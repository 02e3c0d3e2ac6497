use vstd::prelude::*;
use crate::config::EngineConfig;
use crate::detect::{AlertIntent, AlertIntentV, AlertKey, detect, detect_spec, intent_key, key_of};
use crate::event::{SwapEvent, SwapEventV};
use crate::metrics::{TokenMetrics, WalletMetrics};
use crate::ratelimit::{RateLimiter, rl_allows};
use crate::render::{intent_text, render_intent};
use crate::store::{
    MetricsStore, has_token, upd_token_seq, upd_token_snap, upd_wallet_seq,
};

verus! {

/// A rendered alert that passed the rate limiter and is ready to be
/// handed to the notification sink.
pub struct Alert {
    pub key: AlertKey,
    pub text: String,
}

/// The mathematical value of an [`Alert`].
pub struct AlertV {
    pub key: AlertKey,
    pub text: Seq<char>,
}

impl View for Alert {
    type V = AlertV;

    open spec fn view(&self) -> AlertV {
        AlertV { key: self.key, text: self.text@ }
    }
}

impl DeepView for Alert {
    type V = AlertV;

    open spec fn deep_view(&self) -> AlertV {
        self.view()
    }
}

/// Dispatching `intents` in order against last-fired map `m`: each intent
/// whose key the limiter allows is rendered and let through and its key's
/// timestamp set to `now`; the rest are dropped silently.  Yields the
/// alerts let through and the final map.
pub open spec fn dispatch_spec(
    intents: Seq<AlertIntentV>,
    m: Map<AlertKey, i64>,
    interval: i64,
    now: i64,
    risk: bool,
) -> (Seq<AlertV>, Map<AlertKey, i64>)
    decreases intents.len(),
{
    if intents.len() == 0 {
        (Seq::empty(), m)
    } else {
        let k = key_of(intents[0]);
        let fired = rl_allows(m, interval, k, now);
        let m1 = if fired {
            m.insert(k, now)
        } else {
            m
        };
        let rest = dispatch_spec(intents.subrange(1, intents.len() as int), m1, interval, now, risk);
        if fired {
            (seq![AlertV { key: k, text: intent_text(intents[0], risk) }] + rest.0, rest.1)
        } else {
            rest
        }
    }
}

/// The monitoring engine: validated configuration, the metrics store, and
/// the alert rate limiter.  One instance owns all of its state; an outer
/// layer that processes events concurrently serialises calls per engine,
/// and every call is a finite update-detect-dispatch sequence.
pub struct Engine {
    pub config: EngineConfig,
    pub store: MetricsStore,
    pub limiter: RateLimiter,
}

/// How one processed event relates the engine states before and after it,
/// for the chosen timestamp `now`, and pins the alerts handed back: the
/// token and wallet tables take their atomic update, detection runs on the
/// post-update token snapshot, and the limiter admits or drops each intent
/// in order.
pub open spec fn process_post(
    pre: Engine,
    post: Engine,
    e: SwapEventV,
    now: i64,
    alerts: Seq<AlertV>,
) -> bool {
    let snap = upd_token_snap(pre.store.tokens_v(), e, now);
    let created = !has_token(pre.store.tokens_v(), e.token);
    let d = dispatch_spec(
        detect_spec(pre.config, snap, e, created),
        pre.limiter.map_of(),
        pre.limiter.min_interval_seconds,
        now,
        pre.config.include_risk_warnings,
    );
    &&& post.config == pre.config
    &&& post.limiter.min_interval_seconds == pre.limiter.min_interval_seconds
    &&& post.store.tokens_v() == upd_token_seq(pre.store.tokens_v(), e, now)
    &&& post.store.wallets_v() == upd_wallet_seq(pre.store.wallets_v(), e)
    &&& alerts == d.0
    &&& post.limiter.map_of() == d.1
}

impl Engine {
    /// Well-formedness: both components are well-formed and the limiter
    /// runs at the configured minimum interval.
    pub open spec fn inv(&self) -> bool {
        &&& self.store.inv()
        &&& self.limiter.inv()
        &&& self.limiter.min_interval_seconds == self.config.min_alert_interval_seconds
    }

    /// A fresh engine with no tokens, no wallets and no recorded alerts.
    pub fn new(config: EngineConfig) -> (r: Engine)
        requires
            config.min_alert_interval_seconds >= 0,
        ensures
            r.inv(),
            r.config == config,
            r.store.tokens_v() =~= Seq::<crate::metrics::TokenMetricsV>::empty(),
            r.store.wallets_v() =~= Seq::<crate::metrics::WalletMetricsV>::empty(),
            r.limiter.map_of() =~= Map::<AlertKey, i64>::empty(),
    {
        Engine {
            config,
            store: MetricsStore::new(),
            limiter: RateLimiter::new(config.min_alert_interval_seconds),
        }
    }

    /// The single entry point: folds `e` into the store at time `now`,
    /// runs detection on the post-update snapshot, and returns the
    /// rate-limit-approved, rendered alerts in detection order.  Handing
    /// them to the sink is the caller's step; a delivery failure there
    /// cannot reach back into this state.
    pub fn process_event(&mut self, e: &SwapEvent, now: i64) -> (alerts: Vec<Alert>)
        requires
            old(self).inv(),
        ensures
            final(self).inv(),
            process_post(*old(self), *final(self), e@, now, alerts.deep_view()),
    {
        let ghost m0 = self.limiter.map_of();
        let ghost interval = self.limiter.min_interval_seconds;
        let ghost risk = self.config.include_risk_warnings;

        let (snap, created) = self.store.update_token(e, now);
        self.store.update_wallet(e);
        let intents: Vec<AlertIntent> = detect(&self.config, &snap, e, created);
        let ghost full = intents.deep_view();
        proof {
            assert(full == detect_spec(
                old(self).config,
                upd_token_snap(old(self).store.tokens_v(), e@, now),
                e@,
                !has_token(old(self).store.tokens_v(), e@.token),
            ));
        }

        let mut alerts: Vec<Alert> = Vec::new();
        proof {
            assert(full.subrange(0, full.len() as int) =~= full);
            assert(alerts.deep_view() =~= Seq::<AlertV>::empty());
            assert(alerts.deep_view() + dispatch_spec(full, m0, interval, now, risk).0
                =~= dispatch_spec(full, m0, interval, now, risk).0);
        }
        let mut idx: usize = 0;
        while idx < intents.len()
            invariant
                idx <= intents.len(),
                intents.deep_view() == full,
                intents@.len() == full.len(),
                self.config == old(self).config,
                risk == self.config.include_risk_warnings,
                self.store.inv(),
                self.store.tokens_v() == upd_token_seq(old(self).store.tokens_v(), e@, now),
                self.store.wallets_v() == upd_wallet_seq(old(self).store.wallets_v(), e@),
                self.limiter.inv(),
                self.limiter.min_interval_seconds == interval,
                dispatch_spec(full, m0, interval, now, risk) == {
                    let d = dispatch_spec(
                        full.subrange(idx as int, full.len() as int),
                        self.limiter.map_of(),
                        interval,
                        now,
                        risk,
                    );
                    (alerts.deep_view() + d.0, d.1)
                },
            decreases intents.len() - idx,
        {
            let ghost mcur = self.limiter.map_of();
            let ghost rem = full.subrange(idx as int, full.len() as int);
            let ghost alerts0 = alerts.deep_view();

            let k = intent_key(&intents[idx]);
            proof {
                assert(rem[0] == full[idx as int]);
                assert(k == key_of(rem[0]));
            }
            let fired = self.limiter.allow(k, now);
            let ghost aprev = alerts@;
            if fired {
                let text = render_intent(&intents[idx], self.config.include_risk_warnings);
                let a = Alert { key: k, text };
                let ghost av = a@;
                alerts.push(a);
                proof {
                    assert(full[idx as int] == intents@[idx as int]@);
                    assert(risk == self.config.include_risk_warnings);
                    assert(text@ == intent_text(intents@[idx as int]@, risk));
                    assert(av == (AlertV { key: k, text: intent_text(full[idx as int], risk) }));
                    assert(alerts@ == aprev.push(a));
                    assert forall|j: int| 0 <= j < alerts.deep_view().len() implies alerts.deep_view()[j]
                        == alerts0.push(av)[j] by {
                        assert(alerts.deep_view()[j] == alerts@[j].deep_view());
                        if j < aprev.len() {
                            assert(alerts@[j] == aprev[j]);
                            assert(alerts0[j] == aprev[j].deep_view());
                        }
                    }
                    assert(alerts.deep_view() =~= alerts0.push(av));
                }
            }
            proof {
                let rem2 = full.subrange(idx + 1 as int, full.len() as int);
                assert(rem.subrange(1, rem.len() as int) =~= rem2);
                let m1 = self.limiter.map_of();
                let d2 = dispatch_spec(rem2, m1, interval, now, risk);
                let d = dispatch_spec(rem, mcur, interval, now, risk);
                if fired {
                    let av = AlertV { key: k, text: intent_text(full[idx as int], risk) };
                    assert(d.0 =~= seq![av] + d2.0);
                    assert(alerts.deep_view() == alerts0.push(av));
                    assert(alerts0 + d.0 =~= alerts.deep_view() + d2.0);
                } else {
                    assert(d == d2);
                    assert(alerts.deep_view() == alerts0);
                }
                assert((alerts0 + d.0, d.1) == (alerts.deep_view() + d2.0, d2.1));
            }
            idx = idx + 1;
        }
        proof {
            let remf = full.subrange(full.len() as int, full.len() as int);
            assert(remf =~= Seq::<AlertIntentV>::empty());
            let d = dispatch_spec(remf, self.limiter.map_of(), interval, now, risk);
            assert(d.0 =~= Seq::<AlertV>::empty());
            assert(alerts.deep_view() + d.0 =~= alerts.deep_view());
        }
        alerts
    }

    /// Folds `e` in at the wall clock's current time.  The clock is the
    /// environment's, so the contract says only that some timestamp was
    /// used consistently throughout the call.
    pub fn process_event_now(&mut self, e: &SwapEvent) -> (alerts: Vec<Alert>)
        requires
            old(self).inv(),
        ensures
            final(self).inv(),
            exists|t: i64| #[trigger] process_post(*old(self), *final(self), e@, t, alerts.deep_view()),
    {
        let now = unix_now_seconds();
        let alerts = self.process_event(e, now);
        proof {
            assert(process_post(*old(self), *self, e@, now, alerts.deep_view()));
        }
        alerts
    }

    /// Evaluates a volume spike reported by an outside aggregator: with
    /// the category enabled and the current volume at least `threshold`
    /// times the average, a rate-limited alert for the token is produced.
    /// The comparison is exact: `current >= threshold * average`.  The
    /// metric tables are untouched.
    pub fn volume_spike_alert(
        &mut self,
        token: &crate::addr::Addr,
        current_volume: u64,
        average_volume: u64,
        threshold: u32,
        now: i64,
    ) -> (r: Option<Alert>)
        requires
            old(self).inv(),
        ensures
            final(self).inv(),
            final(self).config == old(self).config,
            final(self).store == old(self).store,
            ({
                let fires = old(self).config.alert_volume_spikes && current_volume
                    >= threshold * average_volume;
                let k = AlertKey::VolumeSpike(*token);
                let allowed = rl_allows(
                    old(self).limiter.map_of(),
                    old(self).limiter.min_interval_seconds,
                    k,
                    now,
                );
                if fires && allowed {
                    &&& r matches Option::Some(a) && a@.key == k && a@.text
                        == crate::render::volume_spike_text(*token, current_volume, average_volume)
                    &&& final(self).limiter.map_of() == old(self).limiter.map_of().insert(k, now)
                } else {
                    &&& r is None
                    &&& final(self).limiter.map_of() == old(self).limiter.map_of()
                }
            }),
    {
        proof {
            crate::detect::lemma_mul_le(
                threshold as u128,
                average_volume as u128,
                u32::MAX as u128,
                u64::MAX as u128,
            );
        }
        if !(self.config.alert_volume_spikes && (current_volume as u128) >= (threshold as u128) * (
        average_volume as u128)) {
            return Option::None;
        }
        let k = AlertKey::VolumeSpike(*token);
        if self.limiter.allow(k, now) {
            let text = crate::render::render_volume_spike(token, current_volume, average_volume);
            Option::Some(Alert { key: k, text })
        } else {
            Option::None
        }
    }

    /// Replaces the configuration.  The stored metrics and the recorded
    /// alert times are kept; the limiter takes the new minimum interval.
    pub fn configure(&mut self, config: EngineConfig)
        requires
            old(self).inv(),
            config.min_alert_interval_seconds >= 0,
        ensures
            final(self).inv(),
            final(self).config == config,
            final(self).store == old(self).store,
            final(self).limiter.map_of() == old(self).limiter.map_of(),
    {
        self.config = config;
        self.limiter.min_interval_seconds = config.min_alert_interval_seconds;
    }

    /// Renders the periodic report over the current tables: totals, the
    /// top five gainers by exact relative price change, and the three most
    /// active wallets.  Read-only; an outer layer may forward the text to
    /// the sink as a custom alert.
    pub fn generate_report(&self) -> (r: String)
        ensures
            r@ == crate::report::report_text(self.store.tokens_v(), self.store.wallets_v()),
    {
        crate::report::render_report(&self.store.tokens, &self.store.wallets)
    }

    /// A read-only, point-in-time copy of both metric tables.  Two calls
    /// with no event processed in between return identical data, since
    /// each result is pinned to the tables' current mathematical value.
    pub fn snapshot(&self) -> (r: (Vec<TokenMetrics>, Vec<WalletMetrics>))
        ensures
            r.0.deep_view() == self.store.tokens_v(),
            r.1.deep_view() == self.store.wallets_v(),
    {
        self.store.snapshot()
    }
}

/// Relies on `chrono::Utc::now` composed with `DateTime::timestamp`: the
/// current wall-clock time as whole seconds since the Unix epoch.  The
/// clock belongs to the environment, so nothing is assumed of the value.
#[verifier::external_body]
fn unix_now_seconds() -> i64 {
    chrono::Utc::now().timestamp()
}

} // verus!

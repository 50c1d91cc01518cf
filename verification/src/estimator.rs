//! Bandwidth estimator: consumes raw QUIC transport stats, produces a
//! smoothed bandwidth estimate with trend classification.
//!
//! Inputs (per tick, typically every 500ms):
//!   - estimated_send_rate (bps): the congestion controller's estimate
//!   - packets sent and lost so far, for the loss rate
//!   - rtt_us: round-trip time
//!
//! Outputs:
//!   - the smoothed estimate in bps
//!   - trend direction
//!   - loss rate (smoothed)

use crate::binary64::Binary64;
use crate::clock::Instant;
use crate::config::{
    ESTIMATE_BASELINE_ALPHA, LOSS_ATTACK_ALPHA, LOSS_DECAY_ALPHA, ONE, TREND_DOWNWARD_THRESHOLD,
    TREND_MIN_SAMPLES, TREND_REQUIRED_SAMPLES,
};
use crate::trend::{TrendDetector, TrendDirection, TrendView};
use crate::value::{
    blended, decoded, in_range, lemma_blended_in_range, lemma_of_int_in_range, lemma_of_positive,
    lemma_ratio_in_range, less, of_int, quotient, truncated, Value,
};
use vstd::prelude::*;

verus! {

/// Input stats sampled from QUIC transport. The packet counts are totals.
#[derive(Debug, Clone, Copy)]
pub struct TransportStats {
    pub estimated_send_rate_bps: u64,
    pub packets_sent: u64,
    pub packets_lost: u64,
    pub bytes_sent: u64,
    pub rtt_us: u64,
}

/// Current output of the estimator.
#[derive(Debug, Clone, Copy)]
pub struct Estimate {
    /// Smoothed bandwidth estimate in bps.
    pub bps: u64,
    /// Raw (un-smoothed) estimate in bps, which reacts immediately to send rate changes.
    pub raw_bps: u64,
    /// Smoothed packet loss rate in [0, 1].
    pub loss_rate: Binary64,
    /// RTT in microseconds.
    pub rtt_us: u64,
    /// Trend direction of the bandwidth estimate over the recent window.
    pub trend: TrendDirection,
    /// Raw trend coefficient in [-1, +1].
    pub trend_coefficient: Binary64,
}

/// What an [`Estimate`] says.
pub struct EstimateView {
    pub bps: u64,
    pub raw_bps: u64,
    pub loss_rate: Value,
    pub rtt_us: u64,
    pub trend: TrendDirection,
    pub trend_coefficient: Value,
}

impl View for Estimate {
    type V = EstimateView;

    open spec fn view(&self) -> EstimateView {
        EstimateView {
            bps: self.bps,
            raw_bps: self.raw_bps,
            loss_rate: self.loss_rate@,
            rtt_us: self.rtt_us,
            trend: self.trend,
            trend_coefficient: self.trend_coefficient@,
        }
    }
}

pub struct BandwidthEstimator {
    baseline_bps: Binary64,
    loss_rate: Binary64,
    prev_packets_sent: u64,
    prev_packets_lost: u64,
    trend: TrendDetector,
    initialized: bool,
}

/// What a [`BandwidthEstimator`] holds: the smoothed rate in bps and the
/// smoothed loss rate, the packet totals of the last reading, and the window of
/// smoothed rates.
pub struct EstimatorView {
    pub baseline_bps: Value,
    pub loss_rate: Value,
    pub prev_packets_sent: u64,
    pub prev_packets_lost: u64,
    pub trend: TrendView,
    pub initialized: bool,
}

/// How far a counter has grown; zero where it went back.
pub open spec fn growth(before: u64, after: u64) -> nat {
    if after >= before {
        (after - before) as nat
    } else {
        0
    }
}

impl EstimatorView {
    /// The rates are numbers in their range, and the window is the steady-state one.
    pub open spec fn wf(self) -> bool {
        &&& self.trend.wf()
        &&& self.trend.max_samples == TREND_REQUIRED_SAMPLES
        &&& in_range(self.loss_rate, 0)
        &&& in_range(self.baseline_bps, 64)
    }

    /// An estimator that has seen nothing.
    pub open spec fn fresh() -> Self {
        EstimatorView {
            baseline_bps: Value::Finite { units: 0 },
            loss_rate: Value::Finite { units: 0 },
            prev_packets_sent: 0,
            prev_packets_lost: 0,
            trend: TrendView::fresh(
                TREND_REQUIRED_SAMPLES as nat,
                TREND_MIN_SAMPLES as nat,
                decoded(TREND_DOWNWARD_THRESHOLD),
            ),
            initialized: false,
        }
    }

    /// The packets sent and lost since the last reading.
    pub open spec fn packets(self, stats: TransportStats) -> nat {
        growth(self.prev_packets_sent, stats.packets_sent) + growth(
            self.prev_packets_lost,
            stats.packets_lost,
        )
    }

    /// Whether the packet counts since the last reading can be added up.
    pub open spec fn accepts(self, stats: TransportStats) -> bool {
        stats.estimated_send_rate_bps == 0 || self.packets(stats) <= u64::MAX
    }

    /// The first rate itself, later ones smoothed with what came before.
    pub open spec fn smoothed(self, rate: u64) -> Value {
        if self.initialized {
            blended(decoded(ESTIMATE_BASELINE_ALPHA), of_int(rate as int), self.baseline_bps)
        } else {
            of_int(rate as int)
        }
    }

    /// The share of packets lost since the last reading.
    pub open spec fn interval_loss(self, stats: TransportStats) -> Value {
        if self.packets(stats) > 0 {
            quotient(
                of_int(growth(self.prev_packets_lost, stats.packets_lost) as int),
                of_int(self.packets(stats) as int),
            )
        } else {
            Value::Finite { units: 0 }
        }
    }

    /// The loss rate, which follows a rise fast and a fall slowly.
    pub open spec fn smoothed_loss(self, stats: TransportStats) -> Value {
        let interval = self.interval_loss(stats);
        let alpha = if less(self.loss_rate, interval) {
            LOSS_ATTACK_ALPHA
        } else {
            LOSS_DECAY_ALPHA
        };
        blended(decoded(alpha), interval, self.loss_rate)
    }

    /// The estimator after a reading. One without a rate is skipped.
    pub open spec fn updated(self, stats: TransportStats, now: Instant) -> Self {
        if stats.estimated_send_rate_bps == 0 {
            self
        } else {
            let baseline = self.smoothed(stats.estimated_send_rate_bps);
            EstimatorView {
                baseline_bps: baseline,
                loss_rate: self.smoothed_loss(stats),
                prev_packets_sent: stats.packets_sent,
                prev_packets_lost: stats.packets_lost,
                trend: self.trend.added(baseline, now),
                initialized: true,
            }
        }
    }

    /// The estimate that goes with a reading, `self` being the estimator after it.
    pub open spec fn estimate(self, stats: TransportStats) -> EstimateView {
        let skipped = stats.estimated_send_rate_bps == 0;
        EstimateView {
            bps: truncated(self.baseline_bps),
            raw_bps: stats.estimated_send_rate_bps,
            loss_rate: self.loss_rate,
            rtt_us: stats.rtt_us,
            trend: if skipped {
                TrendDirection::Inconclusive
            } else {
                self.trend.direction()
            },
            trend_coefficient: if skipped {
                Value::Finite { units: 0 }
            } else {
                self.trend.tau()
            },
        }
    }
}

impl View for BandwidthEstimator {
    type V = EstimatorView;

    closed spec fn view(&self) -> EstimatorView {
        EstimatorView {
            baseline_bps: self.baseline_bps@,
            loss_rate: self.loss_rate@,
            prev_packets_sent: self.prev_packets_sent,
            prev_packets_lost: self.prev_packets_lost,
            trend: self.trend@,
            initialized: self.initialized,
        }
    }
}

/// Rates stay in range: the smoothed loss rate between zero and one, the
/// smoothed bandwidth estimate a finite number that is not negative.
pub proof fn law_rates_stay_in_range(v: EstimatorView, stats: TransportStats, now: Instant)
    requires
        v.wf(),
        v.accepts(stats),
    ensures
        v.updated(stats, now).wf(),
{
    if stats.estimated_send_rate_bps != 0 {
        let rate = stats.estimated_send_rate_bps;
        lemma_of_int_in_range(rate as int);
        if v.initialized {
            lemma_blended_in_range(
                ESTIMATE_BASELINE_ALPHA,
                of_int(rate as int),
                v.baseline_bps,
                64,
            );
        }
        let interval = v.interval_loss(stats);
        assert(in_range(interval, 0)) by {
            if v.packets(stats) > 0 {
                lemma_ratio_in_range(
                    growth(v.prev_packets_lost, stats.packets_lost),
                    v.packets(stats),
                );
            } else {
                vstd::arithmetic::power2::lemma_pow2_pos(1074);
            }
        }
        let alpha = if less(v.loss_rate, interval) {
            LOSS_ATTACK_ALPHA
        } else {
            LOSS_DECAY_ALPHA
        };
        lemma_blended_in_range(alpha, interval, v.loss_rate, 0);
    }
}

/// The weighted mean `alpha * new + (1 - alpha) * old`.
fn blend(alpha: Binary64, new: Binary64, old: Binary64) -> (r: Binary64)
    ensures
        r@ == blended(alpha@, new@, old@),
{
    let rest = Binary64::from_bits(ONE).minus(alpha);
    alpha.times(new).plus(rest.times(old))
}

impl BandwidthEstimator {
    pub fn new() -> (r: Self)
        ensures
            r@ == EstimatorView::fresh(),
            r@.wf(),
    {
        BandwidthEstimator {
            baseline_bps: Binary64::from_bits(0),
            loss_rate: Binary64::from_bits(0),
            prev_packets_sent: 0,
            prev_packets_lost: 0,
            trend: TrendDetector::steady_state(),
            initialized: false,
        }
    }

    /// Whether the packet counts since the last reading can be added up.
    pub fn takes(&self, stats: &TransportStats) -> (r: bool)
        ensures
            r == self@.accepts(*stats),
    {
        let sent: u64 = stats.packets_sent.saturating_sub(self.prev_packets_sent);
        let lost: u64 = stats.packets_lost.saturating_sub(self.prev_packets_lost);
        stats.estimated_send_rate_bps == 0 || sent <= u64::MAX - lost
    }

    /// Takes in a reading and returns the estimate after it.
    pub fn update(&mut self, stats: TransportStats, now: Instant) -> (r: Estimate)
        requires
            old(self)@.wf(),
            old(self)@.accepts(stats),
        ensures
            final(self)@ == old(self)@.updated(stats, now),
            final(self)@.wf(),
            r@ == final(self)@.estimate(stats),
    {
        proof {
            law_rates_stay_in_range(self@, stats, now);
        }
        // Skip if no data yet.
        if stats.estimated_send_rate_bps == 0 {
            return Estimate {
                bps: self.baseline_bps.to_u64(),
                raw_bps: 0,
                loss_rate: self.loss_rate,
                rtt_us: stats.rtt_us,
                trend: TrendDirection::Inconclusive,
                trend_coefficient: Binary64::from_bits(0),
            };
        }
        let raw = Binary64::from_u64(stats.estimated_send_rate_bps);

        // Smoothing of the bandwidth estimate.
        if !self.initialized {
            self.baseline_bps = raw;
            self.initialized = true;
        } else {
            self.baseline_bps =
            blend(Binary64::from_bits(ESTIMATE_BASELINE_ALPHA), raw, self.baseline_bps);
        }

        // Feed smoothed estimate into trend detector.
        self.trend.add(self.baseline_bps, now);

        // Smoothed loss rate (fast attack, slow decay).
        let delta_sent: u64 = stats.packets_sent.saturating_sub(self.prev_packets_sent);
        let delta_lost: u64 = stats.packets_lost.saturating_sub(self.prev_packets_lost);
        self.prev_packets_sent = stats.packets_sent;
        self.prev_packets_lost = stats.packets_lost;

        let total: u64 = delta_sent + delta_lost;
        let interval_loss = if total > 0 {
            proof {
                lemma_of_positive(total as int);
            }
            Binary64::from_u64(delta_lost).over(Binary64::from_u64(total))
        } else {
            Binary64::from_bits(0)
        };
        let alpha: u64 = if self.loss_rate.less_than(interval_loss) {
            LOSS_ATTACK_ALPHA
        } else {
            LOSS_DECAY_ALPHA
        };
        self.loss_rate = blend(Binary64::from_bits(alpha), interval_loss, self.loss_rate);

        Estimate {
            bps: self.baseline_bps.to_u64(),
            raw_bps: stats.estimated_send_rate_bps,
            loss_rate: self.loss_rate,
            rtt_us: stats.rtt_us,
            trend: self.trend.direction(),
            trend_coefficient: self.trend.coefficient(),
        }
    }

    /// Resets the trend, which is useful when entering or leaving probing.
    pub fn reset_trend(&mut self)
        requires
            old(self)@.wf(),
        ensures
            final(self)@ == (EstimatorView { trend: old(self)@.trend.cleared(), ..old(self)@ }),
            final(self)@.wf(),
    {
        self.trend.clear();
    }
}

impl Default for BandwidthEstimator {
    fn default() -> (r: Self)
        ensures
            r@ == EstimatorView::fresh(),
            r@.wf(),
    {
        Self::new()
    }
}

} // verus!

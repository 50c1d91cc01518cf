//! Tunable constants of the bitrate controller.
//!
//! Spans of time are in nanoseconds. A fractional constant is given by the bits
//! of the double-precision number nearest to it.

use vstd::prelude::*;

verus! {

// Trend detection.

/// Number of samples required to detect a trend (non-probe mode).
/// More samples = more stable, slower to react.
pub const TREND_REQUIRED_SAMPLES: usize = 12;

/// Minimum samples for accepting a trend.
pub const TREND_MIN_SAMPLES: usize = 8;

/// Samples required during probing (faster detection).
pub const TREND_PROBE_SAMPLES: usize = 3;

/// Equal samples that arrive within this window are collapsed, so that
/// rapid-fire updates do not dominate the trend: half a second.
pub const TREND_COLLAPSE_WINDOW_NANOS: u64 = 500_000_000;

/// The trend coefficient must be below this for a downward trend: -0.6.
pub const TREND_DOWNWARD_THRESHOLD: u64 = 0xbfe3_3333_3333_3333;

/// The downward threshold in probe mode, where any downward motion counts: 0.0.
pub const TREND_DOWNWARD_PROBE: u64 = 0;

/// The trend coefficient must be above this for an upward trend: 0.4.
pub const TREND_UPWARD_THRESHOLD: u64 = 0x3fd9_9999_9999_999a;

/// Samples closer than this are equal: the gap between 1.0 and the next double.
pub const SAMPLE_EPSILON: u64 = 0x3cb0_0000_0000_0000;

// Bandwidth estimation.

/// Weight of a new reading in the smoothed bandwidth estimate: 0.1.
/// Lower = slower, smoother estimate.
pub const ESTIMATE_BASELINE_ALPHA: u64 = 0x3fb9_9999_9999_999a;

/// Weight of a loss rate above the smoothed one (fast attack): 0.5.
pub const LOSS_ATTACK_ALPHA: u64 = 0x3fe0_0000_0000_0000;

/// Weight of a loss rate not above the smoothed one (slow decay): 0.1.
pub const LOSS_DECAY_ALPHA: u64 = 0x3fb9_9999_9999_999a;

/// Only commit a lower ceiling if the estimate drops below this fraction of the
/// current one, so that noise does not make it oscillate: 0.95.
pub const COMMIT_THRESHOLD_RATIO: u64 = 0x3fee_6666_6666_6666;

// Loss-based reduction.

/// The loss rate above which loss-based reduction kicks in: 0.05.
pub const LOSS_TRIGGER_RATIO: u64 = 0x3fa9_9999_9999_999a;

/// The loss rate that is congestion even without a trend, twice the trigger: 0.1.
pub const LOSS_CONGESTION_RATIO: u64 = 0x3fb9_9999_9999_999a;

/// The loss rate below which a warning is lifted, half the trigger: 0.025.
pub const LOSS_CLEAR_RATIO: u64 = 0x3f99_9999_9999_999a;

/// How strongly loss reduces the ceiling, to `target * (1 - attenuator * loss)`: 1.5.
pub const LOSS_ATTENUATOR: u64 = 0x3ff8_0000_0000_0000;

/// The smallest factor that loss alone applies to the target: 0.2.
pub const LOSS_FACTOR_FLOOR: u64 = 0x3fc9_9999_9999_999a;

// Probing.

/// Minimum wait between probe attempts: 3 seconds.
pub const PROBE_BASE_INTERVAL_NANOS: u64 = 3_000_000_000;

/// Maximum wait between probes when backing off repeatedly: 2 minutes.
pub const PROBE_MAX_INTERVAL_NANOS: u64 = 120_000_000_000;

/// What the wait is multiplied by after a failed probe.
pub const PROBE_BACKOFF_FACTOR: u64 = 2;

/// How long probe traffic is sent before it is evaluated: half a second.
pub const PROBE_DURATION_NANOS: u64 = 500_000_000;

/// A probe aims this part of the current ceiling above it: a fifth, that is 120%.
pub const PROBE_OVERAGE_DIVISOR: u64 = 5;

/// Minimum absolute probe headroom in bits per second.
pub const PROBE_MIN_BPS: u64 = 200_000;

/// How many round trips to wait after a probe before evaluating its result.
pub const PROBE_SETTLE_RTTS: u64 = 5;

/// The shortest such wait, in microseconds.
pub const PROBE_MIN_SETTLE_MICROS: u64 = 250_000;

// State machine.

/// Warmup at startup, to collect a baseline before making decisions: 5 seconds.
pub const WARMUP_DURATION_NANOS: u64 = 5_000_000_000;

/// How often a ceiling other than the target is signalled again: every second.
pub const MIN_SIGNAL_INTERVAL_NANOS: u64 = 1_000_000_000;

/// Minimum ceiling as a fraction of the publisher target, so as not to starve
/// the stream: 0.2.
pub const MIN_CEILING_RATIO: u64 = 0x3fc9_9999_9999_999a;

// Relay feedback.

/// The publisher target that a relay starts from, in bits per second.
pub const RELAY_TARGET_BPS: u64 = 2_000_000;

/// How often a relay sends transport stats and its clock, in milliseconds.
pub const FEEDBACK_INTERVAL_MILLIS: u64 = 500;

/// The shortest time that a throughput is taken over, in seconds: 0.001.
pub const MIN_THROUGHPUT_SECONDS: u64 = 0x3f50_624d_d2f1_a9fc;

/// The loss rate above which a keyframe is requested: 0.05.
pub const KEYFRAME_LOSS_RATIO: u64 = 0x3fa9_9999_9999_999a;

/// The least time between two keyframe requests: 2 seconds.
pub const KEYFRAME_INTERVAL_NANOS: u64 = 2_000_000_000;

// Plain numbers.

/// 1.0.
pub const ONE: u64 = 0x3ff0_0000_0000_0000;

/// 8.0.
pub const EIGHT: u64 = 0x4020_0000_0000_0000;

} // verus!

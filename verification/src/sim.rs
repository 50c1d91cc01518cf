//! Scripted network scenarios, and their replay through the bitrate controller.
//!
//! Scenarios simulate QUIC transport stats at 500ms ticks:
//!   - estimated_send_rate_bps: what the congestion controller thinks the pipe can handle
//!   - packets sent and lost: for loss rate calculation
//!   - rtt_us: round-trip time

use crate::allocator::AllocatorState;
use crate::binary64::Binary64;
use crate::clock::{Duration, Instant};
use crate::controller::{BitrateController, BitrateSignal, ControllerView};
use crate::estimator::TransportStats;
use crate::trend::TrendDirection;
use crate::value::Value;
use vstd::prelude::*;

verus! {

/// One tick of network conditions at a specific simulation time.
#[derive(Debug, Clone)]
pub struct Tick {
    pub elapsed_ms: u64,
    pub estimated_send_rate_bps: u64,
    pub interval_sent: u64,
    pub interval_lost: u64,
    pub rtt_us: u64,
}

/// A scripted scenario.
#[derive(Debug, Clone, Copy, PartialEq, Eq, Structural)]
pub enum Scenario {
    /// A link with headroom, no loss, steady.
    Clean,
    /// Gradually drops to 40% of the target, then recovers.
    CleanThenCongested,
    /// Clean baseline, loss for 10s, then clears.
    LossSpike,
    /// Alternating good and bad every 5s.
    Flapping,
    /// Linear drop to 20% of the target over 60s.
    SlowDrain,
    /// Instant drop to a quarter of the target.
    Cliff,
}

impl Scenario {
    /// The name of the scenario.
    pub open spec fn spec_name(self) -> Seq<char> {
        match self {
            Scenario::Clean => "clean"@,
            Scenario::CleanThenCongested => "clean_then_congested"@,
            Scenario::LossSpike => "loss_spike"@,
            Scenario::Flapping => "flapping"@,
            Scenario::SlowDrain => "slow_drain"@,
            Scenario::Cliff => "cliff"@,
        }
    }

    /// How many ticks the scenario has.
    pub open spec fn ticks(self) -> nat {
        match self {
            Scenario::Clean => 60,
            Scenario::CleanThenCongested => 120,
            Scenario::LossSpike => 80,
            Scenario::Flapping => 120,
            Scenario::SlowDrain => 120,
            Scenario::Cliff => 60,
        }
    }

    /// The estimated rate of the `i`-th tick in percent of the target.
    pub open spec fn percent(self, i: int) -> int {
        match self {
            Scenario::Clean => 120,
            Scenario::CleanThenCongested => if 20 <= i < 60 {
                100 - (i - 20) * 60 / 40
            } else {
                120
            },
            Scenario::LossSpike => 120,
            Scenario::Flapping => if (i / 10) % 2 == 1 {
                50
            } else {
                120
            },
            Scenario::SlowDrain => 100 - i * 80 / 120,
            Scenario::Cliff => if i < 20 {
                120
            } else {
                25
            },
        }
    }

    /// The highest percentage of any tick.
    pub open spec fn peak_percent(self) -> int {
        if self == Scenario::SlowDrain {
            100
        } else {
            120
        }
    }

    /// The packets lost in the `i`-th tick.
    pub open spec fn lost(self, i: int) -> int {
        match self {
            Scenario::Clean => 0,
            Scenario::CleanThenCongested => if self.percent(i) < 80 {
                3
            } else {
                0
            },
            Scenario::LossSpike => if 20 <= i < 40 {
                20
            } else {
                0
            },
            Scenario::Flapping => if (i / 10) % 2 == 1 {
                10
            } else {
                0
            },
            Scenario::SlowDrain => 0,
            Scenario::Cliff => if 20 <= i < 30 {
                15
            } else {
                0
            },
        }
    }

    /// The round-trip time of the `i`-th tick, which rises with congestion.
    pub open spec fn rtt_us(self, i: int) -> int {
        match self {
            Scenario::CleanThenCongested => if 20 <= i < 60 {
                50_000 + (100 - self.percent(i)) * 1000
            } else {
                50_000
            },
            Scenario::Flapping => if (i / 10) % 2 == 1 {
                150_000
            } else {
                50_000
            },
            Scenario::SlowDrain => 50_000 + (100 - self.percent(i)) * 500,
            _ => 50_000,
        }
    }

    /// Whether a tick is the `i`-th of the scenario for a target.
    pub open spec fn has_tick(self, i: int, target_bps: u64, t: Tick) -> bool {
        &&& t.elapsed_ms == i * 500
        &&& t.estimated_send_rate_bps == target_bps * self.percent(i) / 100
        &&& t.interval_sent == 100
        &&& t.interval_lost == self.lost(i)
        &&& t.rtt_us == self.rtt_us(i)
    }

    /// The scenario of a name, if there is one.
    pub open spec fn spec_named(name: Seq<char>) -> Option<Scenario> {
        if name == Scenario::Clean.spec_name() {
            Some(Scenario::Clean)
        } else if name == Scenario::CleanThenCongested.spec_name() {
            Some(Scenario::CleanThenCongested)
        } else if name == Scenario::LossSpike.spec_name() {
            Some(Scenario::LossSpike)
        } else if name == Scenario::Flapping.spec_name() {
            Some(Scenario::Flapping)
        } else if name == Scenario::SlowDrain.spec_name() {
            Some(Scenario::SlowDrain)
        } else if name == Scenario::Cliff.spec_name() {
            Some(Scenario::Cliff)
        } else {
            None
        }
    }

    /// The scenario of a name, if there is one.
    pub fn named(name: &str) -> (r: Option<Scenario>)
        ensures
            r == Self::spec_named(name@),
    {
        let name = name.to_owned();
        if name == "clean".to_owned() {
            Some(Scenario::Clean)
        } else if name == "clean_then_congested".to_owned() {
            Some(Scenario::CleanThenCongested)
        } else if name == "loss_spike".to_owned() {
            Some(Scenario::LossSpike)
        } else if name == "flapping".to_owned() {
            Some(Scenario::Flapping)
        } else if name == "slow_drain".to_owned() {
            Some(Scenario::SlowDrain)
        } else if name == "cliff".to_owned() {
            Some(Scenario::Cliff)
        } else {
            None
        }
    }

    /// Whether the estimated rates for a target are in range.
    pub fn fits(self, target_bps: u64) -> (r: bool)
        ensures
            r == (target_bps * self.peak_percent() <= u64::MAX),
    {
        match self {
            Scenario::SlowDrain => target_bps <= u64::MAX / 100,
            _ => target_bps <= u64::MAX / 120,
        }
    }

    /// The `i`-th tick of the scenario.
    fn tick(self, i: u64, target_bps: u64) -> (t: Tick)
        requires
            i < self.ticks(),
            target_bps * self.peak_percent() <= u64::MAX,
        ensures
            self.has_tick(i as int, target_bps, t),
    {
        let bad: bool = (i / 10) % 2 == 1;
        let pct: u64 = match self {
            Scenario::Clean => 120,
            Scenario::CleanThenCongested => if 20 <= i && i < 60 {
                100 - (i - 20) * 60 / 40
            } else {
                120
            },
            Scenario::LossSpike => 120,
            Scenario::Flapping => if bad {
                50
            } else {
                120
            },
            Scenario::SlowDrain => 100 - i * 80 / 120,
            Scenario::Cliff => if i < 20 {
                120
            } else {
                25
            },
        };
        let interval_lost: u64 = match self {
            Scenario::Clean => 0,
            Scenario::CleanThenCongested => if pct < 80 {
                3
            } else {
                0
            },
            Scenario::LossSpike => if 20 <= i && i < 40 {
                20
            } else {
                0
            },
            Scenario::Flapping => if bad {
                10
            } else {
                0
            },
            Scenario::SlowDrain => 0,
            Scenario::Cliff => if 20 <= i && i < 30 {
                15
            } else {
                0
            },
        };
        let rtt_us: u64 = match self {
            Scenario::CleanThenCongested => if 20 <= i && i < 60 {
                50_000 + (100 - pct) * 1000
            } else {
                50_000
            },
            Scenario::Flapping => if bad {
                150_000
            } else {
                50_000
            },
            Scenario::SlowDrain => 50_000 + (100 - pct) * 500,
            _ => 50_000,
        };
        proof {
            assert(target_bps * pct <= target_bps * self.peak_percent()) by (nonlinear_arith)
                requires
                    pct <= self.peak_percent(),
            ;
        }
        Tick {
            elapsed_ms: i * 500,
            estimated_send_rate_bps: target_bps * pct / 100,
            interval_sent: 100,
            interval_lost,
            rtt_us,
        }
    }
}

/// Builds the scenario of the given name for a publisher target, if there is one.
pub fn build_scenario(name: &str, target_bps: u64) -> (r: Option<Vec<Tick>>)
    requires
        Scenario::spec_named(name@) matches Some(s) ==> target_bps * s.peak_percent() <= u64::MAX,
    ensures
        r is Some == (Scenario::spec_named(name@) is Some),
        r matches Some(v) ==> {
            let s = Scenario::spec_named(name@)->0;
            &&& v@.len() == s.ticks()
            &&& forall|i: int| 0 <= i < v@.len() ==> s.has_tick(i, target_bps, #[trigger] v@[i])
        },
{
    let scenario = match Scenario::named(name) {
        Some(s) => s,
        None => {
            return None;
        },
    };
    let n: u64 = match scenario {
        Scenario::Clean => 60,
        Scenario::CleanThenCongested => 120,
        Scenario::LossSpike => 80,
        Scenario::Flapping => 120,
        Scenario::SlowDrain => 120,
        Scenario::Cliff => 60,
    };
    let mut ticks: Vec<Tick> = Vec::new();
    let mut i: u64 = 0;
    while i < n
        invariant
            i <= n,
            n == scenario.ticks(),
            target_bps * scenario.peak_percent() <= u64::MAX,
            ticks@.len() == i,
            forall|k: int|
                0 <= k < ticks@.len() ==> scenario.has_tick(k, target_bps, #[trigger] ticks@[k]),
        decreases n - i,
    {
        ticks.push(scenario.tick(i, target_bps));
        i = i + 1;
    }
    Some(ticks)
}

/// Replays ticks through a controller.
pub struct Replay {
    controller: BitrateController,
    start: Instant,
    sent: u64,
    lost: u64,
    shown_state: AllocatorState,
    signals_emitted: u64,
}

/// What a [`Replay`] holds: the controller, when it started, the packet totals,
/// and what was shown so far.
pub struct ReplayView {
    pub controller: ControllerView,
    pub start: Instant,
    pub sent: u64,
    pub lost: u64,
    pub shown_state: AllocatorState,
    pub signals_emitted: u64,
}

impl ReplayView {
    pub open spec fn fresh(target_bps: u64, start: Instant) -> Self {
        ReplayView {
            controller: ControllerView::fresh(target_bps, start),
            start,
            sent: 0,
            lost: 0,
            shown_state: AllocatorState::Stable,
            signals_emitted: 0,
        }
    }

    /// When a tick takes place.
    pub open spec fn time(self, t: Tick) -> Instant {
        Instant { nanos: (self.start.nanos + t.elapsed_ms * 1_000_000) as u64 }
    }

    /// The transport stats that a tick leads to.
    pub open spec fn stats(self, t: Tick) -> TransportStats {
        TransportStats {
            estimated_send_rate_bps: t.estimated_send_rate_bps,
            packets_sent: (self.sent + t.interval_sent) as u64,
            packets_lost: (self.lost + t.interval_lost) as u64,
            bytes_sent: 0,
            rtt_us: t.rtt_us,
        }
    }

    /// Whether the numbers of a tick are in range.
    pub open spec fn accepts(self, t: Tick) -> bool {
        &&& self.start.nanos + t.elapsed_ms * 1_000_000 <= u64::MAX
        &&& self.sent + t.interval_sent <= u64::MAX
        &&& self.lost + t.interval_lost <= u64::MAX
        &&& self.controller.accepts(self.stats(t), self.time(t))
    }

    /// The replay after a tick.
    pub open spec fn stepped(self, t: Tick) -> Self {
        ReplayView {
            controller: self.controller.updated(self.stats(t), self.time(t)),
            sent: self.stats(t).packets_sent,
            lost: self.stats(t).packets_lost,
            ..self
        }
    }
}

impl View for Replay {
    type V = ReplayView;

    closed spec fn view(&self) -> ReplayView {
        ReplayView {
            controller: self.controller@,
            start: self.start,
            sent: self.sent,
            lost: self.lost,
            shown_state: self.shown_state,
            signals_emitted: self.signals_emitted,
        }
    }
}

/// What a tick of a replay is reported as, with defaults where nothing was signalled.
#[derive(Debug, Clone)]
pub struct Row {
    pub elapsed_ms: u64,
    pub estimate_bps: u64,
    pub loss_rate: Binary64,
    pub rtt_us: u64,
    pub trend: TrendDirection,
    pub state: AllocatorState,
    pub ceiling_bps: u64,
    pub probe_target_bps: u64,
}

impl Replay {
    pub fn new(target_bps: u64, start: Instant) -> (r: Self)
        ensures
            r@ == ReplayView::fresh(target_bps, start),
            r@.controller.wf(),
    {
        Replay {
            controller: BitrateController::new(target_bps, start),
            start,
            sent: 0,
            lost: 0,
            shown_state: AllocatorState::Stable,
            signals_emitted: 0,
        }
    }

    /// The state of the controller.
    pub fn state(&self) -> (r: AllocatorState)
        ensures
            r == self@.controller.allocator.state,
    {
        self.controller.state()
    }

    /// The ceiling of the controller.
    pub fn ceiling_bps(&self) -> (r: u64)
        ensures
            r == self@.controller.allocator.ceiling_bps,
    {
        self.controller.ceiling_bps()
    }

    /// The number of signals that were shown.
    pub fn signals_emitted(&self) -> (r: u64)
        ensures
            r == self@.signals_emitted,
    {
        self.signals_emitted
    }

    /// Feeds the next tick to the controller.
    pub fn step(&mut self, tick: &Tick) -> (r: Option<BitrateSignal>)
        requires
            old(self)@.controller.wf(),
            old(self)@.accepts(*tick),
        ensures
            final(self)@ == old(self)@.stepped(*tick),
            final(self)@.controller.wf(),
            r is Some == old(self)@.controller.signals(
                old(self)@.stats(*tick),
                old(self)@.time(*tick),
            ),
            r matches Some(signal) ==> old(self)@.controller.announces(
                old(self)@.stats(*tick),
                old(self)@.time(*tick),
                signal,
            ),
    {
        self.sent = self.sent + tick.interval_sent;
        self.lost = self.lost + tick.interval_lost;
        let now = self.start.after(Duration::from_millis(tick.elapsed_ms));
        let stats = TransportStats {
            estimated_send_rate_bps: tick.estimated_send_rate_bps,
            packets_sent: self.sent,
            packets_lost: self.lost,
            bytes_sent: 0,
            rtt_us: tick.rtt_us,
        };
        self.controller.update(stats, now)
    }

    /// Counts a signal as shown. Returns whether its state differs from the one
    /// shown before.
    pub fn show(&mut self, signal: &BitrateSignal) -> (changed: bool)
        requires
            old(self)@.signals_emitted < u64::MAX,
        ensures
            changed == (signal.state != old(self)@.shown_state),
            final(self)@ == (ReplayView {
                shown_state: signal.state,
                signals_emitted: (old(self)@.signals_emitted + 1) as u64,
                ..old(self)@
            }),
    {
        let changed: bool = signal.state != self.shown_state;
        self.signals_emitted = self.signals_emitted + 1;
        self.shown_state = signal.state;
        changed
    }

    /// The report of a tick, after it was fed to the controller.
    pub fn row(&self, tick: &Tick, signal: &Option<BitrateSignal>) -> (r: Row)
        ensures
            r.elapsed_ms == tick.elapsed_ms,
            r.rtt_us == tick.rtt_us,
            r.state == self@.controller.allocator.state,
            r.ceiling_bps == self@.controller.allocator.ceiling_bps,
            match signal {
                Some(s) => {
                    &&& r.estimate_bps == s.estimate.bps
                    &&& r.loss_rate == s.estimate.loss_rate
                    &&& r.trend == s.estimate.trend
                    &&& r.probe_target_bps == match s.probe {
                        Some(p) => p.target_bps,
                        None => 0,
                    }
                },
                None => {
                    &&& r.estimate_bps == 0
                    &&& r.loss_rate@ == (Value::Finite { units: 0 })
                    &&& r.trend == TrendDirection::Inconclusive
                    &&& r.probe_target_bps == 0
                },
            },
    {
        let mut row = Row {
            elapsed_ms: tick.elapsed_ms,
            estimate_bps: 0,
            loss_rate: Binary64::from_bits(0),
            rtt_us: tick.rtt_us,
            trend: TrendDirection::Inconclusive,
            state: self.controller.state(),
            ceiling_bps: self.controller.ceiling_bps(),
            probe_target_bps: 0,
        };
        if let Some(s) = signal {
            row.estimate_bps = s.estimate.bps;
            row.loss_rate = s.estimate.loss_rate;
            row.trend = s.estimate.trend;
            if let Some(p) = &s.probe {
                row.probe_target_bps = p.target_bps;
            }
        }
        row
    }
}

} // verus!

//! Kendall's Tau trend detector with collapse window.
//!
//! Classifies a time series of samples as rising, falling, or indeterminate.
//! Uses Kendall's Tau rank correlation, which is robust to outliers and
//! does not assume a particular distribution.

use std::collections::VecDeque;

use crate::binary64::Binary64;
use crate::clock::{elapsed, Instant};
use crate::config::{
    SAMPLE_EPSILON, TREND_COLLAPSE_WINDOW_NANOS, TREND_DOWNWARD_PROBE, TREND_DOWNWARD_THRESHOLD,
    TREND_MIN_SAMPLES, TREND_PROBE_SAMPLES, TREND_REQUIRED_SAMPLES, TREND_UPWARD_THRESHOLD,
};
use crate::value::{
    absolute, decoded, difference, larger, lemma_of_positive, less, of_int, quotient, smaller,
    Value,
};
use vstd::prelude::*;

verus! {

#[derive(Debug, Clone, Copy, PartialEq, Eq, Structural)]
pub enum TrendDirection {
    Upward,
    Downward,
    Stable,
    Inconclusive,
}

/// Tracks a time series of samples and classifies the trend.
pub struct TrendDetector {
    samples: VecDeque<Binary64>,
    max_samples: usize,
    last_added: Option<(Instant, Binary64)>,
    upward_threshold: Binary64,
    downward_threshold: Binary64,
    min_samples: usize,
}

/// What a [`TrendDetector`] holds: the window of samples, oldest first, the
/// sample that was added last, and its settings.
pub struct TrendView {
    pub samples: Seq<Value>,
    pub max_samples: nat,
    pub min_samples: nat,
    pub last_added: Option<(Instant, Value)>,
    pub upward_threshold: Value,
    pub downward_threshold: Value,
}

/// The numbers that some doubles stand for.
spec fn values(samples: Seq<Binary64>) -> Seq<Value> {
    samples.map_values(|x: Binary64| x@)
}

/// Whether going from `a` to `b` is a step up, or with `!up` a step down.
pub open spec fn steps(a: Value, b: Value, up: bool) -> bool {
    if up {
        less(a, b)
    } else {
        less(b, a)
    }
}

/// The number of samples after the `i`-th and before the `j`-th that are larger
/// (with `!up`, smaller) than the `i`-th.
pub open spec fn steps_from(s: Seq<Value>, i: int, j: int, up: bool) -> nat
    decreases j - i,
{
    if j <= i + 1 {
        0
    } else {
        steps_from(s, i, j - 1, up) + if steps(s[i], s[j - 1], up) {
            1nat
        } else {
            0
        }
    }
}

/// The number of pairs of samples, the earlier one among the first `i`, of which
/// the later one is larger (with `!up`, smaller).
pub open spec fn pairs_before(s: Seq<Value>, i: int, up: bool) -> nat
    decreases i,
{
    if i <= 0 {
        0
    } else {
        pairs_before(s, i - 1, up) + steps_from(s, i - 1, s.len() as int, up)
    }
}

/// The number of pairs of samples of which the later one is larger (with `!up`,
/// smaller). Ties count for neither.
pub open spec fn pairs(s: Seq<Value>, up: bool) -> nat {
    pairs_before(s, s.len() as int, up)
}

/// Kendall's Tau: the surplus of rising pairs over falling ones, as a share of
/// both; zero where there are none.
pub open spec fn kendalls_tau(s: Seq<Value>) -> Value {
    let rising = pairs(s, true);
    let falling = pairs(s, false);
    if rising + falling == 0 {
        Value::Finite { units: 0 }
    } else {
        quotient(of_int(rising - falling), of_int((rising + falling) as int))
    }
}

/// The largest of some numbers, if there are any.
pub open spec fn largest(s: Seq<Value>) -> Option<Value>
    decreases s.len(),
{
    if s.len() == 0 {
        None
    } else {
        match largest(s.drop_last()) {
            None => Some(s.last()),
            Some(a) => Some(larger(a, s.last())),
        }
    }
}

/// The smallest of some numbers, if there are any.
pub open spec fn smallest(s: Seq<Value>) -> Option<Value>
    decreases s.len(),
{
    if s.len() == 0 {
        None
    } else {
        match smallest(s.drop_last()) {
            None => Some(s.last()),
            Some(a) => Some(smaller(a, s.last())),
        }
    }
}

impl TrendView {
    /// The window is not overfull, and a rise is measured against the fixed threshold.
    pub open spec fn wf(self) -> bool {
        &&& self.samples.len() <= self.max_samples
        &&& self.upward_threshold == decoded(TREND_UPWARD_THRESHOLD)
    }

    /// A detector without samples.
    pub open spec fn fresh(max_samples: nat, min_samples: nat, downward_threshold: Value) -> Self {
        TrendView {
            samples: Seq::empty(),
            max_samples,
            min_samples,
            last_added: None,
            upward_threshold: decoded(TREND_UPWARD_THRESHOLD),
            downward_threshold,
        }
    }

    /// Whether a sample repeats the last one too soon to be counted.
    pub open spec fn collapses(self, value: Value, now: Instant) -> bool {
        match self.last_added {
            None => false,
            Some((time, last)) => elapsed(time, now) < TREND_COLLAPSE_WINDOW_NANOS && less(
                absolute(difference(value, last)),
                decoded(SAMPLE_EPSILON),
            ),
        }
    }

    /// The window after one more sample.
    pub open spec fn pushed(self, value: Value) -> Seq<Value> {
        let s = self.samples.push(value);
        if s.len() > self.max_samples {
            s.drop_first()
        } else {
            s
        }
    }

    /// The detector after a sample was offered.
    pub open spec fn added(self, value: Value, now: Instant) -> Self {
        if self.collapses(value, now) {
            self
        } else {
            TrendView { samples: self.pushed(value), last_added: Some((now, value)), ..self }
        }
    }

    pub open spec fn tau(self) -> Value {
        kendalls_tau(self.samples)
    }

    /// The trend that the samples show.
    pub open spec fn direction(self) -> TrendDirection {
        if self.samples.len() < self.min_samples {
            TrendDirection::Inconclusive
        } else if less(self.upward_threshold, self.tau()) {
            TrendDirection::Upward
        } else if less(self.tau(), self.downward_threshold) {
            TrendDirection::Downward
        } else {
            TrendDirection::Stable
        }
    }

    /// The detector without its samples.
    pub open spec fn cleared(self) -> Self {
        TrendView { samples: Seq::empty(), last_added: None, ..self }
    }
}

impl View for TrendDetector {
    type V = TrendView;

    closed spec fn view(&self) -> TrendView {
        TrendView {
            samples: values(self.samples@),
            max_samples: self.max_samples as nat,
            min_samples: self.min_samples as nat,
            last_added: match self.last_added {
                None => None,
                Some((time, value)) => Some((time, value@)),
            },
            upward_threshold: self.upward_threshold@,
            downward_threshold: self.downward_threshold@,
        }
    }
}

/// No sample has more steps after it than there are samples after it.
proof fn lemma_steps_bound(s: Seq<Value>, i: int, j: int)
    requires
        0 <= i < j,
    ensures
        steps_from(s, i, j, true) + steps_from(s, i, j, false) <= j - i - 1,
    decreases j,
{
    if j > i + 1 {
        lemma_steps_bound(s, i, j - 1);
        let a = s[i];
        let b = s[j - 1];
        assert(!(less(a, b) && less(b, a)));
    }
}

/// There are no more rising and falling pairs than pairs.
proof fn lemma_pairs_bound(s: Seq<Value>, i: int)
    requires
        0 <= i <= s.len(),
    ensures
        2 * (pairs_before(s, i, true) + pairs_before(s, i, false)) <= i * (2 * s.len() - i - 1),
    decreases i,
{
    if i > 0 {
        lemma_pairs_bound(s, i - 1);
        lemma_steps_bound(s, i - 1, s.len() as int);
        assert((i - 1) * (2 * s.len() - i) + 2 * (s.len() - i) == i * (2 * s.len() - i - 1))
            by (nonlinear_arith);
    }
}

impl TrendDetector {
    /// A detector that keeps the last `max_samples` samples and classifies
    /// them once there are `min_samples` of them.
    pub fn new(max_samples: usize, min_samples: usize, downward_threshold: Binary64) -> (r: Self)
        requires
            max_samples * 8 <= isize::MAX,
        ensures
            r@ == TrendView::fresh(max_samples as nat, min_samples as nat, downward_threshold@),
            r@.wf(),
    {
        let r = TrendDetector {
            samples: VecDeque::with_capacity(max_samples),
            max_samples,
            last_added: None,
            upward_threshold: Binary64::from_bits(TREND_UPWARD_THRESHOLD),
            downward_threshold,
            min_samples,
        };
        assert(r@.samples =~= Seq::empty());
        r
    }

    /// Default detector for steady-state (non-probe) mode.
    pub fn steady_state() -> (r: Self)
        ensures
            r@ == TrendView::fresh(
                TREND_REQUIRED_SAMPLES as nat,
                TREND_MIN_SAMPLES as nat,
                decoded(TREND_DOWNWARD_THRESHOLD),
            ),
            r@.wf(),
    {
        Self::new(
            TREND_REQUIRED_SAMPLES,
            TREND_MIN_SAMPLES,
            Binary64::from_bits(TREND_DOWNWARD_THRESHOLD),
        )
    }

    /// Faster detector used during probing, which reacts to small changes.
    pub fn probe_mode() -> (r: Self)
        ensures
            r@ == TrendView::fresh(
                TREND_PROBE_SAMPLES as nat,
                TREND_PROBE_SAMPLES as nat,
                decoded(TREND_DOWNWARD_PROBE),
            ),
            r@.wf(),
    {
        Self::new(
            TREND_PROBE_SAMPLES,
            TREND_PROBE_SAMPLES,
            Binary64::from_bits(TREND_DOWNWARD_PROBE),
        )
    }

    /// Adds a sample. Duplicates arriving within the collapse window are skipped
    /// to prevent rapid-fire identical updates from dominating the trend.
    pub fn add(&mut self, value: Binary64, now: Instant)
        requires
            old(self)@.wf(),
        ensures
            final(self)@ == old(self)@.added(value@, now),
            final(self)@.wf(),
    {
        if let Some((last_time, last_value)) = self.last_added {
            let distance = value.minus(last_value).abs();
            if now.duration_since(last_time).nanos < TREND_COLLAPSE_WINDOW_NANOS as u128
                && distance.less_than(Binary64::from_bits(SAMPLE_EPSILON)) {
                return;
            }
        }
        self.samples.push_back(value);
        if self.samples.len() > self.max_samples {
            let _ = self.samples.pop_front();
        }
        self.last_added = Some((now, value));
        assert(self@.samples =~= old(self)@.pushed(value@));
    }

    /// Classifies the current trend direction.
    pub fn direction(&self) -> (r: TrendDirection)
        requires
            self@.samples.len() <= 0x1_0000_0000,
        ensures
            r == self@.direction(),
    {
        if self.samples.len() < self.min_samples {
            return TrendDirection::Inconclusive;
        }
        let tau = self.kendalls_tau();
        if self.upward_threshold.less_than(tau) {
            TrendDirection::Upward
        } else if tau.less_than(self.downward_threshold) {
            TrendDirection::Downward
        } else {
            TrendDirection::Stable
        }
    }

    /// Raw trend coefficient in [-1.0, +1.0].
    pub fn coefficient(&self) -> (r: Binary64)
        requires
            self@.samples.len() <= 0x1_0000_0000,
        ensures
            r@ == self@.tau(),
    {
        self.kendalls_tau()
    }

    /// Number of samples currently stored.
    pub fn len(&self) -> (n: usize)
        ensures
            n == self@.samples.len(),
    {
        self.samples.len()
    }

    pub fn is_empty(&self) -> (r: bool)
        ensures
            r == (self@.samples.len() == 0),
    {
        self.samples.len() == 0
    }

    /// Most recent sample, if any.
    pub fn latest(&self) -> (r: Option<Binary64>)
        ensures
            r is Some == (self@.samples.len() > 0),
            r matches Some(x) ==> x@ == self@.samples.last(),
    {
        let n: usize = self.samples.len();
        if n == 0 {
            None
        } else {
            Some(self.samples[n - 1])
        }
    }

    /// Maximum sample in the window.
    pub fn max(&self) -> (r: Option<Binary64>)
        ensures
            r is Some == (self@.samples.len() > 0),
            r matches Some(x) ==> Some(x@) == largest(self@.samples),
    {
        let n: usize = self.samples.len();
        let ghost s = self@.samples;
        if n == 0 {
            return None;
        }
        let mut acc: Binary64 = self.samples[0];
        let mut i: usize = 1;
        assert(s.take(1).drop_last() =~= Seq::empty());
        assert(s.take(1).last() == acc@);
        assert(largest(s.take(1).drop_last()) is None);
        while i < n
            invariant
                1 <= i <= n,
                n == self.samples@.len(),
                s == values(self.samples@),
                largest(s.take(i as int)) == Some(acc@),
            decreases n - i,
        {
            let x: Binary64 = self.samples[i];
            assert(s.take(i + 1).drop_last() =~= s.take(i as int));
            assert(s.take(i + 1).last() == x@);
            acc = acc.max(x);
            i = i + 1;
        }
        assert(s.take(n as int) =~= s);
        Some(acc)
    }

    /// Minimum sample in the window.
    pub fn min(&self) -> (r: Option<Binary64>)
        ensures
            r is Some == (self@.samples.len() > 0),
            r matches Some(x) ==> Some(x@) == smallest(self@.samples),
    {
        let n: usize = self.samples.len();
        let ghost s = self@.samples;
        if n == 0 {
            return None;
        }
        let mut acc: Binary64 = self.samples[0];
        let mut i: usize = 1;
        assert(s.take(1).drop_last() =~= Seq::empty());
        assert(s.take(1).last() == acc@);
        assert(smallest(s.take(1).drop_last()) is None);
        while i < n
            invariant
                1 <= i <= n,
                n == self.samples@.len(),
                s == values(self.samples@),
                smallest(s.take(i as int)) == Some(acc@),
            decreases n - i,
        {
            let x: Binary64 = self.samples[i];
            assert(s.take(i + 1).drop_last() =~= s.take(i as int));
            assert(s.take(i + 1).last() == x@);
            acc = acc.min(x);
            i = i + 1;
        }
        assert(s.take(n as int) =~= s);
        Some(acc)
    }

    fn kendalls_tau(&self) -> (r: Binary64)
        requires
            self@.samples.len() <= 0x1_0000_0000,
        ensures
            r@ == self@.tau(),
    {
        let n: usize = self.samples.len();
        let ghost s = self@.samples;
        let mut concordant: i64 = 0;
        let mut discordant: i64 = 0;
        let mut i: usize = 0;
        while i < n
            invariant
                i <= n,
                n == self.samples@.len(),
                n <= 0x1_0000_0000,
                s == values(self.samples@),
                concordant == pairs_before(s, i as int, true),
                discordant == pairs_before(s, i as int, false),
            decreases n - i,
        {
            let mut j: usize = i + 1;
            let ghost c0 = concordant;
            let ghost d0 = discordant;
            proof {
                lemma_pairs_room(s, i as int);
            }
            while j < n
                invariant
                    i < j <= n,
                    n == self.samples@.len(),
                    n <= 0x1_0000_0000,
                    s == values(self.samples@),
                    c0 + d0 + (n - i - 1) <= i64::MAX,
                    c0 >= 0,
                    d0 >= 0,
                    concordant == c0 + steps_from(s, i as int, j as int, true),
                    discordant == d0 + steps_from(s, i as int, j as int, false),
                decreases n - j,
            {
                // The j-th is later than the i-th. Concordant = later sample is larger.
                let a: Binary64 = self.samples[i];
                let b: Binary64 = self.samples[j];
                assert(s[i as int] == a@ && s[j as int] == b@);
                proof {
                    lemma_steps_bound(s, i as int, j as int);
                    assert(!(less(a@, b@) && less(b@, a@)));
                }
                if a.less_than(b) {
                    concordant = concordant + 1;
                } else if b.less_than(a) {
                    discordant = discordant + 1;
                }
                // Ties contribute to neither.
                j = j + 1;
            }
            i = i + 1;
        }
        proof {
            lemma_pairs_room(s, n as int);
        }
        let total: i64 = concordant + discordant;
        if total == 0 {
            return Binary64::from_bits(0);
        }
        proof {
            lemma_of_positive(total as int);
        }
        Binary64::from_i64(concordant - discordant).over(Binary64::from_i64(total))
    }

    pub fn clear(&mut self)
        ensures
            final(self)@ == old(self)@.cleared(),
            old(self)@.wf() ==> final(self)@.wf(),
    {
        self.samples.clear();
        self.last_added = None;
        assert(self@.samples =~= Seq::empty());
    }
}

/// The pairs of up to 2^32 samples can be counted in an `i64`.
pub proof fn lemma_pairs_room(s: Seq<Value>, i: int)
    requires
        0 <= i <= s.len(),
        s.len() <= 0x1_0000_0000,
    ensures
        pairs_before(s, i, true) + pairs_before(s, i, false) + if i < s.len() {
            s.len() - i - 1
        } else {
            0
        } <= i64::MAX,
{
    lemma_pairs_bound(s, i);
    let n = s.len() as int;
    if i < n {
        assert(i * (2 * n - i - 1) + 2 * (n - i - 1) <= n * (n - 1)) by (nonlinear_arith)
            requires
                0 <= i < n,
        ;
    } else {
        assert(i * (2 * n - i - 1) == n * (n - 1)) by (nonlinear_arith)
            requires
                i == n,
        ;
    }
    assert(n * (n - 1) <= 0x1_0000_0000 * 0xffff_ffff) by (nonlinear_arith)
        requires
            0 <= n <= 0x1_0000_0000,
    ;
}

} // verus!

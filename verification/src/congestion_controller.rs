//! Discrete part of the delay-gradient congestion detector (trendline
//! estimator) and of the AIMD foveation controller.
//!
//! The arithmetic on delays and on the foveation spread `C` is floating point
//! and is done by the caller; what is decided here is the packet-count and
//! clock bookkeeping, the window of recent delay samples, the bandwidth-usage
//! hypothesis and the next rate-control action.

use crate::window::{SlidingWindow, spec_push};
use vstd::prelude::*;

verus! {

/// Number of packet delay samples used for the linear regression.
pub const WINDOW_SIZE: usize = 5;

/// Cap on the number of recorded deltas.
pub const MAX_NUM_OF_DELTAS: i64 = 1000;

/// Cap on the delta count that weights the trend.
pub const MAX_TREND_WEIGHT: i64 = 60;

/// Cap on the time step (ms) of the adaptive threshold update.
pub const MAX_THRESHOLD_TIME_DELTA_MS: i64 = 100;

/// Rate-control action: multiplicative decrease of `C`.
pub const ACTION_DECREASE: i32 = 0;
/// Rate-control action: keep `C`.
pub const ACTION_HOLD: i32 = 1;
/// Rate-control action: additive increase of `C`.
pub const ACTION_INCREASE: i32 = 2;

/// When true, the effective spread is modulated by gaze variance.
pub const ENABLE_GAZE_VARIANCE_MODULATION: bool = false;
/// When true, fixation confidence scales the effective spread down.
pub const ENABLE_FIXATION_CONFIDENCE: bool = true;
/// When true, predictive Gaussian widening is applied on high gaze motion.
pub const ENABLE_PREDICTIVE_GAUSSIAN: bool = false;

/// Network state detected from the delay trend.
#[allow(non_camel_case_types)]
#[derive(PartialEq, Eq, Structural, Clone, Copy, Debug)]
pub enum BandwidthUsage {
    kBwNormal,
    kBwUnderusing,
    kBwOverusing,
    kLast,
}

/// Returns `(gaze_variance_modulation, fixation_confidence, predictive_gaussian)`.
pub fn get_eyenexus_feature_toggles() -> (r: (bool, bool, bool))
    ensures
        r == (ENABLE_GAZE_VARIANCE_MODULATION, ENABLE_FIXATION_CONFIDENCE, ENABLE_PREDICTIVE_GAUSSIAN),
        r == (false, true, false),
{
    (ENABLE_GAZE_VARIANCE_MODULATION, ENABLE_FIXATION_CONFIDENCE, ENABLE_PREDICTIVE_GAUSSIAN)
}

// ---------------------------------------------------------------------------
// AIMD action

/// Whether the network has bandwidth available: it is normal or underused.
pub open spec fn bandwidth_available(usage: BandwidthUsage) -> bool {
    usage == BandwidthUsage::kBwNormal || usage == BandwidthUsage::kBwUnderusing
}

/// The action after one update of the controller, given the detected network
/// state: with bandwidth available (a normal or underused network) `C` is
/// increased additively; overuse decreases it multiplicatively; an unknown
/// state holds it.
pub open spec fn spec_next_action(action: i32, usage: BandwidthUsage) -> i32 {
    if bandwidth_available(usage) {
        ACTION_INCREASE
    } else if usage == BandwidthUsage::kBwOverusing {
        ACTION_DECREASE
    } else {
        ACTION_HOLD
    }
}

/// Next rate-control action of the foveation controller.
pub fn next_action(action: i32, usage: BandwidthUsage) -> (r: i32)
    ensures
        r == spec_next_action(action, usage),
{
    if usage == BandwidthUsage::kBwNormal || usage == BandwidthUsage::kBwUnderusing {
        ACTION_INCREASE
    } else if usage == BandwidthUsage::kBwOverusing {
        ACTION_DECREASE
    } else {
        ACTION_HOLD
    }
}

/// The action after a sequence of updates.
pub open spec fn run_actions(action: i32, usages: Seq<BandwidthUsage>) -> i32
    decreases usages.len(),
{
    if usages.len() == 0 {
        action
    } else {
        run_actions(spec_next_action(action, usages[0]), usages.drop_first())
    }
}

/// Valid actions are decrease, hold and increase.
pub open spec fn valid_action(a: i32) -> bool {
    a == ACTION_DECREASE || a == ACTION_HOLD || a == ACTION_INCREASE
}

/// The controller only ever moves between the three valid actions.
pub proof fn lemma_action_stays_valid(action: i32, usage: BandwidthUsage)
    requires
        valid_action(action),
    ensures
        valid_action(spec_next_action(action, usage)),
{
}

/// Detected overuse always leads to a decrease, and an unknown state to a
/// hold, whatever the previous action; a normal and an underused network are
/// treated alike.
pub proof fn lemma_overuse_decreases(action: i32)
    ensures
        spec_next_action(action, BandwidthUsage::kBwOverusing) == ACTION_DECREASE,
        spec_next_action(action, BandwidthUsage::kLast) == ACTION_HOLD,
        spec_next_action(action, BandwidthUsage::kBwUnderusing) == spec_next_action(
            action,
            BandwidthUsage::kBwNormal,
        ),
{
}

/// The controller increases `C` exactly when bandwidth is available,
/// whatever the previous action, so a sequence of updates ends in an increase
/// exactly when its last update saw bandwidth available.
pub proof fn lemma_increase_iff_bandwidth(action: i32, usages: Seq<BandwidthUsage>)
    requires
        usages.len() >= 1,
    ensures
        (run_actions(action, usages) == ACTION_INCREASE) == bandwidth_available(usages[usages.len() - 1]),
    decreases usages.len(),
{
    let a1 = spec_next_action(action, usages[0]);
    let rest = usages.drop_first();
    if usages.len() == 1 {
        assert(run_actions(a1, rest) == a1);
    } else {
        lemma_increase_iff_bandwidth(a1, rest);
        assert(rest[rest.len() - 1] == usages[usages.len() - 1]);
    }
}

// ---------------------------------------------------------------------------
// Trendline estimator: discrete state

/// Where the weighted delay trend lies relative to the adaptive threshold.
#[derive(PartialEq, Eq, Structural, Clone, Copy, Debug)]
pub enum TrendZone {
    /// Above `threshold`.
    Above,
    /// Below `-threshold`.
    Below,
    /// Between the two.
    Within,
}

/// What the caller does to its over-use timer after a detection step.
#[derive(PartialEq, Eq, Structural, Clone, Copy, Debug)]
pub enum OveruseTimer {
    /// Leave the timer as the caller advanced it.
    Keep,
    /// Overuse was declared: the timer restarts from zero.
    Restart,
    /// The trend is not above the threshold: the timer stops (set to -1).
    Stop,
}

/// One detection step as seen by the discrete state: where the trend lies,
/// whether the (already advanced) over-use timer exceeds its threshold, and
/// whether the trend did not fall since the previous step.
#[derive(PartialEq, Eq, Structural, Clone, Copy, Debug)]
pub struct DetectEvent {
    pub zone: TrendZone,
    pub timer_exceeded: bool,
    pub trend_rising: bool,
}

/// Whether a detection step from over-use counter `counter` declares overuse.
pub open spec fn fires(counter: int, ev: DetectEvent) -> bool {
    ev.zone == TrendZone::Above && ev.timer_exceeded && counter + 1 > 1 && ev.trend_rising
}

/// Over-use counter after a detection step.
pub open spec fn step_counter(counter: int, ev: DetectEvent) -> int {
    if ev.zone == TrendZone::Above {
        if fires(counter, ev) {
            0
        } else {
            counter + 1
        }
    } else {
        0
    }
}

/// Hypothesis after a detection step.
pub open spec fn step_hypothesis(counter: int, hyp: BandwidthUsage, ev: DetectEvent) -> BandwidthUsage {
    match ev.zone {
        TrendZone::Above => if fires(counter, ev) {
            BandwidthUsage::kBwOverusing
        } else {
            hyp
        },
        TrendZone::Below => BandwidthUsage::kBwUnderusing,
        TrendZone::Within => BandwidthUsage::kBwNormal,
    }
}

/// Timer action of a detection step.
pub open spec fn step_timer(counter: int, ev: DetectEvent) -> OveruseTimer {
    if ev.zone == TrendZone::Above {
        if fires(counter, ev) {
            OveruseTimer::Restart
        } else {
            OveruseTimer::Keep
        }
    } else {
        OveruseTimer::Stop
    }
}

/// Counter and hypothesis after a sequence of detection steps.
pub open spec fn detect_run(counter: int, hyp: BandwidthUsage, evs: Seq<DetectEvent>) -> (int, BandwidthUsage)
    decreases evs.len(),
{
    if evs.len() == 0 {
        (counter, hyp)
    } else {
        let prev = detect_run(counter, hyp, evs.drop_last());
        (step_counter(prev.0, evs.last()), step_hypothesis(prev.0, prev.1, evs.last()))
    }
}

/// Integer state of the trendline estimator, with the window of the most
/// recent packet delay samples of type `P`.
pub struct TrendlineState<P> {
    /// Number of recorded deltas, capped at `MAX_NUM_OF_DELTAS`.
    pub num_of_deltas: i64,
    /// Arrival time of the first packet (ms), -1 before any.
    pub first_arrival_time_ms: i64,
    /// Time of the last threshold update (ms), -1 before any.
    pub last_update_ms: i64,
    /// Number of consecutive above-threshold steps since the last reset.
    pub overuse_counter: i64,
    /// Current network state hypothesis.
    pub hypothesis: BandwidthUsage,
    /// Predicted network state (kept at normal).
    pub hypothesis_predicted: BandwidthUsage,
    /// Regression window of the most recent packet delay samples.
    pub delay_hist: SlidingWindow<P>,
}

impl<P> TrendlineState<P> {
    /// The packet delay samples in the regression window, oldest first.
    pub open spec fn delays(&self) -> Seq<P> {
        self.delay_hist@
    }

    /// Number of delay samples the window keeps at most.
    pub open spec fn delay_capacity(&self) -> nat {
        self.delay_hist.capacity()
    }

    /// Initial state: no delta, no packet, no threshold update, normal network.
    pub fn new() -> (s: Self)
        ensures
            s.num_of_deltas == 0,
            s.first_arrival_time_ms == -1,
            s.last_update_ms == -1,
            s.overuse_counter == 0,
            s.hypothesis == BandwidthUsage::kBwNormal,
            s.hypothesis_predicted == BandwidthUsage::kBwNormal,
            s.delays() == Seq::<P>::empty(),
            s.delay_capacity() == WINDOW_SIZE,
    {
        TrendlineState {
            num_of_deltas: 0,
            first_arrival_time_ms: -1,
            last_update_ms: -1,
            overuse_counter: 0,
            hypothesis: BandwidthUsage::kBwNormal,
            hypothesis_predicted: BandwidthUsage::kBwNormal,
            delay_hist: SlidingWindow::new(WINDOW_SIZE),
        }
    }

    /// Counts one more delta (capped at `MAX_NUM_OF_DELTAS`), takes the first
    /// packet's arrival time as origin when there is none yet, and returns the
    /// arrival time relative to that origin.
    pub fn record_arrival(&mut self, arrival_time_ms: i64) -> (rel: i64)
        requires
            old(self).num_of_deltas < i64::MAX,
            i64::MIN <= arrival_time_ms - (if old(self).first_arrival_time_ms == -1 {
                arrival_time_ms
            } else {
                old(self).first_arrival_time_ms
            }) <= i64::MAX,
        ensures
            final(self).num_of_deltas == (if old(self).num_of_deltas + 1 < MAX_NUM_OF_DELTAS {
                old(self).num_of_deltas + 1
            } else {
                MAX_NUM_OF_DELTAS as int
            }),
            final(self).first_arrival_time_ms == (if old(self).first_arrival_time_ms == -1 {
                arrival_time_ms
            } else {
                old(self).first_arrival_time_ms
            }),
            rel == arrival_time_ms - final(self).first_arrival_time_ms,
            final(self).last_update_ms == old(self).last_update_ms,
            final(self).overuse_counter == old(self).overuse_counter,
            final(self).hypothesis == old(self).hypothesis,
            final(self).hypothesis_predicted == old(self).hypothesis_predicted,
            final(self).delays() == old(self).delays(),
            final(self).delay_capacity() == old(self).delay_capacity(),
    {
        let n: i64 = self.num_of_deltas + 1;
        self.num_of_deltas = if n < MAX_NUM_OF_DELTAS {
            n
        } else {
            MAX_NUM_OF_DELTAS
        };
        if self.first_arrival_time_ms == -1 {
            self.first_arrival_time_ms = arrival_time_ms;
        }
        arrival_time_ms - self.first_arrival_time_ms
    }

    /// Adds a delay sample to the regression window, dropping the oldest one
    /// when the window is full.
    pub fn push_delay(&mut self, sample: P)
        ensures
            final(self).delays() == spec_push(old(self).delays(), old(self).delay_capacity(), sample),
            final(self).delay_capacity() == old(self).delay_capacity(),
            final(self).delays().len() <= final(self).delay_capacity(),
            final(self).num_of_deltas == old(self).num_of_deltas,
            final(self).first_arrival_time_ms == old(self).first_arrival_time_ms,
            final(self).last_update_ms == old(self).last_update_ms,
            final(self).overuse_counter == old(self).overuse_counter,
            final(self).hypothesis == old(self).hypothesis,
            final(self).hypothesis_predicted == old(self).hypothesis_predicted,
    {
        self.delay_hist.push(sample);
    }

    /// Whether the regression window holds `WINDOW_SIZE` samples, so that a
    /// trend can be fitted.
    pub fn delay_window_full(&self) -> (b: bool)
        ensures
            b == (self.delays().len() == WINDOW_SIZE),
    {
        self.delay_hist.len() == WINDOW_SIZE
    }

    /// The delay samples of the regression window, oldest first.
    pub fn delay_samples(&self) -> (s: &std::collections::VecDeque<P>)
        ensures
            s@ == self.delays(),
    {
        self.delay_hist.samples()
    }

    /// Clock of the adaptive threshold. Starts the clock at `now_ms` on the
    /// first call. A big latency spike only moves the clock (`None`: the
    /// threshold is not adapted); otherwise returns the elapsed time since the
    /// last update, capped at `MAX_THRESHOLD_TIME_DELTA_MS`, and moves the
    /// clock to `now_ms`.
    pub fn threshold_clock(&mut self, now_ms: i64, big_spike: bool) -> (delta: Option<i64>)
        requires
            !big_spike ==> i64::MIN <= now_ms - (if old(self).last_update_ms == -1 {
                now_ms
            } else {
                old(self).last_update_ms
            }) <= i64::MAX,
        ensures
            final(self).last_update_ms == now_ms,
            big_spike ==> delta is None,
            !big_spike ==> delta == Some({
                let elapsed: int = now_ms - (if old(self).last_update_ms == -1 {
                    now_ms
                } else {
                    old(self).last_update_ms
                });
                (if elapsed < MAX_THRESHOLD_TIME_DELTA_MS {
                    elapsed
                } else {
                    MAX_THRESHOLD_TIME_DELTA_MS as int
                }) as i64
            }),
            final(self).num_of_deltas == old(self).num_of_deltas,
            final(self).first_arrival_time_ms == old(self).first_arrival_time_ms,
            final(self).overuse_counter == old(self).overuse_counter,
            final(self).hypothesis == old(self).hypothesis,
            final(self).hypothesis_predicted == old(self).hypothesis_predicted,
            final(self).delays() == old(self).delays(),
            final(self).delay_capacity() == old(self).delay_capacity(),
    {
        if self.last_update_ms == -1 {
            self.last_update_ms = now_ms;
        }
        if big_spike {
            self.last_update_ms = now_ms;
            return None;
        }
        let elapsed: i64 = now_ms - self.last_update_ms;
        let delta: i64 = if elapsed < MAX_THRESHOLD_TIME_DELTA_MS {
            elapsed
        } else {
            MAX_THRESHOLD_TIME_DELTA_MS
        };
        self.last_update_ms = now_ms;
        Some(delta)
    }

    /// First part of a detection step. With fewer than two deltas the
    /// hypothesis is reset to normal and nothing else happens (`None`);
    /// otherwise returns the weight of the trend, the delta count capped at
    /// `MAX_TREND_WEIGHT`.
    pub fn detect_gate(&mut self) -> (weight: Option<i64>)
        ensures
            old(self).num_of_deltas < 2 ==> weight is None && final(self).hypothesis == BandwidthUsage::kBwNormal,
            old(self).num_of_deltas >= 2 ==> final(self).hypothesis == old(self).hypothesis && weight == Some(
                if old(self).num_of_deltas < MAX_TREND_WEIGHT {
                    old(self).num_of_deltas
                } else {
                    MAX_TREND_WEIGHT
                },
            ),
            final(self).num_of_deltas == old(self).num_of_deltas,
            final(self).first_arrival_time_ms == old(self).first_arrival_time_ms,
            final(self).last_update_ms == old(self).last_update_ms,
            final(self).overuse_counter == old(self).overuse_counter,
            final(self).hypothesis_predicted == old(self).hypothesis_predicted,
            final(self).delays() == old(self).delays(),
            final(self).delay_capacity() == old(self).delay_capacity(),
    {
        if self.num_of_deltas < 2 {
            self.hypothesis = BandwidthUsage::kBwNormal;
            return None;
        }
        Some(
            if self.num_of_deltas < MAX_TREND_WEIGHT {
                self.num_of_deltas
            } else {
                MAX_TREND_WEIGHT
            },
        )
    }

    /// Second part of a detection step: updates the over-use counter and the
    /// hypothesis. Overuse is declared when the trend is above the threshold,
    /// the over-use timer exceeds its threshold, this is not the first
    /// consecutive above-threshold step, and the trend did not fall. Below the
    /// negative threshold the network is underused, in between it is normal.
    pub fn detect_transition(&mut self, ev: DetectEvent) -> (timer: OveruseTimer)
        requires
            ev.zone == TrendZone::Above ==> old(self).overuse_counter < i64::MAX,
        ensures
            final(self).overuse_counter == step_counter(old(self).overuse_counter as int, ev),
            final(self).hypothesis == step_hypothesis(old(self).overuse_counter as int, old(self).hypothesis, ev),
            ev.zone == TrendZone::Above && !(ev.timer_exceeded && old(self).overuse_counter >= 1 && ev.trend_rising)
                ==> final(self).hypothesis == old(self).hypothesis,
            timer == step_timer(old(self).overuse_counter as int, ev),
            final(self).num_of_deltas == old(self).num_of_deltas,
            final(self).first_arrival_time_ms == old(self).first_arrival_time_ms,
            final(self).last_update_ms == old(self).last_update_ms,
            final(self).hypothesis_predicted == old(self).hypothesis_predicted,
            final(self).delays() == old(self).delays(),
            final(self).delay_capacity() == old(self).delay_capacity(),
    {
        match ev.zone {
            TrendZone::Above => {
                self.overuse_counter = self.overuse_counter + 1;
                if ev.timer_exceeded && self.overuse_counter > 1 && ev.trend_rising {
                    self.overuse_counter = 0;
                    self.hypothesis = BandwidthUsage::kBwOverusing;
                    OveruseTimer::Restart
                } else {
                    OveruseTimer::Keep
                }
            },
            TrendZone::Below => {
                self.overuse_counter = 0;
                self.hypothesis = BandwidthUsage::kBwUnderusing;
                OveruseTimer::Stop
            },
            TrendZone::Within => {
                self.overuse_counter = 0;
                self.hypothesis = BandwidthUsage::kBwNormal;
                OveruseTimer::Stop
            },
        }
    }
}

/// A positive over-use counter after at least one step means the last step
/// was above the threshold.
proof fn lemma_positive_counter_after_above(counter: int, hyp: BandwidthUsage, evs: Seq<DetectEvent>)
    requires
        evs.len() >= 1,
        detect_run(counter, hyp, evs).0 > 0,
    ensures
        evs.last().zone == TrendZone::Above,
{
}

/// Overuse is only ever declared on an above-threshold step that directly
/// follows another above-threshold step: starting from a reset counter, the
/// step that turns the hypothesis to overuse and the step before it both saw
/// the trend above the threshold.
pub proof fn lemma_overuse_needs_two_above(hyp: BandwidthUsage, evs: Seq<DetectEvent>)
    requires
        evs.len() >= 1,
        detect_run(0, hyp, evs).1 == BandwidthUsage::kBwOverusing,
        detect_run(0, hyp, evs.drop_last()).1 != BandwidthUsage::kBwOverusing,
    ensures
        evs.len() >= 2,
        evs[evs.len() - 1].zone == TrendZone::Above,
        evs[evs.len() - 2].zone == TrendZone::Above,
{
    let prefix = evs.drop_last();
    let prev = detect_run(0, hyp, prefix);
    assert(fires(prev.0, evs.last()));
    assert(prev.0 >= 1);
    if prefix.len() == 0 {
        assert(prev.0 == 0);
    } else {
        lemma_positive_counter_after_above(0, hyp, prefix);
        assert(prefix.last() == evs[evs.len() - 2]);
    }
}

/// What a detection step does to the hypothesis, stated on its inputs: an
/// above-threshold step either declares overuse (only when the over-use timer
/// exceeded its threshold, an earlier consecutive above-threshold step was
/// counted, and the trend did not fall) or leaves the hypothesis as it was; a
/// step below the negative threshold means underuse; a step in between means
/// a normal network.
pub proof fn lemma_detect_hypothesis(counter: int, hyp: BandwidthUsage, ev: DetectEvent)
    ensures
        ev.zone == TrendZone::Above && !(ev.timer_exceeded && counter >= 1 && ev.trend_rising)
            ==> step_hypothesis(counter, hyp, ev) == hyp,
        ev.zone == TrendZone::Above && ev.timer_exceeded && counter >= 1 && ev.trend_rising
            ==> step_hypothesis(counter, hyp, ev) == BandwidthUsage::kBwOverusing,
        ev.zone == TrendZone::Below ==> step_hypothesis(counter, hyp, ev) == BandwidthUsage::kBwUnderusing,
        ev.zone == TrendZone::Within ==> step_hypothesis(counter, hyp, ev) == BandwidthUsage::kBwNormal,
        ev.zone == TrendZone::Above ==> (step_hypothesis(counter, hyp, ev) == hyp || step_hypothesis(
            counter,
            hyp,
            ev,
        ) == BandwidthUsage::kBwOverusing),
{
}

/// Once overuse is declared it stays declared while the trend stays above the
/// threshold: any run of above-threshold steps from an overusing hypothesis
/// ends overusing.
pub proof fn lemma_overuse_persists_above(counter: int, evs: Seq<DetectEvent>)
    requires
        forall|k: int| 0 <= k < evs.len() ==> (#[trigger] evs[k]).zone == TrendZone::Above,
    ensures
        detect_run(counter, BandwidthUsage::kBwOverusing, evs).1 == BandwidthUsage::kBwOverusing,
    decreases evs.len(),
{
    if evs.len() > 0 {
        let prefix = evs.drop_last();
        assert forall|k: int| 0 <= k < prefix.len() implies (#[trigger] prefix[k]).zone == TrendZone::Above by {
            assert(prefix[k] == evs[k]);
        }
        lemma_overuse_persists_above(counter, prefix);
        assert(evs.last().zone == TrendZone::Above);
    }
}

/// The over-use counter counts consecutive above-threshold steps: it grows by
/// one on an above-threshold step that does not declare overuse, and it is
/// zero after any other step.
pub proof fn lemma_detect_counter(counter: int, ev: DetectEvent)
    ensures
        ev.zone == TrendZone::Above && !(ev.timer_exceeded && counter >= 1 && ev.trend_rising)
            ==> step_counter(counter, ev) == counter + 1,
        !(ev.zone == TrendZone::Above && !(ev.timer_exceeded && counter >= 1 && ev.trend_rising))
            ==> step_counter(counter, ev) == 0,
{
}

/// What a detection step tells the caller to do with its over-use timer:
/// restart it when overuse is declared, keep it running on another
/// above-threshold step, and stop it otherwise.
pub proof fn lemma_detect_timer(counter: int, ev: DetectEvent)
    ensures
        ev.zone == TrendZone::Above && ev.timer_exceeded && counter >= 1 && ev.trend_rising ==> step_timer(counter, ev)
            == OveruseTimer::Restart,
        ev.zone == TrendZone::Above && !(ev.timer_exceeded && counter >= 1 && ev.trend_rising) ==> step_timer(
            counter,
            ev,
        ) == OveruseTimer::Keep,
        ev.zone != TrendZone::Above ==> step_timer(counter, ev) == OveruseTimer::Stop,
{
}

} // verus!

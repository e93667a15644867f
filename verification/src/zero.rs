//! Weight zeroing with the board's front button.
//!
//! A press starts a new baseline; sampling begins half a second after the
//! button is released (so the pressure of pressing has settled) and the
//! baseline is complete once a second and a half has passed since release
//! with at least two samples taken. This module decides which samples take
//! part and when the baseline is complete; the averaging and subtraction
//! happen where the weights are held.
use vstd::prelude::*;

verus! {

/// Settling time after release before samples count, in nanoseconds.
pub const SETTLE_NS: u64 = 500_000_000;
/// Time after release at which a baseline may complete, in nanoseconds.
pub const COMPLETE_NS: u64 = 1_500_000_000;
/// Samples a baseline needs at least.
pub const MIN_SAMPLES: usize = 2;

/// What to do with one sample.
#[derive(Clone, Copy, Debug, PartialEq, Eq, Structural)]
pub struct ZeroStep {
    /// A new press: discard the baseline sums.
    pub restart: bool,
    /// Add the sample to the baseline sums.
    pub accumulate: bool,
    /// The baseline is the sums divided by [`WeightZero::count`]; it replaces
    /// the previous baseline.
    pub complete: bool,
}

/// State of the zeroing procedure.
#[derive(Clone, Copy, Debug, Default, PartialEq, Eq, Structural)]
pub struct ZeroState {
    /// A baseline is being captured.
    pub pending: bool,
    /// The button was down at the previous sample.
    pub held: bool,
    /// When the button was released during this capture, in nanoseconds.
    pub released: Option<u64>,
    /// Samples added to the sums of this capture.
    pub count: usize,
}

/// Time since `then`, never negative.
pub open spec fn since(now: u64, then: u64) -> u64 {
    if now >= then {
        (now - then) as u64
    } else {
        0
    }
}

/// One sample of the zeroing procedure: the new state and what to do.
pub open spec fn spec_zero_step(st: ZeroState, button: bool, now: u64) -> (ZeroState, ZeroStep) {
    let restart = button && !st.held;
    let pending = if restart { true } else { st.pending };
    let released1 = if restart { None } else { st.released };
    let count1 = if restart { 0 } else { st.count };
    let released = if !button && st.held && pending { Some(now) } else { released1 };
    let sampling = pending && !button && released is Some && since(now, released->0) >= SETTLE_NS;
    let count = if sampling {
        if count1 < usize::MAX { (count1 + 1) as usize } else { count1 }
    } else {
        count1
    };
    let complete = sampling && since(now, released->0) >= COMPLETE_NS && count >= MIN_SAMPLES;
    (
        ZeroState { pending: pending && !complete, held: button, released, count },
        ZeroStep { restart, accumulate: sampling, complete },
    )
}

/// Session-only weight baseline, sampled after the front button is released.
#[derive(Default)]
pub struct WeightZero {
    state: ZeroState,
}

impl View for WeightZero {
    type V = ZeroState;

    closed spec fn view(&self) -> ZeroState {
        self.state
    }
}

impl WeightZero {
    /// No baseline capture in progress, button up.
    pub fn new() -> (res: Self)
        ensures
            res@ == (ZeroState { pending: false, held: false, released: None, count: 0 }),
    {
        WeightZero { state: ZeroState { pending: false, held: false, released: None, count: 0 } }
    }

    /// Whether a baseline is being captured.
    pub fn pending(&self) -> (res: bool)
        ensures
            res == self@.pending,
    {
        self.state.pending
    }

    /// Samples in the current baseline sums.
    pub fn count(&self) -> (res: usize)
        ensures
            res == self@.count,
    {
        self.state.count
    }

    /// Takes one sample: whether the button is down, and the time in
    /// nanoseconds on a clock that never goes back.
    pub fn observe(&mut self, button: bool, now_ns: u64) -> (res: ZeroStep)
        ensures
            (final(self)@, res) == spec_zero_step(old(self)@, button, now_ns),
    {
        let st = self.state;
        let restart = button && !st.held;
        let pending = if restart { true } else { st.pending };
        let released1 = if restart { None } else { st.released };
        let count1 = if restart { 0 } else { st.count };
        let released = if !button && st.held && pending { Some(now_ns) } else { released1 };
        let mut sampling = false;
        let mut complete = false;
        let mut count = count1;
        if pending && !button {
            if let Some(r) = released {
                let elapsed = now_ns.saturating_sub(r);
                if elapsed >= SETTLE_NS {
                    sampling = true;
                    count = count1.saturating_add(1);
                    if elapsed >= COMPLETE_NS && count >= MIN_SAMPLES {
                        complete = true;
                    }
                }
            }
        }
        self.state = ZeroState { pending: pending && !complete, held: button, released, count };
        ZeroStep { restart, accumulate: sampling, complete }
    }
}

/// A baseline completes only with the button up, at least a second and a
/// half after its release, from at least two samples; no sample is taken
/// while the button is down or within half a second of release; and a new
/// press always starts over.
pub proof fn lemma_zero_waits_for_settling(st: ZeroState, button: bool, now: u64)
    ensures
        ({
            let (next, step) = spec_zero_step(st, button, now);
            &&& step.complete ==> !button && next.released is Some
                && since(now, next.released->0) >= COMPLETE_NS && next.count >= MIN_SAMPLES
                && !next.pending
            &&& step.accumulate ==> !button && since(now, next.released->0) >= SETTLE_NS
            &&& (button && !st.held) ==> step.restart && next.pending && next.count == 0
                && next.released is None
        }),
{
}

} // verus!

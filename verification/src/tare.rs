//! Stance capture: how many loaded samples are averaged into the centered
//! stance, and when stepping off starts the capture over.
//!
//! The averaging of the samples themselves happens where they are held; this
//! module decides which samples take part.
use vstd::prelude::*;

verus! {

/// Loaded samples averaged into a stance (about a second of reports).
pub const TARE_SAMPLES: usize = 100;

/// What to do with a sample during stance capture.
#[derive(Clone, Copy, Debug, PartialEq, Eq, Structural)]
pub enum TareStep {
    /// Capture was already complete; the sample takes no part.
    Ready,
    /// Add the sample's center of gravity to the running sums.
    Accumulate,
    /// Add the sample, then the stance is the sums divided by the sample count.
    Complete,
    /// The board was unloaded: discard the sums and start over, so that two
    /// different stances are never mixed.
    Restart,
}

/// Progress of a stance capture: how many loaded samples are still needed.
pub struct Tare {
    remaining: usize,
}

/// One observation: the step taken and the samples still needed after it.
pub open spec fn spec_tare_step(remaining: nat, loaded: bool) -> (TareStep, nat) {
    if remaining == 0 {
        (TareStep::Ready, 0)
    } else if !loaded {
        (TareStep::Restart, TARE_SAMPLES as nat)
    } else if remaining == 1 {
        (TareStep::Complete, 0)
    } else {
        (TareStep::Accumulate, (remaining - 1) as nat)
    }
}

impl View for Tare {
    type V = nat;

    /// Loaded samples still needed; zero once the stance is known.
    closed spec fn view(&self) -> nat {
        self.remaining as nat
    }
}

impl Tare {
    /// A capture that needs a full set of samples, or none when disabled.
    pub fn new(enabled: bool) -> (res: Self)
        ensures
            res@ == if enabled { TARE_SAMPLES as nat } else { 0 },
            res@ <= TARE_SAMPLES,
    {
        Tare { remaining: if enabled { TARE_SAMPLES } else { 0 } }
    }

    /// Whether the stance is known.
    pub fn is_ready(&self) -> (res: bool)
        ensures
            res == (self@ == 0),
    {
        self.remaining == 0
    }

    /// Takes one sample into account; `loaded` says whether the board held
    /// enough weight for a center of gravity.
    pub fn observe(&mut self, loaded: bool) -> (res: TareStep)
        requires
            old(self)@ <= TARE_SAMPLES,
        ensures
            (res, final(self)@) == spec_tare_step(old(self)@, loaded),
            final(self)@ <= TARE_SAMPLES,
    {
        if self.remaining == 0 {
            return TareStep::Ready;
        }
        if !loaded {
            self.remaining = TARE_SAMPLES;
            return TareStep::Restart;
        }
        self.remaining = self.remaining - 1;
        if self.remaining == 0 {
            TareStep::Complete
        } else {
            TareStep::Accumulate
        }
    }
}

/// Samples still needed after observing `obs` from a fresh, enabled capture.
pub open spec fn remaining_after(obs: Seq<bool>) -> nat
    decreases obs.len(),
{
    if obs.len() == 0 {
        TARE_SAMPLES as nat
    } else {
        spec_tare_step(remaining_after(obs.drop_last()), obs.last()).1
    }
}

/// `obs` holds `n` loaded samples in a row somewhere.
pub open spec fn has_loaded_run(obs: Seq<bool>, n: nat) -> bool {
    exists|i: int| 0 <= i && i + n <= obs.len() && #[trigger] all_loaded(obs, i, i + n)
}

/// Every sample in `[a, b)` is loaded.
pub open spec fn all_loaded(obs: Seq<bool>, a: int, b: int) -> bool {
    forall|k: int| a <= k < b ==> #[trigger] obs[k]
}

/// The number of loaded samples at the end of `obs`, in a row.
pub open spec fn trailing_loaded(obs: Seq<bool>) -> nat
    decreases obs.len(),
{
    if obs.len() == 0 || !obs.last() {
        0
    } else {
        trailing_loaded(obs.drop_last()) + 1
    }
}

/// The last `trailing_loaded` samples are all loaded.
pub proof fn lemma_trailing_all_loaded(obs: Seq<bool>)
    ensures
        trailing_loaded(obs) <= obs.len(),
        forall|k: int| obs.len() - trailing_loaded(obs) <= k < obs.len() ==> #[trigger] obs[k],
    decreases obs.len(),
{
    if obs.len() > 0 && obs.last() {
        lemma_trailing_all_loaded(obs.drop_last());
        assert forall|k: int| obs.len() - trailing_loaded(obs) <= k < obs.len() implies #[trigger] obs[k] by {
            if k < obs.len() - 1 {
                assert(obs.drop_last()[k] == obs[k]);
            }
        }
    }
}

/// Stance capture completes exactly when a full set of loaded samples has
/// arrived in a row: an unloaded sample in between starts the count over.
/// Until then the count still needed is the set size minus the loaded
/// samples at the end.
pub proof fn lemma_tare_needs_consecutive_samples(obs: Seq<bool>)
    ensures
        (remaining_after(obs) == 0) == has_loaded_run(obs, TARE_SAMPLES as nat),
        !has_loaded_run(obs, TARE_SAMPLES as nat) ==> remaining_after(obs) + trailing_loaded(obs) == TARE_SAMPLES,
    decreases obs.len(),
{
    let n = TARE_SAMPLES as nat;
    if obs.len() == 0 {
        assert(!has_loaded_run(obs, n));
    } else {
        let prev = obs.drop_last();
        lemma_tare_needs_consecutive_samples(prev);
        lemma_trailing_all_loaded(obs);
        // a run in the prefix is a run in the whole
        if has_loaded_run(prev, n) {
            let i = choose|i: int| 0 <= i && i + n <= prev.len() && #[trigger] all_loaded(prev, i, i + n);
            assert forall|k: int| i <= k < i + n implies #[trigger] obs[k] by {
                assert(prev[k] == obs[k]);
            }
            assert(all_loaded(obs, i, i + n));
        } else {
            if has_loaded_run(obs, n) {
                // the run must end at the last sample
                let i = choose|i: int| 0 <= i && i + n <= obs.len() && #[trigger] all_loaded(obs, i, i + n);
                if i + n < obs.len() {
                    assert forall|k: int| i <= k < i + n implies #[trigger] prev[k] by {
                        assert(obs[k] == prev[k]);
                    }
                    assert(all_loaded(prev, i, i + n));
                    assert(false);
                }
                assert(obs.last()) by {
                    assert(obs[obs.len() - 1]);
                }
                // the whole run of n is trailing, so the prefix ended with n - 1 loaded
                lemma_trailing_all_loaded(prev);
                assert(trailing_loaded(prev) >= n - 1) by {
                    if trailing_loaded(prev) < n - 1 {
                        let j = prev.len() - trailing_loaded(prev) - 1;
                        assert(0 <= j < prev.len());
                        lemma_trailing_is_maximal(prev);
                        assert(!prev[j]);
                        assert(i <= j);
                        assert(obs[j] == prev[j]);
                    }
                }
            } else {
                if obs.last() {
                    assert(trailing_loaded(obs) == trailing_loaded(prev) + 1);
                    if trailing_loaded(prev) + 1 >= n {
                        let i = obs.len() - n;
                        assert forall|k: int| i <= k < i + n implies #[trigger] obs[k] by {}
                        assert(all_loaded(obs, i, i + n));
                        assert(false);
                    }
                }
            }
        }
    }
}

/// The sample just before the trailing loaded run, if any, is unloaded.
proof fn lemma_trailing_is_maximal(obs: Seq<bool>)
    ensures
        trailing_loaded(obs) < obs.len() ==> !obs[obs.len() - trailing_loaded(obs) - 1],
    decreases obs.len(),
{
    if obs.len() > 0 && obs.last() {
        lemma_trailing_is_maximal(obs.drop_last());
        if trailing_loaded(obs) < obs.len() {
            assert(obs.drop_last()[obs.len() - trailing_loaded(obs) - 1] == obs[obs.len() - trailing_loaded(obs) - 1]);
        }
    }
}

} // verus!

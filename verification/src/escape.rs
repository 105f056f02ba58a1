//! Escape-time evaluation, as a state machine over escape observations.
//!
//! The Mandelbrot recurrence `z = z*z + c` runs on floating-point values
//! outside this crate; what the crate owns is the decision logic of the
//! evaluator: starting from `z = (0, 0)`, each iteration applies the
//! recurrence once and then observes whether the value just produced has
//! left the escape radius (`magnitude(z) > 2`, strict, the one consistent
//! boundary convention used throughout). The evaluator reports the first
//! iteration whose observation escapes, and reports the point as inside the
//! set once [`ITER_MAX`] observations have all failed to escape. The driver
//! feeds one observation per iteration into an [`EscapeProbe`]; the probe's
//! ghost history pins down exactly which observation sequences lead to
//! which outcome.

use vstd::prelude::*;

verus! {

/// The iteration cap of the evaluator: a point whose orbit has not escaped
/// after this many iterations is considered inside the set.
pub const ITER_MAX: u16 = 600;

/// The verdict of the evaluator for one plane point.
#[derive(Clone, Copy, PartialEq, Eq, Structural, Debug)]
pub enum EscapeOutcome {
    /// The orbit left the escape radius first at this iteration (zero-based).
    Escaped(u16),
    /// No orbit value escaped within [`ITER_MAX`] iterations.
    Inside,
}

/// The running state of one escape-time evaluation.
///
/// Feed one escape observation per iteration with [`EscapeProbe::observe`]
/// while [`EscapeProbe::outcome`] is still `None`; the probe stops at the
/// first escape or at the iteration cap, whichever comes first.
pub struct EscapeProbe {
    /// Number of observations consumed so far.
    pub iter: u16,
    /// The verdict, once reached; `None` while more observations are needed.
    pub outcome: Option<EscapeOutcome>,
    /// The observations consumed so far, in order.
    pub history: Ghost<Seq<bool>>,
}

impl EscapeProbe {
    /// The probe invariant: the history matches the iteration count, a
    /// pending probe has seen only non-escaping values, an `Escaped(k)`
    /// verdict records `k` non-escaping observations followed by an escaping
    /// one, and an `Inside` verdict records [`ITER_MAX`] non-escaping
    /// observations.
    pub open spec fn wf(self) -> bool {
        match self.outcome {
            None => self.iter < ITER_MAX && self.history@.len() == self.iter
                && (forall|j: int| 0 <= j < self.history@.len() ==> !self.history@[j]),
            Some(EscapeOutcome::Escaped(k)) => k < ITER_MAX && self.iter == k
                && self.history@.len() == k + 1 && self.history@[k as int]
                && (forall|j: int| 0 <= j < k ==> !self.history@[j]),
            Some(EscapeOutcome::Inside) => self.iter == ITER_MAX
                && self.history@.len() == ITER_MAX
                && (forall|j: int| 0 <= j < self.history@.len() ==> !self.history@[j]),
        }
    }

    /// A fresh evaluation, before any observation: `z` is at the origin and
    /// iteration zero is about to be applied.
    pub fn new() -> (p: EscapeProbe)
        ensures
            p.wf(),
            p.iter == 0,
            p.outcome is None,
            p.history@ == Seq::<bool>::empty(),
    {
        EscapeProbe { iter: 0, outcome: None, history: Ghost(Seq::empty()) }
    }

    /// Consume the escape observation for the current iteration.
    ///
    /// An escaping observation at iteration `k` settles the verdict at
    /// `Escaped(k)`; in particular a constant whose magnitude already
    /// exceeds the radius after the zeroth iteration yields `Escaped(0)`. A
    /// non-escaping observation advances the iteration count, settling
    /// `Inside` exactly when it is the [`ITER_MAX`]th in a row.
    pub fn observe(&mut self, escaped: bool)
        requires
            old(self).wf(),
            old(self).outcome is None,
        ensures
            final(self).wf(),
            final(self).history@ == old(self).history@.push(escaped),
            escaped ==> final(self).outcome == Some(EscapeOutcome::Escaped(old(self).iter))
                && final(self).iter == old(self).iter,
            !escaped && old(self).iter + 1 < ITER_MAX ==> final(self).outcome is None
                && final(self).iter == old(self).iter + 1,
            !escaped && old(self).iter + 1 == ITER_MAX ==> final(self).outcome == Some(
                EscapeOutcome::Inside,
            ) && final(self).iter == ITER_MAX,
    {
        proof {
            self.history@ = self.history@.push(escaped);
        }
        if escaped {
            self.outcome = Some(EscapeOutcome::Escaped(self.iter));
        } else {
            self.iter = self.iter + 1;
            if self.iter == ITER_MAX {
                self.outcome = Some(EscapeOutcome::Inside);
            }
        }
    }

    /// The verdict so far; `None` means another observation is needed.
    pub fn outcome(&self) -> (r: Option<EscapeOutcome>)
        ensures
            r == self.outcome,
    {
        self.outcome
    }
}

/// Law: a settled verdict characterizes the whole observation history, both
/// ways. `Escaped(k)` is reached exactly on `k` non-escaping observations
/// followed by an escaping one, and `Inside` exactly on [`ITER_MAX`]
/// non-escaping observations; so the evaluator reports the first escaping
/// iteration, and reports `Inside` only after exhausting the cap.
pub proof fn lemma_outcome_characterizes_history(p: EscapeProbe)
    requires
        p.wf(),
    ensures
        forall|k: u16|
            p.outcome == Some(EscapeOutcome::Escaped(k)) <==> p.history@.len() == k + 1
                && p.history@[k as int] && k < ITER_MAX && (forall|j: int|
                0 <= j < k ==> !p.history@[j]),
        p.outcome == Some(EscapeOutcome::Inside) <==> p.history@.len() == ITER_MAX && (forall|j: int|
            0 <= j < p.history@.len() ==> !p.history@[j]),
{
}

} // verus!

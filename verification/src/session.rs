//! The ordering barrier of a mutation session.
//!
//! A session runs the baseline exactly once, sequentially, before any
//! mutant work; if the baseline does not succeed the session is invalid and
//! no mutant is ever evaluated.  The barrier is a small state machine whose
//! invariant says exactly that: mutant runs have happened only in a session
//! whose recorded baseline outcome is a success.

use crate::runner::TestOutcome;
use vstd::prelude::*;

verus! {

/// Why a session refused to start a mutant run.
#[derive(Debug, Clone, Copy, PartialEq, Eq, Structural)]
pub enum SessionOrderError {
    /// No baseline outcome has been recorded, or the recorded one is not a
    /// success.
    BaselineNotPassed,
}

/// The progress of one mutation session.
#[derive(Debug)]
pub struct MutationSession {
    /// The recorded baseline outcome, once the baseline has run.
    pub baseline: Option<TestOutcome>,
    /// How many mutant runs have been started.
    pub mutants_run: u64,
}

impl MutationSession {
    /// Whether the recorded baseline outcome is a success.
    pub open spec fn baseline_passed_spec(&self) -> bool {
        self.baseline == Option::Some(TestOutcome::Success)
    }

    /// The session invariant: mutant work happens only after a passing
    /// baseline.
    pub open spec fn inv(&self) -> bool {
        self.mutants_run > 0 ==> self.baseline_passed_spec()
    }

    /// A fresh session: no baseline recorded, no mutant run.
    pub fn new() -> (r: Self)
        ensures
            r.baseline is None,
            r.mutants_run == 0,
            r.inv(),
    {
        MutationSession { baseline: Option::None, mutants_run: 0 }
    }

    /// Records the one baseline outcome.  The baseline is recorded before
    /// any mutant work, exactly once.
    pub fn record_baseline(&mut self, outcome: TestOutcome)
        requires
            old(self).baseline is None,
            old(self).mutants_run == 0,
        ensures
            final(self).baseline == Option::Some(outcome),
            final(self).mutants_run == 0,
            final(self).inv(),
    {
        self.baseline = Option::Some(outcome);
    }

    /// Whether mutant work may begin.
    pub fn baseline_passed(&self) -> (r: bool)
        ensures
            r == self.baseline_passed_spec(),
    {
        match &self.baseline {
            Option::Some(TestOutcome::Success) => true,
            _ => false,
        }
    }

    /// Starts one mutant run.  Behind a passing baseline the counter moves;
    /// otherwise the session refuses and nothing changes.
    pub fn begin_mutant_run(&mut self) -> (r: Result<(), SessionOrderError>)
        requires
            old(self).inv(),
            old(self).mutants_run < u64::MAX,
        ensures
            final(self).inv(),
            old(self).baseline_passed_spec() ==> r is Ok && final(self).mutants_run == old(
                self,
            ).mutants_run + 1 && final(self).baseline == old(self).baseline,
            !old(self).baseline_passed_spec() ==> r is Err && *final(self) == *old(self),
    {
        if self.baseline_passed() {
            self.mutants_run = self.mutants_run + 1;
            Result::Ok(())
        } else {
            Result::Err(SessionOrderError::BaselineNotPassed)
        }
    }
}

/// A session whose baseline has not passed has never entered the
/// mutant-processing stage: its run counter is still zero.
pub proof fn lemma_no_mutants_without_passing_baseline(s: MutationSession)
    requires
        s.inv(),
        !s.baseline_passed_spec(),
    ensures
        s.mutants_run == 0,
{
}

/// A failing or faulting baseline keeps the session shut: a session that
/// recorded any outcome but a success has never started a mutant run.
pub proof fn lemma_failed_baseline_never_enters_mutants(s: MutationSession, outcome: TestOutcome)
    requires
        s.inv(),
        s.baseline == Option::Some(outcome),
        !(outcome is Success),
    ensures
        !s.baseline_passed_spec(),
        s.mutants_run == 0,
{
}

} // verus!

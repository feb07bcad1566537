//! The two evaluators that classify one execution: the objective evaluator,
//! which looks at the outcome, and the feedback evaluator, which looks at the
//! coverage.

use crate::coverage::Fingerprint;
use vstd::prelude::*;

verus! {

/// How one run of the target ended.
#[derive(Clone, Copy, Debug, PartialEq, Eq, Structural)]
pub enum ExecutionOutcome {
    /// The target returned.
    Normal,
    /// The target faulted.
    Crash,
    /// The target did not return within its time budget.
    Timeout,
}

/// What becomes of a candidate after its run.
#[derive(Clone, Copy, Debug, PartialEq, Eq, Structural)]
pub enum Verdict {
    /// Neither a finding nor new coverage: the candidate is dropped.
    Discard,
    /// New coverage: the candidate joins the corpus.
    Interesting,
    /// A finding: the candidate goes to the crash store and nowhere else.
    Objective,
}

/// Only a crash is an objective.
pub open spec fn spec_is_objective(outcome: ExecutionOutcome) -> bool {
    outcome == ExecutionOutcome::Crash
}

/// A snapshot is interesting when it covers an index that the cumulative
/// best does not.
pub open spec fn spec_is_interesting(snapshot: Set<int>, best: Set<int>) -> bool {
    !snapshot.subset_of(best)
}

/// The verdict on a run: an objective first, whatever its coverage; then
/// new coverage; else nothing.
pub open spec fn spec_verdict(
    outcome: ExecutionOutcome,
    snapshot: Set<int>,
    best: Set<int>,
) -> Verdict {
    if spec_is_objective(outcome) {
        Verdict::Objective
    } else if spec_is_interesting(snapshot, best) {
        Verdict::Interesting
    } else {
        Verdict::Discard
    }
}

/// The cumulative best once a run is classified: the snapshot of an
/// interesting run is merged in, any other run leaves it alone.
pub open spec fn spec_best_after(verdict: Verdict, snapshot: Set<int>, best: Set<int>) -> Set<
    int,
> {
    if verdict == Verdict::Interesting {
        best.union(snapshot)
    } else {
        best
    }
}

/// Whether the outcome is a finding.
pub fn is_objective(outcome: ExecutionOutcome) -> (b: bool)
    ensures
        b == spec_is_objective(outcome),
{
    outcome == ExecutionOutcome::Crash
}

/// Whether the snapshot covers anything new. If it does, the snapshot is
/// merged into the cumulative best; coverage is never taken out of it.
pub fn is_interesting(snapshot: &Fingerprint, best: &mut Fingerprint) -> (b: bool)
    ensures
        b == spec_is_interesting(snapshot@, old(best)@),
        b ==> final(best)@ == old(best)@.union(snapshot@),
        !b ==> final(best)@ == old(best)@,
{
    if snapshot.is_subset_of(best) {
        false
    } else {
        best.merge(snapshot);
        true
    }
}

/// Classifies one run and updates the cumulative best accordingly.
pub fn evaluate(outcome: ExecutionOutcome, snapshot: &Fingerprint, best: &mut Fingerprint) -> (v:
    Verdict)
    ensures
        v == spec_verdict(outcome, snapshot@, old(best)@),
        final(best)@ == spec_best_after(v, snapshot@, old(best)@),
{
    if is_objective(outcome) {
        Verdict::Objective
    } else if is_interesting(snapshot, best) {
        Verdict::Interesting
    } else {
        Verdict::Discard
    }
}

/// Feedback monotonicity: whatever the verdict on a run, the cumulative best
/// after it holds everything it held before, and the snapshot of a run that
/// was found interesting as well.
pub proof fn lemma_best_only_grows(outcome: ExecutionOutcome, snapshot: Set<int>, best: Set<int>)
    ensures
        best.subset_of(spec_best_after(spec_verdict(outcome, snapshot, best), snapshot, best)),
        spec_verdict(outcome, snapshot, best) == Verdict::Interesting ==> snapshot.subset_of(
            spec_best_after(spec_verdict(outcome, snapshot, best), snapshot, best),
        ),
{
}

/// Feedback monotonicity: a snapshot that the cumulative best subsumes is
/// never interesting, neither now nor against any later cumulative best,
/// which holds at least what this one holds.
pub proof fn lemma_subsumed_is_never_interesting(
    outcome: ExecutionOutcome,
    snapshot: Set<int>,
    best: Set<int>,
    later: Set<int>,
)
    requires
        snapshot.subset_of(best),
        best.subset_of(later),
    ensures
        !spec_is_interesting(snapshot, best),
        !spec_is_interesting(snapshot, later),
        spec_verdict(outcome, snapshot, later) != Verdict::Interesting,
{
}

/// Feedback monotonicity: the run that follows an interesting one with the
/// same snapshot is not interesting.
pub proof fn lemma_rerun_is_not_interesting(
    outcome: ExecutionOutcome,
    snapshot: Set<int>,
    best: Set<int>,
)
    requires
        !spec_is_objective(outcome),
    ensures
        !spec_is_interesting(
            snapshot,
            spec_best_after(spec_verdict(outcome, snapshot, best), snapshot, best),
        ),
{
}

} // verus!

//! The executor: runs the harness on one candidate over a coverage map of
//! zeros, and classifies how the run ended.

use crate::coverage::{spec_covered, spec_zero_map, CoverageMap, Fingerprint};
use crate::feedback::ExecutionOutcome;
use vstd::prelude::*;

verus! {

/// What a run is taken for, from the map it left, how it ended (`None`
/// where the harness faulted and did not return), and whether it ran over
/// its time budget:
/// - a map that has not the executor's `slots` slots is a fault of the run:
///   a crash, with no coverage;
/// - a harness that did not return has crashed, with the coverage it
///   reached;
/// - a normal run over its budget is a timeout;
/// - any other run is what the harness reported.
pub open spec fn spec_classify_run(
    map: Seq<u8>,
    ended: Option<ExecutionOutcome>,
    over_budget: bool,
    slots: nat,
) -> (Seq<u8>, ExecutionOutcome) {
    if map.len() != slots {
        (spec_zero_map(slots), ExecutionOutcome::Crash)
    } else {
        match ended {
            None => (map, ExecutionOutcome::Crash),
            Some(ExecutionOutcome::Normal) => if over_budget {
                (map, ExecutionOutcome::Timeout)
            } else {
                (map, ExecutionOutcome::Normal)
            },
            Some(outcome) => (map, outcome),
        }
    }
}

/// Classifies one run of a harness.
pub fn classify_run(
    map: CoverageMap,
    ended: Option<ExecutionOutcome>,
    over_budget: bool,
    slots: usize,
) -> (r: (CoverageMap, ExecutionOutcome))
    ensures
        (r.0@, r.1) == spec_classify_run(map@, ended, over_budget, slots as nat),
{
    if map.len() != slots {
        return (CoverageMap::new(slots), ExecutionOutcome::Crash);
    }
    match ended {
        None => (map, ExecutionOutcome::Crash),
        Some(ExecutionOutcome::Normal) => if over_budget {
            (map, ExecutionOutcome::Timeout)
        } else {
            (map, ExecutionOutcome::Normal)
        },
        Some(outcome) => (map, outcome),
    }
}

/// Whether one call of the harness on `candidate`, from a map of `slots`
/// zeros, can leave an executor with the map `after` and the outcome
/// `outcome`: they are what the run that the harness returned is taken for.
pub open spec fn spec_ran<H>(
    harness: H,
    slots: nat,
    candidate: Seq<u8>,
    after: Seq<u8>,
    outcome: ExecutionOutcome,
) -> bool where H: Fn(CoverageMap, &Vec<u8>) -> (CoverageMap, ExecutionOutcome) {
    exists|m: CoverageMap, c: &Vec<u8>, n: CoverageMap, ended: ExecutionOutcome|
        {
            &&& m@ == spec_zero_map(slots)
            &&& c@ == candidate
            &&& #[trigger] call_ensures(harness, (m, c), (n, ended))
            &&& (after, outcome) == spec_classify_run(n@, Some(ended), false, slots)
        }
}

/// Whether the harness may be called on every input over a zeroed map of
/// `slots` slots.
pub open spec fn spec_runs_on<H>(harness: H, slots: nat) -> bool where
    H: Fn(CoverageMap, &Vec<u8>) -> (CoverageMap, ExecutionOutcome),
 {
    forall|m: CoverageMap, c: &Vec<u8>|
        m@ == spec_zero_map(slots) ==> #[trigger] call_requires(harness, (m, c))
}

/// The mathematical content of an executor: the coverage map as the last
/// run left it, and the number of slots that every run starts from.
pub ghost struct ExecutorView {
    pub map: Seq<u8>,
    pub slots: nat,
}

/// Owns the coverage map and runs candidates against a harness. The harness
/// is a function that takes the map and the input, marks the points it
/// reaches, and hands the map back with the outcome of the run.
pub struct Executor {
    map: CoverageMap,
    slots: usize,
}

impl View for Executor {
    type V = ExecutorView;

    closed spec fn view(&self) -> ExecutorView {
        ExecutorView { map: self.map@, slots: self.slots as nat }
    }
}

impl Executor {
    /// The number of slots of the map that every run starts from.
    pub open spec fn spec_slots(&self) -> nat {
        self@.slots
    }

    /// The executor invariant: its map has the number of slots that every
    /// run starts from.
    pub open spec fn wf(&self) -> bool {
        self@.map.len() == self@.slots
    }

    /// An executor whose map has `slots` slots, all zero.
    pub fn new(slots: usize) -> (executor: Executor)
        ensures
            executor.wf(),
            executor@ == (ExecutorView { map: spec_zero_map(slots as nat), slots: slots as nat }),
    {
        Executor { map: CoverageMap::new(slots), slots }
    }

    /// The number of slots of the map that every run starts from.
    pub fn slots(&self) -> (n: usize)
        ensures
            n == self@.slots,
    {
        self.slots
    }

    /// Runs the harness on `candidate`. The run starts from a map of zeros,
    /// so the map it leaves holds the points of this run and no others. A
    /// harness that hands back a map of another length has faulted: the run
    /// is a crash without coverage, and the executor keeps a map of its own
    /// length.
    pub fn execute<H>(&mut self, harness: &H, candidate: &Vec<u8>) -> (outcome:
        ExecutionOutcome) where H: Fn(CoverageMap, &Vec<u8>) -> (CoverageMap, ExecutionOutcome)
        requires
            spec_runs_on(*harness, old(self)@.slots),
        ensures
            final(self).wf(),
            final(self)@.slots == old(self)@.slots,
            spec_ran(*harness, old(self)@.slots, candidate@, final(self)@.map, outcome),
    {
        let fresh = CoverageMap::new(self.slots);
        let (returned, ended) = harness(fresh, candidate);
        let (map, outcome) = classify_run(returned, Some(ended), false, self.slots);
        self.map = map;
        outcome
    }

    /// The coverage map as the last run left it.
    pub fn coverage(&self) -> (map: &CoverageMap)
        ensures
            map@ == self@.map,
    {
        &self.map
    }

    /// The fingerprint of the last run.
    pub fn fingerprint(&self) -> (fp: Fingerprint)
        ensures
            fp@ == spec_covered(self@.map),
    {
        self.map.fingerprint()
    }
}

} // verus!

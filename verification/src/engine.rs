//! The fuzz loop: the engine state and the transitions that seed the corpus,
//! run one iteration, and route each candidate by the verdict on its run.

use crate::corpus::{spec_add, spec_ids_in_order, Corpus, EntryView};
use crate::coverage::{spec_covered, CoverageMap, Fingerprint};
use crate::crashes::{spec_deduplicated, spec_insert, spec_known, CrashStore, CrashView};
use crate::executor::{spec_ran, spec_runs_on, Executor};
use crate::feedback::{
    evaluate,
    is_objective,
    spec_best_after,
    spec_is_objective,
    spec_verdict,
    ExecutionOutcome,
    Verdict,
};
use crate::generator::{generate, spec_printable_input};
use crate::mutation::{
    mutate_traced,
    spec_apply_all,
    spec_mutation_of,
    spec_step_start,
    spec_steps_shaped,
    MutationConfig,
    MutationStep,
};
use crate::random::{reduce_index, spec_drew, spec_reduce, RandomSource, RandomView};
use crate::scheduler::{spec_next_id, Scheduler};
use vstd::pervasive::unreached;
use vstd::prelude::*;

verus! {

/// Where the fuzz loop stands.
#[derive(Clone, Copy, Debug, PartialEq, Eq, Structural)]
pub enum Phase {
    /// The first corpus is being made.
    Seeding,
    /// The steady cycle of schedule, mutate, execute, classify.
    Iterating,
    /// The end: nothing changes any more.
    Stopped,
}

/// Why the engine refused a transition or stopped.
#[derive(Clone, Copy, Debug, PartialEq, Eq, Structural)]
pub enum EngineError {
    /// A seeding step was asked of an engine that is not seeding.
    NotSeeding,
    /// An iteration was asked of an engine that is not iterating.
    NotIterating,
    /// Seeding left the corpus empty.
    NoSeeds,
    /// The iteration budget is spent.
    BudgetExhausted,
}

/// What became of the candidate of one iteration.
#[derive(Clone, Copy, Debug, PartialEq, Eq, Structural)]
pub enum StepReport {
    /// No finding and no new coverage: dropped.
    Discarded,
    /// New coverage: appended to the corpus under this id.
    Added { id: usize },
    /// A crash with a new fingerprint: stored at this position of the crash
    /// store, and to be persisted at once.
    NewCrash { index: usize },
    /// A crash whose fingerprint is stored already: dropped.
    KnownCrash,
}

/// The options of an engine.
#[derive(Clone, Copy, Debug, PartialEq, Eq)]
pub struct EngineConfig {
    /// The seed of the random source.
    pub seed: u64,
    /// How many inputs the generator makes for the first corpus.
    pub initial_corpus_size: usize,
    /// The length that a generated input stays below.
    pub initial_input_max_length: usize,
    /// The stack depth and length limit of the mutation engine.
    pub mutation: MutationConfig,
    /// The number of iterations after which the engine stops.
    pub iteration_budget: u64,
}

impl EngineConfig {
    /// The mutation options are valid.
    pub open spec fn wf(&self) -> bool {
        self.mutation.wf()
    }

    /// The standard options with the given seed: 8 seed inputs below 32
    /// bytes, mutation stacks of 1 to 16 steps, and the largest iteration
    /// budget there is.
    pub fn new(seed: u64) -> (cfg: EngineConfig)
        ensures
            cfg.wf(),
            cfg.seed == seed,
            cfg.initial_corpus_size == 8,
            cfg.initial_input_max_length == 32,
            cfg.mutation.spec_min_depth() == 1,
            cfg.mutation.spec_max_depth() == 16,
            cfg.mutation.spec_max_len() == 1048576,
            cfg.iteration_budget == u64::MAX,
    {
        EngineConfig {
            seed,
            initial_corpus_size: 8,
            initial_input_max_length: 32,
            mutation: MutationConfig::standard(),
            iteration_budget: u64::MAX,
        }
    }
}

/// The mathematical content of an engine: the two stores, the cumulative
/// best, the iteration counter, the phase, the scheduler's cursor, what is
/// known of the random source, and the options.
pub ghost struct EngineView {
    pub corpus: Seq<EntryView>,
    pub crashes: Seq<CrashView>,
    pub best: Set<int>,
    pub iteration: nat,
    pub phase: Phase,
    pub cursor: Option<int>,
    pub rng: RandomView,
    pub config: EngineConfig,
}

/// The progress of an engine, as pushed to a monitor.
#[derive(Clone, Copy, Debug, PartialEq, Eq)]
pub struct ProgressEvent {
    pub iterations: u64,
    pub corpus_size: usize,
    pub crash_count: usize,
}

/// What one iteration did: which entry was scheduled, which other entry
/// donated the chunks of a splice (none where the corpus has no other), the
/// steps that made the candidate, how its run ended and where it went.
pub struct Iteration {
    pub seed_id: usize,
    pub donor_id: Option<usize>,
    pub steps: Vec<MutationStep>,
    pub outcome: ExecutionOutcome,
    pub report: StepReport,
}

/// How a fuzz loop came to return.
#[derive(Clone, Copy, Debug, PartialEq, Eq, Structural)]
pub enum LoopExit {
    /// The iterations asked for were run.
    StepsDone,
    /// The last iteration stored a new crash at this position: it is to be
    /// persisted before the loop goes on.
    CrashFound { index: usize },
    /// The engine refused to iterate.
    Halted { error: EngineError },
}

/// The invariant of an engine over its view: valid options, ids in order,
/// crashes deduplicated, both stores of a length the machine can count, all
/// corpus coverage within the cumulative best, the cursor on an entry, and
/// a corpus that is not empty while iterating.
pub open spec fn spec_engine_wf(s: EngineView) -> bool {
    &&& s.config.wf()
    &&& spec_ids_in_order(s.corpus)
    &&& spec_deduplicated(s.crashes)
    &&& s.corpus.len() <= usize::MAX
    &&& s.crashes.len() <= usize::MAX
    &&& forall|i: int|
        0 <= i < s.corpus.len() ==> (#[trigger] s.corpus[i]).fingerprint.subset_of(s.best)
    &&& s.cursor matches Some(c) ==> 0 <= c < s.corpus.len()
    &&& s.phase == Phase::Iterating ==> s.corpus.len() > 0
}

/// The engine after a seed input has run: a crashing seed goes to the crash
/// store; any other joins the corpus, interesting or not, and its coverage
/// joins the cumulative best.
pub open spec fn spec_admit_seed(
    s: EngineView,
    input: Seq<u8>,
    outcome: ExecutionOutcome,
    fingerprint: Set<int>,
) -> EngineView {
    if spec_is_objective(outcome) {
        EngineView { crashes: spec_insert(s.crashes, input, fingerprint, s.iteration), ..s }
    } else {
        EngineView {
            corpus: spec_add(s.corpus, input, fingerprint, s.iteration),
            best: s.best.union(fingerprint),
            ..s
        }
    }
}

/// The engine after a candidate has run: the iteration is counted, and the
/// candidate goes where the verdict on its run sends it.
pub open spec fn spec_record(
    s: EngineView,
    candidate: Seq<u8>,
    outcome: ExecutionOutcome,
    fingerprint: Set<int>,
) -> EngineView {
    let verdict = spec_verdict(outcome, fingerprint, s.best);
    let now = s.iteration + 1;
    EngineView {
        corpus: if verdict == Verdict::Interesting {
            spec_add(s.corpus, candidate, fingerprint, now)
        } else {
            s.corpus
        },
        crashes: if verdict == Verdict::Objective {
            spec_insert(s.crashes, candidate, fingerprint, now)
        } else {
            s.crashes
        },
        best: spec_best_after(verdict, fingerprint, s.best),
        iteration: now,
        ..s
    }
}

/// What is reported of a candidate that has run.
pub open spec fn spec_report(
    s: EngineView,
    outcome: ExecutionOutcome,
    fingerprint: Set<int>,
) -> StepReport {
    match spec_verdict(outcome, fingerprint, s.best) {
        Verdict::Objective => if spec_known(s.crashes, fingerprint) {
            StepReport::KnownCrash
        } else {
            StepReport::NewCrash { index: s.crashes.len() as usize }
        },
        Verdict::Interesting => StepReport::Added { id: s.corpus.len() as usize },
        Verdict::Discard => StepReport::Discarded,
    }
}

/// What never goes back between an earlier and a later state of one engine:
/// the corpus and the crash store only grow at their ends, the cumulative
/// best only gains indices, the iteration counter does not fall, the random
/// source keeps its seed and the words it has handed out, and the options
/// stay.
pub open spec fn spec_extends(earlier: EngineView, later: EngineView) -> bool {
    &&& earlier.corpus.is_prefix_of(later.corpus)
    &&& earlier.crashes.is_prefix_of(later.crashes)
    &&& earlier.best.subset_of(later.best)
    &&& earlier.iteration <= later.iteration
    &&& earlier.rng.seed == later.rng.seed
    &&& earlier.rng.drawn.is_prefix_of(later.rng.drawn)
    &&& earlier.config == later.config
}

/// The input that donates the chunks of a splice: that of the donor entry,
/// or the empty input where there is no donor.
pub open spec fn spec_donor(corpus: Seq<EntryView>, donor_id: Option<usize>) -> Seq<u8> {
    match donor_id {
        Some(d) => corpus[d as int].input,
        None => Seq::empty(),
    }
}

/// The donor that a random word chooses for the seed `seed_id` in a corpus
/// of `count` entries: one of the other entries, each for one remainder of
/// the word; none where there is no other entry.
pub open spec fn spec_choose_donor(word: u64, count: nat, seed_id: nat) -> Option<usize> {
    if count <= 1 {
        None
    } else {
        let d = spec_reduce(word, (count - 1) as nat);
        Some(
            (if d >= seed_id {
                d + 1
            } else {
                d
            }) as usize,
        )
    }
}

/// Chooses the donor of an iteration from a random word.
pub fn choose_donor(word: u64, count: usize, seed_id: usize) -> (donor_id: Option<usize>)
    ensures
        donor_id == spec_choose_donor(word, count as nat, seed_id as nat),
        donor_id is None <==> count <= 1,
        donor_id matches Some(d) ==> d < count && d != seed_id,
{
    if count <= 1 {
        None
    } else {
        let d = reduce_index(word, count - 1);
        if d >= seed_id {
            Some(d + 1)
        } else {
            Some(d)
        }
    }
}

/// What holds of one iteration `it` that took an engine from `before` to
/// `after` and left the coverage map at `map`:
/// - the scheduler chose the seed in its turn;
/// - the random source handed out one word, which chose the donor among the
///   other entries, then one word for the stack depth and six for each step,
///   which shaped the steps;
/// - the candidate is the seed after these steps;
/// - the harness ran on the candidate from a map of zeros;
/// - the candidate went where the verdict on that run sends it.
pub open spec fn spec_iterated<H>(
    before: EngineView,
    harness: H,
    slots: nat,
    it: Iteration,
    map: Seq<u8>,
    after: EngineView,
) -> bool where H: Fn(CoverageMap, &Vec<u8>) -> (CoverageMap, ExecutionOutcome) {
    let cfg = before.config.mutation;
    let at = before.rng.drawn.len() as int;
    let seed = before.corpus[it.seed_id as int].input;
    let donor = spec_donor(before.corpus, it.donor_id);
    let candidate = spec_apply_all(seed, it.steps@, donor, cfg.spec_max_len());
    let fingerprint = spec_covered(map);
    let scheduled = EngineView { cursor: Some(it.seed_id as int), rng: after.rng, ..before };
    &&& it.seed_id == spec_next_id(before.cursor, before.corpus.len() as int)
    &&& spec_drew(before.rng, after.rng, spec_step_start(1, it.steps@.len() as int) as nat)
    &&& it.donor_id == spec_choose_donor(
        after.rng.drawn[at],
        before.corpus.len(),
        it.seed_id as nat,
    )
    &&& spec_steps_shaped(after.rng.drawn, at + 1, seed, donor, cfg, it.steps@)
    &&& spec_mutation_of(seed, donor, cfg, it.steps@, candidate)
    &&& spec_ran(harness, slots, candidate, map, it.outcome)
    &&& it.report == spec_report(before, it.outcome, fingerprint)
    &&& after == spec_record(scheduled, candidate, it.outcome, fingerprint)
}

/// What holds of `count` iterations in a row that took an engine from
/// `before` to `after`: each one is an iteration as `spec_iterated` has it,
/// from the state that the one before it left.
pub open spec fn spec_fuzzed<H>(
    harness: H,
    slots: nat,
    before: EngineView,
    after: EngineView,
    count: nat,
) -> bool where H: Fn(CoverageMap, &Vec<u8>) -> (CoverageMap, ExecutionOutcome)
    decreases count,
{
    if count == 0 {
        after == before
    } else {
        exists|mid: EngineView, it: Iteration, map: Seq<u8>|
            spec_fuzzed(harness, slots, before, mid, (count - 1) as nat)
                && #[trigger] spec_iterated(mid, harness, slots, it, map, after)
    }
}

/// What holds of one seed that took a seeding engine from `before` to
/// `after`: the input is one that the generator makes, the harness ran on it
/// from a map of zeros and left `map`, and the input was admitted.
pub open spec fn spec_seed_admitted<H>(
    before: EngineView,
    harness: H,
    slots: nat,
    input: Seq<u8>,
    outcome: ExecutionOutcome,
    map: Seq<u8>,
    after: EngineView,
) -> bool where H: Fn(CoverageMap, &Vec<u8>) -> (CoverageMap, ExecutionOutcome) {
    &&& spec_printable_input(input, before.config.initial_input_max_length as nat)
    &&& spec_ran(harness, slots, input, map, outcome)
    &&& after == spec_admit_seed(before, input, outcome, spec_covered(map))
}

/// What holds of `count` seeds in a row that took a seeding engine from
/// `before` to `after`.
pub open spec fn spec_seeded<H>(
    harness: H,
    slots: nat,
    before: EngineView,
    after: EngineView,
    count: nat,
) -> bool where H: Fn(CoverageMap, &Vec<u8>) -> (CoverageMap, ExecutionOutcome)
    decreases count,
{
    if count == 0 {
        after == before
    } else {
        exists|mid: EngineView, input: Seq<u8>, outcome: ExecutionOutcome, map: Seq<u8>|
            spec_seeded(harness, slots, before, mid, (count - 1) as nat)
                && #[trigger] spec_seed_admitted(
                    mid,
                    harness,
                    slots,
                    input,
                    outcome,
                    map,
                    after,
                )
    }
}

/// Recording a run never takes anything back.
pub proof fn lemma_record_extends(
    s: EngineView,
    candidate: Seq<u8>,
    outcome: ExecutionOutcome,
    fingerprint: Set<int>,
)
    ensures
        spec_extends(s, spec_record(s, candidate, outcome, fingerprint)),
{
}

/// Admitting a seed never takes anything back.
pub proof fn lemma_admit_seed_extends(
    s: EngineView,
    input: Seq<u8>,
    outcome: ExecutionOutcome,
    fingerprint: Set<int>,
)
    ensures
        spec_extends(s, spec_admit_seed(s, input, outcome, fingerprint)),
{
}

/// Iterations never take anything back: the corpus and the crash store grow
/// at their ends, the cumulative best only gains indices, each iteration is
/// counted once, and each takes at least two words from the random source.
pub proof fn lemma_fuzzed_extends<H>(
    harness: H,
    slots: nat,
    before: EngineView,
    after: EngineView,
    count: nat,
) where H: Fn(CoverageMap, &Vec<u8>) -> (CoverageMap, ExecutionOutcome)
    requires
        spec_fuzzed(harness, slots, before, after, count),
    ensures
        spec_extends(before, after),
        after.iteration == before.iteration + count,
        after.phase == before.phase,
        after.rng.drawn.len() >= before.rng.drawn.len() + 2 * count,
    decreases count,
{
    if count > 0 {
        let (mid, it, map) = choose|mid: EngineView, it: Iteration, map: Seq<u8>|
            spec_fuzzed(harness, slots, before, mid, (count - 1) as nat)
                && #[trigger] spec_iterated(mid, harness, slots, it, map, after);
        lemma_fuzzed_extends(harness, slots, before, mid, (count - 1) as nat);
        assert(mid.rng.drawn =~= after.rng.drawn.subrange(0, mid.rng.drawn.len() as int));
        assert(before.rng.drawn =~= after.rng.drawn.subrange(0, before.rng.drawn.len() as int));
    } else {
        assert(before.rng.drawn =~= after.rng.drawn.subrange(0, before.rng.drawn.len() as int));
    }
}

/// Seeding never takes anything back, counts no iteration, leaves the
/// scheduler alone, has the random source hand out no word, and stores each
/// seed once at most.
pub proof fn lemma_seeded_extends<H>(
    harness: H,
    slots: nat,
    before: EngineView,
    after: EngineView,
    count: nat,
) where H: Fn(CoverageMap, &Vec<u8>) -> (CoverageMap, ExecutionOutcome)
    requires
        spec_seeded(harness, slots, before, after, count),
    ensures
        spec_extends(before, after),
        after.iteration == before.iteration,
        after.cursor == before.cursor,
        after.phase == before.phase,
        after.rng == before.rng,
        after.corpus.len() + after.crashes.len() <= before.corpus.len() + before.crashes.len()
            + count,
    decreases count,
{
    if count > 0 {
        let (mid, input, outcome, map) = choose|
            mid: EngineView,
            input: Seq<u8>,
            outcome: ExecutionOutcome,
            map: Seq<u8>,
        |
            spec_seeded(harness, slots, before, mid, (count - 1) as nat)
                && #[trigger] spec_seed_admitted(
                    mid,
                    harness,
                    slots,
                    input,
                    outcome,
                    map,
                    after,
                );
        lemma_seeded_extends(harness, slots, before, mid, (count - 1) as nat);
    }
}

/// The engine: the corpus, the crash store, the cumulative best, the random
/// source, the scheduler and the iteration counter.
pub struct EngineState {
    corpus: Corpus,
    crashes: CrashStore,
    best: Fingerprint,
    rng: RandomSource,
    scheduler: Scheduler,
    iteration: u64,
    phase: Phase,
    config: EngineConfig,
}

impl View for EngineState {
    type V = EngineView;

    closed spec fn view(&self) -> EngineView {
        EngineView {
            corpus: self.corpus@,
            crashes: self.crashes@,
            best: self.best@,
            iteration: self.iteration as nat,
            phase: self.phase,
            cursor: self.scheduler@,
            rng: self.rng@,
            config: self.config,
        }
    }
}

impl EngineState {
    /// The options this engine was made with.
    pub open spec fn spec_config(&self) -> EngineConfig {
        self@.config
    }

    /// Whether the engine has run as many iterations as its options allow.
    pub open spec fn spec_budget_spent(&self) -> bool {
        self@.iteration >= self.spec_config().iteration_budget
    }

    /// The engine invariant.
    pub open spec fn wf(&self) -> bool {
        spec_engine_wf(self@)
    }

    /// A new engine in the seeding phase, with nothing stored and nothing
    /// covered.
    pub fn new(config: EngineConfig) -> (engine: EngineState)
        requires
            config.wf(),
        ensures
            engine.wf(),
            engine.spec_config() == config,
            engine@ == (EngineView {
                corpus: Seq::empty(),
                crashes: Seq::empty(),
                best: Set::empty(),
                iteration: 0,
                phase: Phase::Seeding,
                cursor: None,
                rng: RandomView { seed: config.seed, drawn: Seq::empty() },
                config,
            }),
    {
        EngineState {
            corpus: Corpus::new(),
            crashes: CrashStore::new(),
            best: Fingerprint::empty(),
            rng: RandomSource::with_seed(config.seed),
            scheduler: Scheduler::new(),
            iteration: 0,
            phase: Phase::Seeding,
            config,
        }
    }

    /// The phase of the fuzz loop.
    pub fn phase(&self) -> (p: Phase)
        ensures
            p == self@.phase,
    {
        self.phase
    }

    /// The number of iterations run.
    pub fn iteration(&self) -> (n: u64)
        ensures
            n == self@.iteration,
    {
        self.iteration
    }

    /// The corpus.
    pub fn corpus(&self) -> (c: &Corpus)
        ensures
            c@ == self@.corpus,
    {
        &self.corpus
    }

    /// The crash store.
    pub fn crashes(&self) -> (c: &CrashStore)
        ensures
            c@ == self@.crashes,
    {
        &self.crashes
    }

    /// The cumulative best-seen coverage.
    pub fn best(&self) -> (b: &Fingerprint)
        ensures
            b@ == self@.best,
    {
        &self.best
    }

    /// The options this engine was made with.
    pub fn config(&self) -> (c: &EngineConfig)
        ensures
            *c == self.spec_config(),
    {
        &self.config
    }

    /// The progress event of this moment.
    pub fn progress(&self) -> (e: ProgressEvent)
        ensures
            e.iterations == self@.iteration,
            e.corpus_size == self@.corpus.len(),
            e.crash_count == self@.crashes.len(),
    {
        ProgressEvent {
            iterations: self.iteration,
            corpus_size: self.corpus.len(),
            crash_count: self.crashes.len(),
        }
    }

    /// Takes one seed input that has run into the engine. A crashing seed
    /// goes to the crash store; any other joins the corpus, interesting or
    /// not. An engine that is not seeding refuses and stays as it is.
    pub fn admit_seed(
        &mut self,
        input: Vec<u8>,
        outcome: ExecutionOutcome,
        fingerprint: Fingerprint,
    ) -> (r: Result<(), EngineError>)
        requires
            old(self).wf(),
        ensures
            final(self).wf(),
            final(self).spec_config() == old(self).spec_config(),
            old(self)@.phase != Phase::Seeding ==> r == Err::<(), EngineError>(
                EngineError::NotSeeding,
            ) && final(self)@ == old(self)@,
            old(self)@.phase == Phase::Seeding ==> r is Ok && final(self)@ == spec_admit_seed(
                old(self)@,
                input@,
                outcome,
                fingerprint@,
            ),
    {
        match self.phase {
            Phase::Seeding => {},
            _ => {
                return Err(EngineError::NotSeeding);
            },
        }
        if is_objective(outcome) {
            self.crashes.insert(input, fingerprint, self.iteration);
        } else {
            self.best.merge(&fingerprint);
            self.corpus.add(input, fingerprint, self.iteration);
        }
        Ok(())
    }

    /// Ends the seeding phase. With at least one entry in the corpus the
    /// engine starts iterating and the number of entries is returned; with
    /// an empty corpus it stops.
    pub fn finish_seeding(&mut self) -> (r: Result<usize, EngineError>)
        requires
            old(self).wf(),
        ensures
            final(self).wf(),
            final(self).spec_config() == old(self).spec_config(),
            old(self)@.phase != Phase::Seeding ==> r == Err::<usize, EngineError>(
                EngineError::NotSeeding,
            ) && final(self)@ == old(self)@,
            old(self)@.phase == Phase::Seeding && old(self)@.corpus.len() == 0 ==> r == Err::<
                usize,
                EngineError,
            >(EngineError::NoSeeds) && final(self)@ == (EngineView {
                phase: Phase::Stopped,
                ..old(self)@
            }),
            old(self)@.phase == Phase::Seeding && old(self)@.corpus.len() > 0 ==> r == Ok::<
                usize,
                EngineError,
            >(old(self)@.corpus.len() as usize) && final(self)@ == (EngineView {
                phase: Phase::Iterating,
                ..old(self)@
            }),
    {
        match self.phase {
            Phase::Seeding => {},
            _ => {
                return Err(EngineError::NotSeeding);
            },
        }
        let n = self.corpus.len();
        if n == 0 {
            self.phase = Phase::Stopped;
            Err(EngineError::NoSeeds)
        } else {
            self.phase = Phase::Iterating;
            Ok(n)
        }
    }

    /// Takes one candidate that has run into the engine: counts the
    /// iteration and routes the candidate by the verdict on its run. A crash
    /// goes to the crash store unless its fingerprint is stored already, and
    /// never to the corpus; a run with new coverage joins the corpus; any
    /// other is dropped. An engine that is not iterating refuses and stays
    /// as it is; one whose iteration budget is spent stops.
    pub fn record(
        &mut self,
        candidate: Vec<u8>,
        outcome: ExecutionOutcome,
        fingerprint: Fingerprint,
    ) -> (r: Result<StepReport, EngineError>)
        requires
            old(self).wf(),
        ensures
            final(self).wf(),
            final(self).spec_config() == old(self).spec_config(),
            old(self)@.phase != Phase::Iterating ==> r == Err::<StepReport, EngineError>(
                EngineError::NotIterating,
            ) && final(self)@ == old(self)@,
            old(self)@.phase == Phase::Iterating && old(self).spec_budget_spent() ==> r
                == Err::<StepReport, EngineError>(EngineError::BudgetExhausted) && final(self)@ == (
            EngineView { phase: Phase::Stopped, ..old(self)@ }),
            old(self)@.phase == Phase::Iterating && !old(self).spec_budget_spent() ==> r == Ok::<
                StepReport,
                EngineError,
            >(spec_report(old(self)@, outcome, fingerprint@)) && final(self)@ == spec_record(
                old(self)@,
                candidate@,
                outcome,
                fingerprint@,
            ),
    {
        match self.phase {
            Phase::Iterating => {},
            _ => {
                return Err(EngineError::NotIterating);
            },
        }
        if self.iteration >= self.config.iteration_budget {
            self.phase = Phase::Stopped;
            return Err(EngineError::BudgetExhausted);
        }
        let now = self.iteration + 1;
        let verdict = evaluate(outcome, &fingerprint, &mut self.best);
        let report = match verdict {
            Verdict::Objective => {
                let index = self.crashes.len();
                if self.crashes.insert(candidate, fingerprint, now) {
                    StepReport::NewCrash { index }
                } else {
                    StepReport::KnownCrash
                }
            },
            Verdict::Interesting => {
                let id = self.corpus.add(candidate, fingerprint, now);
                StepReport::Added { id }
            },
            Verdict::Discard => StepReport::Discarded,
        };
        self.iteration = now;
        Ok(report)
    }

    /// Runs one iteration: schedules the next seed, mutates a copy of it
    /// (with a randomly chosen other entry as the donor of spliced chunks),
    /// runs the harness on the candidate and records the run.
    pub fn fuzz_one<H>(&mut self, executor: &mut Executor, harness: &H) -> (r: Result<
        Iteration,
        EngineError,
    >) where H: Fn(CoverageMap, &Vec<u8>) -> (CoverageMap, ExecutionOutcome)
        requires
            old(self).wf(),
            spec_runs_on(*harness, old(executor).spec_slots()),
        ensures
            final(self).wf(),
            final(self).spec_config() == old(self).spec_config(),
            final(executor).spec_slots() == old(executor).spec_slots(),
            old(executor).wf() ==> final(executor).wf(),
            old(self)@.phase != Phase::Iterating ==> r == Err::<Iteration, EngineError>(
                EngineError::NotIterating,
            ) && final(self)@ == old(self)@,
            old(self)@.phase == Phase::Iterating && old(self).spec_budget_spent() ==> r
                == Err::<Iteration, EngineError>(EngineError::BudgetExhausted) && final(self)@ == (
            EngineView { phase: Phase::Stopped, ..old(self)@ }),
            old(self)@.phase == Phase::Iterating && !old(self).spec_budget_spent() ==> r is Ok
                && spec_iterated(
                    old(self)@,
                    *harness,
                    old(executor).spec_slots(),
                    r->Ok_0,
                    final(executor)@.map,
                    final(self)@,
                ),
    {
        match self.phase {
            Phase::Iterating => {},
            _ => {
                return Err(EngineError::NotIterating);
            },
        }
        if self.iteration >= self.config.iteration_budget {
            self.phase = Phase::Stopped;
            return Err(EngineError::BudgetExhausted);
        }
        let seed_id = match self.scheduler.next(&self.corpus) {
            Some(id) => id,
            // an iterating engine has a corpus to schedule from
            None => unreached(),
        };
        let donor_id = choose_donor(self.rng.next_word(), self.corpus.len(), seed_id);
        let no_donor: Vec<u8> = Vec::new();
        let seed = match self.corpus.get(seed_id) {
            Some(entry) => &entry.input,
            // the scheduler returns positions of the corpus
            None => unreached(),
        };
        let donor = match donor_id {
            Some(d) => match self.corpus.get(d) {
                Some(entry) => &entry.input,
                None => unreached(),
            },
            None => &no_donor,
        };
        let (candidate, steps) = mutate_traced(seed, donor, &mut self.rng, &self.config.mutation);
        let outcome = executor.execute(harness, &candidate);
        let fingerprint = executor.fingerprint();
        match self.record(candidate, outcome, fingerprint) {
            Ok(report) => Ok(Iteration { seed_id, donor_id, steps, outcome, report }),
            Err(e) => Err(e),
        }
    }

    /// Runs the seeding phase: generates the configured number of inputs,
    /// runs each one and admits it, then ends the phase. The engine stops
    /// where no seed reached the corpus.
    pub fn seed<H>(&mut self, executor: &mut Executor, harness: &H) -> (r: Result<
        usize,
        EngineError,
    >) where H: Fn(CoverageMap, &Vec<u8>) -> (CoverageMap, ExecutionOutcome)
        requires
            old(self).wf(),
            spec_runs_on(*harness, old(executor).spec_slots()),
        ensures
            final(self).wf(),
            final(self).spec_config() == old(self).spec_config(),
            final(executor).spec_slots() == old(executor).spec_slots(),
            old(executor).wf() ==> final(executor).wf(),
            spec_extends(old(self)@, final(self)@),
            final(self)@.rng == old(self)@.rng,
            final(self)@.iteration == old(self)@.iteration,
            final(self)@.cursor == old(self)@.cursor,
            old(self)@.phase != Phase::Seeding ==> r == Err::<usize, EngineError>(
                EngineError::NotSeeding,
            ) && final(self)@ == old(self)@,
            old(self)@.phase == Phase::Seeding ==> {
                &&& spec_seeded(
                    *harness,
                    old(executor).spec_slots(),
                    old(self)@,
                    EngineView { phase: Phase::Seeding, ..final(self)@ },
                    old(self).spec_config().initial_corpus_size as nat,
                )
                &&& final(self)@.corpus.len() > 0 ==> final(self)@.phase == Phase::Iterating
                    && r == Ok::<usize, EngineError>(final(self)@.corpus.len() as usize)
                &&& final(self)@.corpus.len() == 0 ==> final(self)@.phase == Phase::Stopped && r
                    == Err::<usize, EngineError>(EngineError::NoSeeds)
            },
    {
        match self.phase {
            Phase::Seeding => {},
            _ => {
                return Err(EngineError::NotSeeding);
            },
        }
        let inputs = match generate(
            &mut self.rng,
            self.config.initial_corpus_size,
            self.config.initial_input_max_length,
        ) {
            Ok(inputs) => inputs,
            // generation does not fail
            Err(_) => unreached(),
        };
        let n = inputs.len();
        let mut i: usize = 0;
        while i < n
            invariant
                i <= n,
                n == inputs@.len(),
                forall|j: int|
                    0 <= j < n ==> spec_printable_input(
                        (#[trigger] inputs@[j])@,
                        self.spec_config().initial_input_max_length as nat,
                    ),
                self.wf(),
                self.spec_config() == old(self).spec_config(),
                executor.spec_slots() == old(executor).spec_slots(),
                old(executor).wf() ==> executor.wf(),
                spec_runs_on(*harness, executor.spec_slots()),
                self@.phase == Phase::Seeding,
                spec_seeded(
                    *harness,
                    executor.spec_slots(),
                    old(self)@,
                    self@,
                    i as nat,
                ),
            decreases n - i,
        {
            let ghost mid = self@;
            let input = inputs[i].clone();
            assert(input@ =~= inputs@[i as int]@);
            let outcome = executor.execute(harness, &input);
            let fingerprint = executor.fingerprint();
            let _ = self.admit_seed(input, outcome, fingerprint);
            assert(spec_seed_admitted(
                mid,
                *harness,
                executor.spec_slots(),
                inputs@[i as int]@,
                outcome,
                executor@.map,
                self@,
            ));
            i += 1;
        }
        proof {
            lemma_seeded_extends(
                *harness,
                executor.spec_slots(),
                old(self)@,
                self@,
                n as nat,
            );
        }
        match self.finish_seeding() {
            Ok(count) => Ok(count),
            Err(e) => Err(e),
        }
    }

    /// Runs iterations until `steps` of them have run, until one of them
    /// stores a new crash, or until the engine refuses to iterate. A new
    /// crash ends the loop so that it can be persisted at once; the loop may
    /// then be entered again.
    pub fn fuzz_loop<H>(&mut self, executor: &mut Executor, harness: &H, steps: u64) -> (exit:
        LoopExit) where H: Fn(CoverageMap, &Vec<u8>) -> (CoverageMap, ExecutionOutcome)
        requires
            old(self).wf(),
            spec_runs_on(*harness, old(executor).spec_slots()),
        ensures
            final(self).wf(),
            final(self).spec_config() == old(self).spec_config(),
            final(executor).spec_slots() == old(executor).spec_slots(),
            old(executor).wf() ==> final(executor).wf(),
            spec_extends(old(self)@, final(self)@),
            final(self)@.iteration <= old(self)@.iteration + steps,
            spec_fuzzed(
                *harness,
                old(executor).spec_slots(),
                old(self)@,
                EngineView { phase: old(self)@.phase, ..final(self)@ },
                (final(self)@.iteration - old(self)@.iteration) as nat,
            ),
            exit is StepsDone ==> {
                &&& final(self)@.iteration == old(self)@.iteration + steps
                &&& final(self)@.crashes == old(self)@.crashes
                &&& final(self)@.phase == old(self)@.phase
            },
            exit matches LoopExit::CrashFound { index } ==> {
                &&& final(self)@.crashes.len() == old(self)@.crashes.len() + 1
                &&& index == old(self)@.crashes.len()
                &&& final(self)@.crashes[index as int].found_at == final(self)@.iteration
                &&& final(self)@.phase == Phase::Iterating
            },
            exit matches LoopExit::Halted { error } ==> {
                &&& final(self)@.crashes == old(self)@.crashes
                &&& error == EngineError::NotIterating ==> final(self)@ == old(self)@
                    && old(self)@.phase != Phase::Iterating
                &&& error == EngineError::BudgetExhausted ==> final(self)@.phase == Phase::Stopped
                    && old(self)@.phase == Phase::Iterating && final(self).spec_budget_spent()
                &&& error == EngineError::NotIterating || error == EngineError::BudgetExhausted
            },
    {
        let mut done: u64 = 0;
        while done < steps
            invariant
                done <= steps,
                self.wf(),
                self.spec_config() == old(self).spec_config(),
                executor.spec_slots() == old(executor).spec_slots(),
                old(executor).wf() ==> executor.wf(),
                spec_runs_on(*harness, executor.spec_slots()),
                spec_extends(old(self)@, self@),
                spec_fuzzed(
                    *harness,
                    executor.spec_slots(),
                    old(self)@,
                    self@,
                    done as nat,
                ),
                self@.iteration == old(self)@.iteration + done,
                self@.crashes == old(self)@.crashes,
                self@.phase == old(self)@.phase,
                done > 0 ==> self@.phase == Phase::Iterating,
            decreases steps - done,
        {
            let ghost mid = self@;
            match self.fuzz_one(executor, harness) {
                Ok(it) => {
                    proof {
                        assert(spec_iterated(
                            mid,
                            *harness,
                            executor.spec_slots(),
                            it,
                            executor@.map,
                            self@,
                        ));
                        lemma_fuzzed_extends(
                            *harness,
                            executor.spec_slots(),
                            old(self)@,
                            self@,
                            (done + 1) as nat,
                        );
                    }
                    done += 1;
                    match it.report {
                        StepReport::NewCrash { index } => {
                            return LoopExit::CrashFound { index };
                        },
                        _ => {},
                    }
                },
                Err(error) => {
                    return LoopExit::Halted { error };
                },
            }
        }
        LoopExit::StepsDone
    }

    /// Stops the engine for good.
    pub fn stop(&mut self)
        requires
            old(self).wf(),
        ensures
            final(self).wf(),
            final(self).spec_config() == old(self).spec_config(),
            final(self)@ == (EngineView { phase: Phase::Stopped, ..old(self)@ }),
    {
        self.phase = Phase::Stopped;
    }
}

/// Objective precedence: a candidate whose run ended in a crash is never
/// appended to the corpus, whatever its coverage; nor is a crashing seed.
/// The cumulative best is left alone too.
pub proof fn lemma_crash_never_joins_corpus(
    s: EngineView,
    candidate: Seq<u8>,
    fingerprint: Set<int>,
)
    ensures
        spec_record(s, candidate, ExecutionOutcome::Crash, fingerprint).corpus == s.corpus,
        spec_record(s, candidate, ExecutionOutcome::Crash, fingerprint).best == s.best,
        spec_admit_seed(s, candidate, ExecutionOutcome::Crash, fingerprint).corpus == s.corpus,
        spec_report(s, ExecutionOutcome::Crash, fingerprint) is NewCrash || spec_report(
            s,
            ExecutionOutcome::Crash,
            fingerprint,
        ) is KnownCrash,
{
}

/// The engine invariant survives every recorded run, and an entry joins the
/// corpus only for a run that did not crash and covered an index which the
/// cumulative best did not hold.
pub proof fn lemma_record_keeps_invariant(
    s: EngineView,
    candidate: Seq<u8>,
    outcome: ExecutionOutcome,
    fingerprint: Set<int>,
)
    requires
        spec_engine_wf(s),
        s.corpus.len() < usize::MAX,
        s.crashes.len() < usize::MAX,
    ensures
        spec_engine_wf(spec_record(s, candidate, outcome, fingerprint)),
        spec_record(s, candidate, outcome, fingerprint).corpus.len() > s.corpus.len()
            ==> !fingerprint.subset_of(s.best) && outcome != ExecutionOutcome::Crash,
{
    let after = spec_record(s, candidate, outcome, fingerprint);
    crate::crashes::lemma_insert_deduplicated(
        s.crashes,
        candidate,
        fingerprint,
        s.iteration + 1,
    );
    assert forall|i: int| 0 <= i < after.corpus.len() implies (
    #[trigger] after.corpus[i]).fingerprint.subset_of(after.best) by {
        if i < s.corpus.len() {
            assert(s.corpus[i].fingerprint.subset_of(s.best));
        }
    }
}

} // verus!

//! The crash store: inputs that crashed the target, one per fingerprint.

use crate::coverage::Fingerprint;
use vstd::prelude::*;

verus! {

/// An input that crashed the target with what was known of the crash.
pub struct CrashRecord {
    /// The input bytes.
    pub input: Vec<u8>,
    /// The coverage reached when the target crashed.
    pub fingerprint: Fingerprint,
    /// The number of the iteration that found it.
    pub found_at: u64,
}

/// The mathematical content of a crash record.
pub ghost struct CrashView {
    pub input: Seq<u8>,
    pub fingerprint: Set<int>,
    pub found_at: nat,
}

impl View for CrashRecord {
    type V = CrashView;

    open spec fn view(&self) -> CrashView {
        CrashView {
            input: self.input@,
            fingerprint: self.fingerprint@,
            found_at: self.found_at as nat,
        }
    }
}

/// Whether some record has the given fingerprint.
pub open spec fn spec_known(records: Seq<CrashView>, fingerprint: Set<int>) -> bool {
    exists|i: int| 0 <= i < records.len() && (#[trigger] records[i]).fingerprint == fingerprint
}

/// No two records share a fingerprint.
pub open spec fn spec_deduplicated(records: Seq<CrashView>) -> bool {
    forall|i: int, j: int|
        0 <= i < j < records.len() ==> (#[trigger] records[i]).fingerprint != (
        #[trigger] records[j]).fingerprint
}

/// The store after a crash is reported: a record is appended unless its
/// fingerprint is known already.
pub open spec fn spec_insert(
    records: Seq<CrashView>,
    input: Seq<u8>,
    fingerprint: Set<int>,
    found_at: nat,
) -> Seq<CrashView> {
    if spec_known(records, fingerprint) {
        records
    } else {
        records.push(CrashView { input, fingerprint, found_at })
    }
}

/// The number of records with the given fingerprint.
pub open spec fn spec_count(records: Seq<CrashView>, fingerprint: Set<int>) -> nat
    decreases records.len(),
{
    if records.len() == 0 {
        0
    } else {
        spec_count(records.drop_last(), fingerprint) + if records.last().fingerprint
            == fingerprint {
            1nat
        } else {
            0nat
        }
    }
}

/// The deduplicated store of crashing inputs, in the order they were found.
pub struct CrashStore {
    records: Vec<CrashRecord>,
}

impl View for CrashStore {
    type V = Seq<CrashView>;

    closed spec fn view(&self) -> Seq<CrashView> {
        self.records@.map_values(|r: CrashRecord| r@)
    }
}

impl CrashStore {
    /// The store invariant: at most one record per fingerprint.
    pub open spec fn wf(&self) -> bool {
        spec_deduplicated(self@)
    }

    /// An empty store.
    pub fn new() -> (store: CrashStore)
        ensures
            store@ == Seq::<CrashView>::empty(),
            store.wf(),
    {
        let store = CrashStore { records: Vec::new() };
        assert(store@ =~= Seq::<CrashView>::empty());
        store
    }

    /// The number of records.
    pub fn len(&self) -> (n: usize)
        ensures
            n == self@.len(),
    {
        self.records.len()
    }

    /// The record at position `index`, if there is one.
    pub fn get(&self, index: usize) -> (r: Option<&CrashRecord>)
        ensures
            index < self@.len() ==> r is Some && r->0@ == self@[index as int],
            index >= self@.len() ==> r is None,
    {
        if index < self.records.len() {
            Some(&self.records[index])
        } else {
            None
        }
    }

    /// Whether a crash with this fingerprint is stored already.
    pub fn contains(&self, fingerprint: &Fingerprint) -> (b: bool)
        ensures
            b == spec_known(self@, fingerprint@),
    {
        let n = self.records.len();
        let mut i: usize = 0;
        while i < n
            invariant
                i <= n,
                n == self.records@.len(),
                n == self@.len(),
                forall|j: int| 0 <= j < i ==> (#[trigger] self@[j]).fingerprint != fingerprint@,
            decreases n - i,
        {
            if self.records[i].fingerprint.same_as(fingerprint) {
                assert(self@[i as int].fingerprint == fingerprint@);
                return true;
            }
            i += 1;
        }
        false
    }

    /// Stores a crashing input unless a crash with the same fingerprint is
    /// stored already. Returns whether the crash was new.
    pub fn insert(&mut self, input: Vec<u8>, fingerprint: Fingerprint, found_at: u64) -> (novel:
        bool)
        requires
            old(self).wf(),
        ensures
            final(self).wf(),
            novel == !spec_known(old(self)@, fingerprint@),
            final(self)@ == spec_insert(old(self)@, input@, fingerprint@, found_at as nat),
            final(self)@.len() <= usize::MAX,
    {
        if self.contains(&fingerprint) {
            let _ = self.records.len();
            false
        } else {
            let record = CrashRecord { input, fingerprint, found_at };
            self.records.push(record);
            let _ = self.records.len();
            assert(self@ =~= old(self)@.push(record@));
            true
        }
    }
}

/// A deduplicated store holds one record of a known fingerprint and none of
/// an unknown one.
pub proof fn lemma_count_of_deduplicated(records: Seq<CrashView>, fingerprint: Set<int>)
    requires
        spec_deduplicated(records),
    ensures
        spec_count(records, fingerprint) == if spec_known(records, fingerprint) {
            1nat
        } else {
            0nat
        },
    decreases records.len(),
{
    if records.len() > 0 {
        let front = records.drop_last();
        lemma_count_of_deduplicated(front, fingerprint);
        if records.last().fingerprint == fingerprint {
            if spec_known(front, fingerprint) {
                let i = choose|i: int|
                    0 <= i < front.len() && (#[trigger] front[i]).fingerprint == fingerprint;
                assert(records[i].fingerprint == records[records.len() - 1].fingerprint);
            }
            assert(records[records.len() - 1].fingerprint == fingerprint);
        } else {
            if spec_known(records, fingerprint) {
                let i = choose|i: int|
                    0 <= i < records.len() && (#[trigger] records[i]).fingerprint == fingerprint;
                assert(front[i].fingerprint == fingerprint);
            }
            if spec_known(front, fingerprint) {
                let i = choose|i: int|
                    0 <= i < front.len() && (#[trigger] front[i]).fingerprint == fingerprint;
                assert(records[i].fingerprint == fingerprint);
            }
        }
    }
}

/// Reporting a crash keeps the store deduplicated and leaves its
/// fingerprint known.
pub proof fn lemma_insert_deduplicated(
    records: Seq<CrashView>,
    input: Seq<u8>,
    fingerprint: Set<int>,
    found_at: nat,
)
    requires
        spec_deduplicated(records),
    ensures
        spec_deduplicated(spec_insert(records, input, fingerprint, found_at)),
        spec_known(spec_insert(records, input, fingerprint, found_at), fingerprint),
        records.is_prefix_of(spec_insert(records, input, fingerprint, found_at)),
{
    let after = spec_insert(records, input, fingerprint, found_at);
    if spec_known(records, fingerprint) {
    } else {
        assert(after[after.len() - 1].fingerprint == fingerprint);
        assert forall|i: int, j: int| 0 <= i < j < after.len() implies (
        #[trigger] after[i]).fingerprint != (#[trigger] after[j]).fingerprint by {
            if j == after.len() - 1 {
                assert(records[i].fingerprint != fingerprint);
            } else {
                assert(records[i].fingerprint != records[j].fingerprint);
            }
        }
    }
}

/// Crash deduplication: two inputs that crash with the same fingerprint
/// leave exactly one record of it; the second report changes nothing, and
/// the first adds a record only where the fingerprint was not stored yet.
pub proof fn lemma_same_fingerprint_one_record(
    records: Seq<CrashView>,
    first: Seq<u8>,
    second: Seq<u8>,
    fingerprint: Set<int>,
    first_at: nat,
    second_at: nat,
)
    requires
        spec_deduplicated(records),
    ensures
        spec_insert(
            spec_insert(records, first, fingerprint, first_at),
            second,
            fingerprint,
            second_at,
        ) == spec_insert(records, first, fingerprint, first_at),
        spec_count(
            spec_insert(
                spec_insert(records, first, fingerprint, first_at),
                second,
                fingerprint,
                second_at,
            ),
            fingerprint,
        ) == 1,
        spec_insert(
            spec_insert(records, first, fingerprint, first_at),
            second,
            fingerprint,
            second_at,
        ).len() == records.len() + if spec_known(records, fingerprint) {
            0nat
        } else {
            1nat
        },
{
    let once = spec_insert(records, first, fingerprint, first_at);
    lemma_insert_deduplicated(records, first, fingerprint, first_at);
    lemma_count_of_deduplicated(once, fingerprint);
}

} // verus!

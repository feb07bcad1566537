//! The corpus: the append-only store of inputs that reached new coverage.

use crate::coverage::Fingerprint;
use vstd::prelude::*;

verus! {

/// An input of the corpus with what was known of it when it was found.
pub struct CorpusEntry {
    /// The entry's id, unique within its corpus.
    pub id: usize,
    /// The input bytes.
    pub input: Vec<u8>,
    /// The coverage the input reached when it was found.
    pub fingerprint: Fingerprint,
    /// The number of the iteration that found it.
    pub found_at: u64,
}

/// The mathematical content of a corpus entry.
pub ghost struct EntryView {
    pub id: nat,
    pub input: Seq<u8>,
    pub fingerprint: Set<int>,
    pub found_at: nat,
}

impl View for CorpusEntry {
    type V = EntryView;

    open spec fn view(&self) -> EntryView {
        EntryView {
            id: self.id as nat,
            input: self.input@,
            fingerprint: self.fingerprint@,
            found_at: self.found_at as nat,
        }
    }
}

/// The corpus after one more input: the new entry comes last and takes the
/// number of entries before it as its id.
pub open spec fn spec_add(
    entries: Seq<EntryView>,
    input: Seq<u8>,
    fingerprint: Set<int>,
    found_at: nat,
) -> Seq<EntryView> {
    entries.push(EntryView { id: entries.len(), input, fingerprint, found_at })
}

/// Every entry's id is its position, so ids grow by one with each insertion.
pub open spec fn spec_ids_in_order(entries: Seq<EntryView>) -> bool {
    forall|i: int| 0 <= i < entries.len() ==> (#[trigger] entries[i]).id == i
}

/// An ordered, append-only sequence of entries. Insertion order is
/// scheduling order.
pub struct Corpus {
    entries: Vec<CorpusEntry>,
}

impl View for Corpus {
    type V = Seq<EntryView>;

    closed spec fn view(&self) -> Seq<EntryView> {
        self.entries@.map_values(|e: CorpusEntry| e@)
    }
}

impl Corpus {
    /// The corpus invariant: ids are the positions of their entries.
    pub open spec fn wf(&self) -> bool {
        spec_ids_in_order(self@)
    }

    /// An empty corpus.
    pub fn new() -> (corpus: Corpus)
        ensures
            corpus@ == Seq::<EntryView>::empty(),
            corpus.wf(),
    {
        let corpus = Corpus { entries: Vec::new() };
        assert(corpus@ =~= Seq::<EntryView>::empty());
        corpus
    }

    /// The number of entries.
    pub fn len(&self) -> (n: usize)
        ensures
            n == self@.len(),
    {
        self.entries.len()
    }

    /// Whether the corpus holds no entry.
    pub fn is_empty(&self) -> (b: bool)
        ensures
            b == (self@.len() == 0),
    {
        self.entries.len() == 0
    }

    /// Appends an input and returns the id of its entry.
    pub fn add(&mut self, input: Vec<u8>, fingerprint: Fingerprint, found_at: u64) -> (id: usize)
        requires
            old(self).wf(),
        ensures
            final(self).wf(),
            final(self)@ == spec_add(old(self)@, input@, fingerprint@, found_at as nat),
            final(self)@.len() <= usize::MAX,
            id == old(self)@.len(),
    {
        let id = self.entries.len();
        let entry = CorpusEntry { id, input, fingerprint, found_at };
        self.entries.push(entry);
        let _ = self.entries.len();
        assert(self@ =~= spec_add(old(self)@, input@, fingerprint@, found_at as nat));
        id
    }

    /// The entry with the given id, if the corpus holds one.
    pub fn get(&self, id: usize) -> (r: Option<&CorpusEntry>)
        ensures
            id < self@.len() ==> r is Some && r->0@ == self@[id as int],
            id >= self@.len() ==> r is None,
    {
        if id < self.entries.len() {
            Some(&self.entries[id])
        } else {
            None
        }
    }
}

/// One insertion: the input, its fingerprint, and the iteration that found
/// it.
pub ghost struct Insertion {
    pub input: Seq<u8>,
    pub fingerprint: Set<int>,
    pub found_at: nat,
}

/// The corpus after a sequence of insertions, made first to last.
pub open spec fn spec_add_all(entries: Seq<EntryView>, insertions: Seq<Insertion>) -> Seq<
    EntryView,
>
    decreases insertions.len(),
{
    if insertions.len() == 0 {
        entries
    } else {
        let last = insertions.last();
        spec_add(
            spec_add_all(entries, insertions.drop_last()),
            last.input,
            last.fingerprint,
            last.found_at,
        )
    }
}

/// Id monotonicity: whatever sequence of insertions is made into a corpus
/// whose ids are in order, the ids stay in order; so they are strictly
/// increasing along the corpus and no two entries share one. The entries
/// that were there stay where they were.
pub proof fn lemma_ids_strictly_increasing(entries: Seq<EntryView>, insertions: Seq<Insertion>)
    requires
        spec_ids_in_order(entries),
    ensures
        spec_ids_in_order(spec_add_all(entries, insertions)),
        spec_add_all(entries, insertions).len() == entries.len() + insertions.len(),
        entries.is_prefix_of(spec_add_all(entries, insertions)),
        forall|i: int, j: int|
            0 <= i < j < spec_add_all(entries, insertions).len() ==> (#[trigger] spec_add_all(
                entries,
                insertions,
            )[i]).id < (#[trigger] spec_add_all(entries, insertions)[j]).id,
        forall|i: int, j: int|
            0 <= i < spec_add_all(entries, insertions).len() && 0 <= j < spec_add_all(
                entries,
                insertions,
            ).len() && i != j ==> (#[trigger] spec_add_all(entries, insertions)[i]).id != (
            #[trigger] spec_add_all(entries, insertions)[j]).id,
    decreases insertions.len(),
{
    if insertions.len() > 0 {
        lemma_ids_strictly_increasing(entries, insertions.drop_last());
    }
}

} // verus!

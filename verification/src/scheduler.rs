//! The scheduler: a round-robin walk over the corpus in insertion order.

use crate::corpus::Corpus;
use vstd::prelude::*;

verus! {

/// The id that follows `cursor` in a corpus of `count` entries: the next
/// position, or the first one after the last and at the start.
pub open spec fn spec_next_id(cursor: Option<int>, count: int) -> int {
    match cursor {
        Some(c) => if c + 1 < count {
            c + 1
        } else {
            0
        },
        None => 0,
    }
}

/// The id that the call number `k` (from 0) returns, over a corpus that
/// stays at `count` entries, from a scheduler that starts at `cursor`.
pub open spec fn spec_visit(cursor: Option<int>, count: int, k: nat) -> int
    decreases k,
{
    if k == 0 {
        spec_next_id(cursor, count)
    } else {
        spec_next_id(Some(spec_visit(cursor, count, (k - 1) as nat)), count)
    }
}

/// Whether one of the first `count` calls returns `id`.
pub open spec fn spec_is_visited(cursor: Option<int>, count: int, id: int) -> bool {
    exists|k: nat| k < count && #[trigger] spec_visit(cursor, count, k) == id
}

/// Picks which corpus entry to mutate next.
pub struct Scheduler {
    cursor: Option<usize>,
}

impl View for Scheduler {
    type V = Option<int>;

    closed spec fn view(&self) -> Option<int> {
        match self.cursor {
            Some(c) => Some(c as int),
            None => None,
        }
    }
}

impl Scheduler {
    /// A scheduler that has not visited any entry.
    pub fn new() -> (s: Scheduler)
        ensures
            s@ == None::<int>,
    {
        Scheduler { cursor: None }
    }

    /// The id visited last, if any.
    pub fn current(&self) -> (r: Option<usize>)
        ensures
            r is Some == self@ is Some,
            r matches Some(c) ==> self@ == Some(c as int),
    {
        self.cursor
    }

    /// The id of the entry to visit next, `None` on an empty corpus. Entries
    /// are visited in insertion order; after the last comes the first again.
    /// An entry appended since the last call is reached in its turn.
    pub fn next(&mut self, corpus: &Corpus) -> (r: Option<usize>)
        ensures
            corpus@.len() == 0 ==> r is None && final(self)@ == old(self)@,
            corpus@.len() > 0 ==> {
                &&& r == Some(spec_next_id(old(self)@, corpus@.len() as int) as usize)
                &&& r->0 < corpus@.len()
                &&& final(self)@ == Some(r->0 as int)
            },
    {
        let count = corpus.len();
        if count == 0 {
            return None;
        }
        let id: usize = match self.cursor {
            Some(c) => if c < count - 1 {
                c + 1
            } else {
                0
            },
            None => 0,
        };
        self.cursor = Some(id);
        Some(id)
    }
}

/// Every call on a corpus of `count` entries returns the id that follows the
/// one before it, cyclically.
pub proof fn lemma_visit_follows(cursor: Option<int>, count: int, k: nat)
    requires
        count > 0,
        cursor matches Some(c) ==> 0 <= c < count,
    ensures
        0 <= spec_visit(cursor, count, k) < count,
        spec_visit(cursor, count, k) == (spec_visit(cursor, count, 0) + k) % count,
    decreases k,
{
    let first = spec_visit(cursor, count, 0);
    if k == 0 {
        assert(first % count == first) by (nonlinear_arith)
            requires
                0 <= first < count,
        ;
    } else {
        lemma_visit_follows(cursor, count, (k - 1) as nat);
        let prev = spec_visit(cursor, count, (k - 1) as nat);
        let sum = first + k - 1;
        assert(prev == sum % count);
        if prev + 1 < count {
            assert((sum + 1) % count == sum % count + 1) by (nonlinear_arith)
                requires
                    count > 0,
                    sum >= 0,
                    sum % count + 1 < count,
            ;
        } else {
            assert((sum + 1) % count == 0) by (nonlinear_arith)
                requires
                    count > 0,
                    sum >= 0,
                    sum % count + 1 == count,
            ;
        }
    }
}

/// Scheduling fairness: over a corpus that stays at `count` entries, any
/// `count` consecutive calls visit every entry exactly once, in insertion
/// order (cyclically, from the entry after the cursor); a scheduler that has
/// visited nothing yet starts with the first entry.
pub proof fn lemma_round_robin_is_fair(cursor: Option<int>, count: int)
    requires
        count > 0,
        cursor matches Some(c) ==> 0 <= c < count,
    ensures
        forall|k: nat| k < count ==> 0 <= #[trigger] spec_visit(cursor, count, k) < count,
        forall|j: nat, k: nat|
            j < k < count ==> #[trigger] spec_visit(cursor, count, j) != #[trigger] spec_visit(
                cursor,
                count,
                k,
            ),
        forall|id: int| 0 <= id < count ==> #[trigger] spec_is_visited(cursor, count, id),
        forall|k: nat|
            k + 1 < count ==> #[trigger] spec_visit(cursor, count, k + 1) == (spec_visit(
                cursor,
                count,
                k,
            ) + 1) % count,
        cursor is None ==> forall|k: nat|
            k < count ==> #[trigger] spec_visit(cursor, count, k) == k,
{
    let first = spec_visit(cursor, count, 0);
    assert forall|k: nat| k < count implies 0 <= #[trigger] spec_visit(cursor, count, k)
        < count by {
        lemma_visit_follows(cursor, count, k);
    }
    assert forall|j: nat, k: nat| j < k < count implies #[trigger] spec_visit(cursor, count, j)
        != #[trigger] spec_visit(cursor, count, k) by {
        lemma_visit_follows(cursor, count, j);
        lemma_visit_follows(cursor, count, k);
        lemma_distinct_residues(first, j as int, k as int, count);
    }
    assert forall|id: int| 0 <= id < count implies #[trigger] spec_is_visited(
        cursor,
        count,
        id,
    ) by {
        let k = if id >= first {
            (id - first) as nat
        } else {
            (id - first + count) as nat
        };
        lemma_visit_follows(cursor, count, k);
        if id >= first {
            assert((first + (id - first)) % count == id) by (nonlinear_arith)
                requires
                    0 <= id < count,
            ;
        } else {
            assert((first + (id - first + count)) % count == id) by (nonlinear_arith)
                requires
                    0 <= id < count,
            ;
        }
        assert(k < count && spec_visit(cursor, count, k) == id);
    }
    assert forall|k: nat| k + 1 < count implies #[trigger] spec_visit(cursor, count, k + 1) == (
    spec_visit(cursor, count, k) + 1) % count by {
        lemma_visit_follows(cursor, count, k);
        let v = spec_visit(cursor, count, k);
        if v + 1 < count {
            assert((v + 1) % count == v + 1) by (nonlinear_arith)
                requires
                    0 <= v,
                    v + 1 < count,
            ;
        } else {
            assert((v + 1) % count == 0) by (nonlinear_arith)
                requires
                    v + 1 == count,
                    count > 0,
            ;
        }
    }
    if cursor is None {
        assert forall|k: nat| k < count implies #[trigger] spec_visit(cursor, count, k) == k by {
            lemma_visit_follows(cursor, count, k);
            let ki = k as int;
            assert((0 + ki) % count == ki) by (nonlinear_arith)
                requires
                    0 <= ki < count,
            ;
        }
    }
}

/// Two offsets less than `count` apart land on different residues.
proof fn lemma_distinct_residues(first: int, j: int, k: int, count: int)
    requires
        0 <= first,
        0 <= j < k < count,
    ensures
        (first + j) % count != (first + k) % count,
{
    let a = first + j;
    let b = first + k;
    if a % count == b % count {
        vstd::arithmetic::div_mod::lemma_fundamental_div_mod(a, count);
        vstd::arithmetic::div_mod::lemma_fundamental_div_mod(b, count);
        let qa = a / count;
        let qb = b / count;
        assert(b - a == count * (qb - qa)) by (nonlinear_arith)
            requires
                a == count * qa + a % count,
                b == count * qb + b % count,
                a % count == b % count,
        ;
        assert(false) by (nonlinear_arith)
            requires
                0 < b - a < count,
                b - a == count * (qb - qa),
        ;
    }
}

} // verus!

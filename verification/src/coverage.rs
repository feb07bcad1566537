//! Coverage maps and the fingerprints derived from them.

use vstd::prelude::*;

verus! {

/// The set of slot indices that a map snapshot holds a non-zero value at.
pub open spec fn spec_covered(slots: Seq<u8>) -> Set<int> {
    Set::new(|i: int| 0 <= i < slots.len() && slots[i] != 0)
}

/// The map in which no point has been reached.
pub open spec fn spec_zero_map(size: nat) -> Seq<u8> {
    Seq::new(size, |i: int| 0u8)
}

/// A fixed-length record of reached program points, one slot per point.
pub struct CoverageMap {
    slots: Vec<u8>,
}

impl View for CoverageMap {
    type V = Seq<u8>;

    closed spec fn view(&self) -> Seq<u8> {
        self.slots@
    }
}

impl CoverageMap {
    /// A map of `size` slots, all zero.
    pub fn new(size: usize) -> (map: CoverageMap)
        ensures
            map@ == spec_zero_map(size as nat),
    {
        let mut slots: Vec<u8> = Vec::new();
        let mut i: usize = 0;
        while i < size
            invariant
                i <= size,
                slots@ == spec_zero_map(i as nat),
            decreases size - i,
        {
            slots.push(0u8);
            i += 1;
        }
        CoverageMap { slots }
    }

    /// The number of slots.
    pub fn len(&self) -> (n: usize)
        ensures
            n == self@.len(),
    {
        self.slots.len()
    }

    /// The value of slot `idx`, or zero where the map has no such slot.
    pub fn get(&self, idx: usize) -> (value: u8)
        ensures
            value == (if idx < self@.len() { self@[idx as int] } else { 0u8 }),
    {
        if idx < self.slots.len() {
            self.slots[idx]
        } else {
            0
        }
    }

    /// Puts every slot back to zero and keeps the length.
    pub fn reset(&mut self)
        ensures
            final(self)@ == spec_zero_map(old(self)@.len()),
    {
        let n = self.slots.len();
        let mut i: usize = 0;
        while i < n
            invariant
                i <= n,
                self.slots@.len() == n,
                forall|j: int| 0 <= j < i ==> self.slots@[j] == 0u8,
            decreases n - i,
        {
            self.slots.set(i, 0u8);
            i += 1;
        }
    }

    /// The fingerprint of this snapshot: the indices of its non-zero slots.
    pub fn fingerprint(&self) -> (fp: Fingerprint)
        ensures
            fp@ == spec_covered(self@),
    {
        let n = self.slots.len();
        let mut bits: Vec<bool> = Vec::new();
        let mut i: usize = 0;
        while i < n
            invariant
                i <= n,
                n == self.slots@.len(),
                bits@.len() == i,
                forall|j: int| 0 <= j < i ==> bits@[j] == (self.slots@[j] != 0),
            decreases n - i,
        {
            bits.push(self.slots[i] != 0);
            i += 1;
        }
        let fp = Fingerprint { bits };
        assert(fp@ =~= spec_covered(self@));
        fp
    }
}

/// Marks the point `idx` as reached.
pub fn signals_set(map: &mut CoverageMap, idx: usize)
    requires
        idx < old(map)@.len(),
    ensures
        final(map)@ == old(map)@.update(idx as int, 1u8),
{
    map.slots.set(idx, 1u8);
}

/// An order-independent summary of a map snapshot: the set of covered
/// indices. Two fingerprints are the same when they hold the same indices,
/// whatever the length of the maps they came from.
pub struct Fingerprint {
    bits: Vec<bool>,
}

impl View for Fingerprint {
    type V = Set<int>;

    closed spec fn view(&self) -> Set<int> {
        Set::new(|i: int| 0 <= i < self.bits@.len() && self.bits@[i])
    }
}

impl Fingerprint {
    /// The fingerprint that covers nothing.
    pub fn empty() -> (fp: Fingerprint)
        ensures
            fp@ == Set::<int>::empty(),
    {
        let fp = Fingerprint { bits: Vec::new() };
        assert(fp@ =~= Set::<int>::empty());
        fp
    }

    /// Whether index `idx` is covered.
    pub fn contains(&self, idx: usize) -> (b: bool)
        ensures
            b == self@.contains(idx as int),
    {
        idx < self.bits.len() && self.bits[idx]
    }

    /// Whether every index covered here is covered by `other` too.
    pub fn is_subset_of(&self, other: &Fingerprint) -> (b: bool)
        ensures
            b == self@.subset_of(other@),
    {
        let n = self.bits.len();
        let mut i: usize = 0;
        while i < n
            invariant
                i <= n,
                n == self.bits@.len(),
                forall|j: int| 0 <= j < i && self.bits@[j] ==> other@.contains(j),
            decreases n - i,
        {
            if self.bits[i] && !other.contains(i) {
                assert(self@.contains(i as int));
                return false;
            }
            i += 1;
        }
        true
    }

    /// Whether both fingerprints cover the same indices.
    pub fn same_as(&self, other: &Fingerprint) -> (b: bool)
        ensures
            b == (self@ == other@),
    {
        let b = self.is_subset_of(other) && other.is_subset_of(self);
        assert(b ==> self@ =~= other@);
        b
    }

    /// Adds every index that `other` covers.
    pub fn merge(&mut self, other: &Fingerprint)
        ensures
            final(self)@ == old(self)@.union(other@),
    {
        let ghost before = self.bits@;
        let n = other.bits.len();
        let mut i: usize = 0;
        while i < n
            invariant
                i <= n,
                n == other.bits@.len(),
                self.bits@.len() == if before.len() >= i { before.len() } else { i as nat },
                forall|j: int|
                    0 <= j < self.bits@.len() ==> #[trigger] self.bits@[j] == ((j < before.len()
                        && before[j]) || (j < i && other.bits@[j])),
            decreases n - i,
        {
            if i < self.bits.len() {
                if other.bits[i] {
                    self.bits.set(i, true);
                }
            } else {
                self.bits.push(other.bits[i]);
            }
            i += 1;
        }
        assert(self@ =~= old(self)@.union(other@));
    }

    /// The covered indices in increasing order.
    pub fn indices(&self) -> (out: Vec<usize>)
        ensures
            forall|k: int| 0 <= k < out@.len() ==> self@.contains(#[trigger] out@[k] as int),
            forall|i: int| self@.contains(i) ==> exists|k: int|
                0 <= k < out@.len() && #[trigger] out@[k] == i,
            forall|j: int, k: int| 0 <= j < k < out@.len() ==> out@[j] < out@[k],
    {
        let n = self.bits.len();
        let mut out: Vec<usize> = Vec::new();
        let mut i: usize = 0;
        while i < n
            invariant
                i <= n,
                n == self.bits@.len(),
                forall|k: int|
                    0 <= k < out@.len() ==> #[trigger] out@[k] < i && self.bits@[out@[k] as int],
                forall|j: int| 0 <= j < i && self.bits@[j] ==> exists|k: int|
                    0 <= k < out@.len() && #[trigger] out@[k] == j,
                forall|j: int, k: int| 0 <= j < k < out@.len() ==> out@[j] < out@[k],
            decreases n - i,
        {
            if self.bits[i] {
                let ghost prev = out@;
                out.push(i);
                assert forall|j: int| 0 <= j < i && self.bits@[j] implies exists|k: int|
                    0 <= k < out@.len() && #[trigger] out@[k] == j by {
                    let k = choose|k: int| 0 <= k < prev.len() && #[trigger] prev[k] == j;
                    assert(out@[k] == j);
                }
                assert(out@[out@.len() - 1] == i);
            }
            i += 1;
        }
        out
    }
}

impl Clone for Fingerprint {
    fn clone(&self) -> (fp: Fingerprint)
        ensures
            fp@ == self@,
    {
        let fp = Fingerprint { bits: self.bits.clone() };
        assert(fp.bits@ =~= self.bits@);
        fp
    }
}

} // verus!

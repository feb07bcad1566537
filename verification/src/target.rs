//! The demonstration target: it reaches one more coverage point for each
//! byte of the prefix "ab" and crashes on the prefix "abc".

use crate::coverage::{signals_set, CoverageMap};
use crate::feedback::ExecutionOutcome;
use vstd::prelude::*;

verus! {

/// How many points the target reaches on `input`: the entry point, one more
/// if the input starts with `a`, one more if `b` follows.
pub open spec fn spec_prefix_depth(input: Seq<u8>) -> nat {
    if input.len() > 0 && input[0] == 0x61 {
        if input.len() > 1 && input[1] == 0x62 {
            3
        } else {
            2
        }
    } else {
        1
    }
}

/// Whether `input` sets off the planted bug: it starts with `abc`.
pub open spec fn spec_prefix_bug(input: Seq<u8>) -> bool {
    spec_prefix_depth(input) == 3 && input.len() > 2 && input[2] == 0x63
}

/// The map with the first `depth` points marked, as far as it has slots.
pub open spec fn spec_marked(before: Seq<u8>, depth: nat) -> Seq<u8> {
    Seq::new(
        before.len(),
        |i: int|
            if i < depth {
                1u8
            } else {
                before[i]
            },
    )
}

/// How a run of the target ends: in a crash on the planted bug, and also
/// where it reaches a point that the map has no slot for.
pub open spec fn spec_prefix_outcome(input: Seq<u8>, slots: nat) -> ExecutionOutcome {
    if spec_prefix_depth(input) > slots || spec_prefix_bug(input) {
        ExecutionOutcome::Crash
    } else {
        ExecutionOutcome::Normal
    }
}

/// Marks point `idx` if the map has a slot for it.
fn reach(map: &mut CoverageMap, idx: usize) -> (reached: bool)
    ensures
        reached == (idx < old(map)@.len()),
        reached ==> final(map)@ == old(map)@.update(idx as int, 1u8),
        !reached ==> final(map)@ == old(map)@,
{
    if idx < map.len() {
        signals_set(map, idx);
        true
    } else {
        false
    }
}

/// Runs the target on `buf`, marks the points it reaches in `map`, and
/// hands the map back with the outcome.
pub fn harness(map: CoverageMap, buf: &Vec<u8>) -> (r: (CoverageMap, ExecutionOutcome))
    ensures
        r.0@ == spec_marked(map@, spec_prefix_depth(buf@)),
        r.1 == spec_prefix_outcome(buf@, map@.len()),
{
    let mut map = map;
    let ghost before = map@;
    if !reach(&mut map, 0) {
        assert(map@ =~= spec_marked(before, spec_prefix_depth(buf@)));
        return (map, ExecutionOutcome::Crash);
    }
    if buf.len() > 0 && buf[0] == 0x61 {
        if !reach(&mut map, 1) {
            assert(map@ =~= spec_marked(before, spec_prefix_depth(buf@)));
            return (map, ExecutionOutcome::Crash);
        }
        if buf.len() > 1 && buf[1] == 0x62 {
            if !reach(&mut map, 2) {
                assert(map@ =~= spec_marked(before, spec_prefix_depth(buf@)));
                return (map, ExecutionOutcome::Crash);
            }
            assert(map@ =~= spec_marked(before, spec_prefix_depth(buf@)));
            if buf.len() > 2 && buf[2] == 0x63 {
                return (map, ExecutionOutcome::Crash);
            }
            return (map, ExecutionOutcome::Normal);
        }
    }
    assert(map@ =~= spec_marked(before, spec_prefix_depth(buf@)));
    (map, ExecutionOutcome::Normal)
}

} // verus!

//! The mutation engine: a stack of atomic byte-level operators applied to a
//! copy of a seed input.

use crate::random::{reduce, reduce_index, spec_drew, spec_reduce, RandomSource, RandomView};
use vstd::prelude::*;

verus! {

/// The longest run that one insertion adds.
pub const MAX_INSERT_RUN: usize = 16;

/// The longest run that one arithmetic step perturbs.
pub const MAX_ARITH_RUN: usize = 8;

/// The largest amount that one arithmetic step adds or subtracts.
pub const MAX_ARITH_DELTA: u8 = 35;

/// The number of operator kinds.
pub const OPERATOR_KINDS: u64 = 8;

/// One atomic operator together with the offsets and lengths it acts on.
#[derive(Clone, Copy, Debug, PartialEq, Eq)]
pub enum MutationStep {
    /// Flips bit `bit` of the byte at `pos`.
    BitFlip { pos: usize, bit: u8 },
    /// Flips every bit of the byte at `pos`.
    ByteFlip { pos: usize },
    /// Adds one to the byte at `pos`, wrapping.
    ByteInc { pos: usize },
    /// Subtracts one from the byte at `pos`, wrapping.
    ByteDec { pos: usize },
    /// Inserts `count` copies of `value` before `pos`.
    Insert { pos: usize, count: usize, value: u8 },
    /// Removes `count` bytes starting at `pos`.
    Delete { pos: usize, count: usize },
    /// Inserts the `count` bytes of the donor input that start at `from`
    /// before `pos`.
    Splice { pos: usize, from: usize, count: usize },
    /// Adds `delta` to each of the `count` bytes starting at `pos`, or
    /// subtracts it, wrapping.
    Arith { pos: usize, count: usize, delta: u8, subtract: bool },
}

/// A byte plus an amount, modulo 256.
pub open spec fn spec_wrapping_add(b: u8, d: u8) -> u8 {
    ((b + d) % 256) as u8
}

/// A byte minus an amount, modulo 256.
pub open spec fn spec_wrapping_sub(b: u8, d: u8) -> u8 {
    ((b + 256 - d) % 256) as u8
}

/// Whether `step` can act on `buf`: its offsets lie inside the buffer (for the
/// donor chunk of a splice, inside the donor), its run is not empty, and what
/// it adds keeps the buffer within `max_len` bytes. A step that cannot act is
/// skipped.
pub open spec fn spec_applicable(
    buf: Seq<u8>,
    step: MutationStep,
    donor: Seq<u8>,
    max_len: nat,
) -> bool {
    match step {
        MutationStep::BitFlip { pos, bit } => pos < buf.len() && bit < 8,
        MutationStep::ByteFlip { pos } => pos < buf.len(),
        MutationStep::ByteInc { pos } => pos < buf.len(),
        MutationStep::ByteDec { pos } => pos < buf.len(),
        MutationStep::Insert { pos, count, value } => {
            pos <= buf.len() && 1 <= count && buf.len() + count <= max_len
        },
        MutationStep::Delete { pos, count } => 1 <= count && pos + count <= buf.len(),
        MutationStep::Splice { pos, from, count } => {
            &&& pos <= buf.len()
            &&& 1 <= count
            &&& from + count <= donor.len()
            &&& buf.len() + count <= max_len
        },
        MutationStep::Arith { pos, count, delta, subtract } => {
            1 <= count && pos + count <= buf.len()
        },
    }
}

/// The buffer with `chunk` inserted before `pos`.
pub open spec fn spec_insert_chunk(buf: Seq<u8>, pos: int, chunk: Seq<u8>) -> Seq<u8> {
    buf.subrange(0, pos) + chunk + buf.subrange(pos, buf.len() as int)
}

/// The buffer after `step`: unchanged where the step cannot act.
pub open spec fn spec_apply_step(
    buf: Seq<u8>,
    step: MutationStep,
    donor: Seq<u8>,
    max_len: nat,
) -> Seq<u8> {
    if !spec_applicable(buf, step, donor, max_len) {
        buf
    } else {
        match step {
            MutationStep::BitFlip { pos, bit } => buf.update(
                pos as int,
                buf[pos as int] ^ (1u8 << bit),
            ),
            MutationStep::ByteFlip { pos } => buf.update(pos as int, buf[pos as int] ^ 0xffu8),
            MutationStep::ByteInc { pos } => buf.update(
                pos as int,
                spec_wrapping_add(buf[pos as int], 1),
            ),
            MutationStep::ByteDec { pos } => buf.update(
                pos as int,
                spec_wrapping_sub(buf[pos as int], 1),
            ),
            MutationStep::Insert { pos, count, value } => spec_insert_chunk(
                buf,
                pos as int,
                Seq::new(count as nat, |i: int| value),
            ),
            MutationStep::Delete { pos, count } => buf.subrange(0, pos as int) + buf.subrange(
                pos + count,
                buf.len() as int,
            ),
            MutationStep::Splice { pos, from, count } => spec_insert_chunk(
                buf,
                pos as int,
                donor.subrange(from as int, from + count),
            ),
            MutationStep::Arith { pos, count, delta, subtract } => Seq::new(
                buf.len(),
                |i: int|
                    if pos <= i < pos + count {
                        if subtract {
                            spec_wrapping_sub(buf[i], delta)
                        } else {
                            spec_wrapping_add(buf[i], delta)
                        }
                    } else {
                        buf[i]
                    },
            ),
        }
    }
}

/// The buffer after a whole stack of steps, applied first to last.
pub open spec fn spec_apply_all(
    buf: Seq<u8>,
    steps: Seq<MutationStep>,
    donor: Seq<u8>,
    max_len: nat,
) -> Seq<u8>
    decreases steps.len(),
{
    if steps.len() == 0 {
        buf
    } else {
        spec_apply_step(
            spec_apply_all(buf, steps.drop_last(), donor, max_len),
            steps.last(),
            donor,
            max_len,
        )
    }
}

/// Whether the offsets and lengths of `step` were chosen within the bounds
/// of a buffer of `len` bytes and a donor of `donor_len` bytes. On an empty
/// buffer (or donor) there is nothing to choose from, and the offset is 0.
pub open spec fn spec_within_bounds(step: MutationStep, len: nat, donor_len: nat) -> bool {
    match step {
        MutationStep::BitFlip { pos, bit } => bit < 8 && pos <= len && (len > 0 ==> pos < len),
        MutationStep::ByteFlip { pos } => pos <= len && (len > 0 ==> pos < len),
        MutationStep::ByteInc { pos } => pos <= len && (len > 0 ==> pos < len),
        MutationStep::ByteDec { pos } => pos <= len && (len > 0 ==> pos < len),
        MutationStep::Insert { pos, count, value } => pos <= len && 1 <= count <= MAX_INSERT_RUN,
        MutationStep::Delete { pos, count } => {
            &&& pos <= len
            &&& 1 <= count
            &&& len > 0 ==> pos + count <= len
        },
        MutationStep::Splice { pos, from, count } => {
            &&& pos <= len
            &&& from <= donor_len
            &&& 1 <= count
            &&& donor_len > 0 ==> from + count <= donor_len
        },
        MutationStep::Arith { pos, count, delta, subtract } => {
            &&& pos <= len
            &&& 1 <= count <= MAX_ARITH_RUN
            &&& 1 <= delta <= MAX_ARITH_DELTA
            &&& len > 0 ==> pos + count <= len
        },
    }
}

/// Whether `step` adds bytes to the buffer, and how many.
pub open spec fn spec_growth(step: MutationStep) -> nat {
    match step {
        MutationStep::Insert { pos, count, value } => count as nat,
        MutationStep::Splice { pos, from, count } => count as nat,
        _ => 0,
    }
}

/// Whether `step` reads the donor input.
pub open spec fn spec_needs_donor(step: MutationStep) -> bool {
    step is Splice
}

/// Whether `step` needs at least one byte in the buffer.
pub open spec fn spec_needs_bytes(step: MutationStep) -> bool {
    !(step is Insert) && !(step is Splice)
}

/// A step chosen within bounds acts unless the buffer is empty and it needs
/// a byte, the donor is empty and it needs a chunk, or the buffer would grow
/// past `max_len`: exactly then it is skipped.
pub proof fn lemma_within_bounds_applicable(
    buf: Seq<u8>,
    step: MutationStep,
    donor: Seq<u8>,
    max_len: nat,
)
    requires
        spec_within_bounds(step, buf.len(), donor.len()),
    ensures
        spec_applicable(buf, step, donor, max_len) <==> {
            &&& spec_needs_bytes(step) ==> buf.len() > 0
            &&& spec_needs_donor(step) ==> donor.len() > 0
            &&& spec_growth(step) > 0 ==> buf.len() + spec_growth(step) <= max_len
        },
{
}

/// The length of the buffer after a step: only insertion and splicing add
/// bytes, only deletion removes them, and an added run never takes the buffer
/// past `max_len`.
pub proof fn lemma_apply_step_len(buf: Seq<u8>, step: MutationStep, donor: Seq<u8>, max_len: nat)
    ensures
        spec_apply_step(buf, step, donor, max_len).len() == if !spec_applicable(
            buf,
            step,
            donor,
            max_len,
        ) {
            buf.len() as int
        } else {
            match step {
                MutationStep::Delete { pos, count } => buf.len() - count,
                _ => (buf.len() + spec_growth(step)) as int,
            }
        },
        spec_apply_step(buf, step, donor, max_len).len() <= buf.len() || spec_apply_step(
            buf,
            step,
            donor,
            max_len,
        ).len() <= max_len,
{
}

/// A copy of `buf` with `count` bytes of `chunk`, from `from` on, inserted
/// before `pos`.
fn insert_chunk(buf: &Vec<u8>, pos: usize, chunk: &Vec<u8>, from: usize, count: usize) -> (out:
    Vec<u8>)
    requires
        pos <= buf@.len(),
        from + count <= chunk@.len(),
        buf@.len() + count <= usize::MAX,
    ensures
        out@ == spec_insert_chunk(buf@, pos as int, chunk@.subrange(from as int, from + count)),
{
    let mut out: Vec<u8> = Vec::new();
    let mut i: usize = 0;
    while i < pos
        invariant
            i <= pos <= buf@.len(),
            out@ == buf@.subrange(0, i as int),
        decreases pos - i,
    {
        out.push(buf[i]);
        i += 1;
    }
    let m = chunk.len();
    let mut j: usize = 0;
    while j < count
        invariant
            j <= count,
            pos <= buf@.len(),
            from + count <= m,
            m == chunk@.len(),
            out@ == buf@.subrange(0, pos as int) + chunk@.subrange(from as int, from + j),
        decreases count - j,
    {
        out.push(chunk[from + j]);
        j += 1;
    }
    let n = buf.len();
    let mut k: usize = pos;
    while k < n
        invariant
            pos <= k <= n,
            n == buf@.len(),
            from + count <= chunk@.len(),
            out@ == buf@.subrange(0, pos as int) + chunk@.subrange(from as int, from + count)
                + buf@.subrange(pos as int, k as int),
        decreases n - k,
    {
        out.push(buf[k]);
        k += 1;
    }
    out
}

/// A vector of `count` copies of `value`.
fn repeated(value: u8, count: usize) -> (out: Vec<u8>)
    ensures
        out@ == Seq::new(count as nat, |i: int| value),
{
    let mut out: Vec<u8> = Vec::new();
    let mut i: usize = 0;
    while i < count
        invariant
            i <= count,
            out@ == Seq::new(i as nat, |k: int| value),
        decreases count - i,
    {
        out.push(value);
        i += 1;
    }
    out
}

/// A copy of `buf` without the `count` bytes that start at `pos`.
fn delete_run(buf: &Vec<u8>, pos: usize, count: usize) -> (out: Vec<u8>)
    requires
        pos + count <= buf@.len(),
    ensures
        out@ == buf@.subrange(0, pos as int) + buf@.subrange(pos + count, buf@.len() as int),
{
    let mut out: Vec<u8> = Vec::new();
    let mut i: usize = 0;
    while i < pos
        invariant
            i <= pos <= buf@.len(),
            out@ == buf@.subrange(0, i as int),
        decreases pos - i,
    {
        out.push(buf[i]);
        i += 1;
    }
    let n = buf.len();
    let mut k: usize = pos + count;
    while k < n
        invariant
            pos + count <= k <= n,
            n == buf@.len(),
            out@ == buf@.subrange(0, pos as int) + buf@.subrange(pos + count, k as int),
        decreases n - k,
    {
        out.push(buf[k]);
        k += 1;
    }
    out
}

/// `b + d` modulo 256.
fn wrapping_add_byte(b: u8, d: u8) -> (r: u8)
    ensures
        r == spec_wrapping_add(b, d),
{
    let wide: u16 = (b as u16 + d as u16) % 256;
    wide as u8
}

/// `b - d` modulo 256.
fn wrapping_sub_byte(b: u8, d: u8) -> (r: u8)
    ensures
        r == spec_wrapping_sub(b, d),
{
    let wide: u16 = (b as u16 + 256 - d as u16) % 256;
    wide as u8
}

/// Applies one step to `buf` in place, or leaves `buf` as it is where the
/// step cannot act. Returns whether the step acted.
pub fn apply_step(buf: &mut Vec<u8>, step: MutationStep, donor: &Vec<u8>, max_len: usize) -> (acted:
    bool)
    ensures
        acted == spec_applicable(old(buf)@, step, donor@, max_len as nat),
        final(buf)@ == spec_apply_step(old(buf)@, step, donor@, max_len as nat),
{
    let len = buf.len();
    match step {
        MutationStep::BitFlip { pos, bit } => {
            if pos < len && bit < 8 {
                let b = buf[pos];
                buf.set(pos, b ^ (1u8 << bit));
                true
            } else {
                false
            }
        },
        MutationStep::ByteFlip { pos } => {
            if pos < len {
                let b = buf[pos];
                buf.set(pos, b ^ 0xffu8);
                true
            } else {
                false
            }
        },
        MutationStep::ByteInc { pos } => {
            if pos < len {
                let b = buf[pos];
                buf.set(pos, wrapping_add_byte(b, 1));
                true
            } else {
                false
            }
        },
        MutationStep::ByteDec { pos } => {
            if pos < len {
                let b = buf[pos];
                buf.set(pos, wrapping_sub_byte(b, 1));
                true
            } else {
                false
            }
        },
        MutationStep::Insert { pos, count, value } => {
            if pos <= len && 1 <= count && len <= max_len && count <= max_len - len {
                let chunk = repeated(value, count);
                let out = insert_chunk(buf, pos, &chunk, 0, count);
                assert(chunk@.subrange(0, count as int) =~= chunk@);
                *buf = out;
                true
            } else {
                false
            }
        },
        MutationStep::Delete { pos, count } => {
            if 1 <= count && pos <= len && count <= len - pos {
                let out = delete_run(buf, pos, count);
                *buf = out;
                true
            } else {
                false
            }
        },
        MutationStep::Splice { pos, from, count } => {
            let donor_len = donor.len();
            if pos <= len && 1 <= count && from <= donor_len && count <= donor_len - from && len
                <= max_len && count <= max_len - len {
                let out = insert_chunk(buf, pos, donor, from, count);
                *buf = out;
                true
            } else {
                false
            }
        },
        MutationStep::Arith { pos, count, delta, subtract } => {
            if 1 <= count && pos <= len && count <= len - pos {
                let ghost before = buf@;
                let end = pos + count;
                let mut i: usize = pos;
                while i < end
                    invariant
                        pos <= i <= end,
                        end == pos + count,
                        end <= before.len(),
                        buf@.len() == before.len(),
                        forall|k: int|
                            0 <= k < before.len() ==> #[trigger] buf@[k] == if pos <= k < i {
                                if subtract {
                                    spec_wrapping_sub(before[k], delta)
                                } else {
                                    spec_wrapping_add(before[k], delta)
                                }
                            } else {
                                before[k]
                            },
                    decreases end - i,
                {
                    let b = buf[i];
                    let changed = if subtract {
                        wrapping_sub_byte(b, delta)
                    } else {
                        wrapping_add_byte(b, delta)
                    };
                    buf.set(i, changed);
                    i += 1;
                }
                assert(buf@ =~= spec_apply_step(before, step, donor@, max_len as nat));
                true
            } else {
                false
            }
        },
    }
}

/// How deep the operator stack of one mutation may be, and how long a
/// candidate may grow.
#[derive(Clone, Copy, Debug, PartialEq, Eq)]
pub struct MutationConfig {
    min_depth: usize,
    max_depth: usize,
    max_len: usize,
}

impl MutationConfig {
    /// The fewest steps of one mutation.
    pub closed spec fn spec_min_depth(&self) -> nat {
        self.min_depth as nat
    }

    /// The most steps of one mutation.
    pub closed spec fn spec_max_depth(&self) -> nat {
        self.max_depth as nat
    }

    /// The length that no insertion or splice takes a candidate past.
    pub closed spec fn spec_max_len(&self) -> nat {
        self.max_len as nat
    }

    /// The depth range is not empty and asks for at least one step.
    pub open spec fn wf(&self) -> bool {
        1 <= self.spec_min_depth() <= self.spec_max_depth()
    }

    /// A stack of `min_depth` to `max_depth` steps on candidates of at most
    /// `max_len` bytes; `None` unless `1 <= min_depth <= max_depth`.
    pub fn new(min_depth: usize, max_depth: usize, max_len: usize) -> (r: Option<MutationConfig>)
        ensures
            r is Some <==> 1 <= min_depth <= max_depth,
            r matches Some(cfg) ==> {
                &&& cfg.wf()
                &&& cfg.spec_min_depth() == min_depth
                &&& cfg.spec_max_depth() == max_depth
                &&& cfg.spec_max_len() == max_len
            },
    {
        if 1 <= min_depth && min_depth <= max_depth {
            Some(MutationConfig { min_depth, max_depth, max_len })
        } else {
            None
        }
    }

    /// Stacks of 1 to 16 steps on candidates of at most 1 MiB.
    pub fn standard() -> (cfg: MutationConfig)
        ensures
            cfg.wf(),
            cfg.spec_min_depth() == 1,
            cfg.spec_max_depth() == 16,
            cfg.spec_max_len() == 1048576,
    {
        MutationConfig { min_depth: 1, max_depth: 16, max_len: 1048576 }
    }

    /// The stack depth that a random word chooses: the fewest steps plus
    /// the word's remainder over the width of the range.
    pub open spec fn spec_depth(&self, word: u64) -> nat {
        self.spec_min_depth() + spec_reduce(
            word,
            (self.spec_max_depth() - self.spec_min_depth() + 1) as nat,
        )
    }

    /// The stack depth that a random word chooses.
    pub fn depth(&self, word: u64) -> (n: usize)
        requires
            self.wf(),
        ensures
            n == self.spec_depth(word),
            self.spec_min_depth() <= n <= self.spec_max_depth(),
    {
        let span = self.max_depth - self.min_depth;
        self.min_depth + reduce_index(word, span + 1)
    }

    /// The fewest steps of one mutation.
    pub fn min_depth(&self) -> (n: usize)
        ensures
            n == self.spec_min_depth(),
    {
        self.min_depth
    }

    /// The most steps of one mutation.
    pub fn max_depth(&self) -> (n: usize)
        ensures
            n == self.spec_max_depth(),
    {
        self.max_depth
    }

    /// The length that no insertion or splice takes a candidate past.
    pub fn max_len(&self) -> (n: usize)
        ensures
            n == self.spec_max_len(),
    {
        self.max_len
    }
}

/// The random words that one step is made from. The first chooses the
/// operator; the others are reduced to the offsets and lengths that the
/// operator takes, within the bounds of the buffer at hand.
#[derive(Clone, Copy, Debug, PartialEq, Eq)]
pub struct RawStep {
    pub kind: u64,
    pub pos: u64,
    pub from: u64,
    pub count: u64,
    pub value: u64,
    pub flag: u64,
}

/// The offset of one of `len` bytes; 0 where there is none.
pub open spec fn spec_point(word: u64, len: nat) -> nat {
    spec_reduce(word, len)
}

/// An offset between two of `len` bytes, the two ends included.
pub open spec fn spec_gap(word: u64, len: nat) -> nat {
    spec_reduce(word, len + 1)
}

/// The length of a run with room for `room` bytes and a cap of `cap`: from
/// one byte to the smaller of the two, and one byte where that is zero.
pub open spec fn spec_run(word: u64, room: nat, cap: nat) -> nat {
    1 + spec_reduce(
        word,
        if room < cap {
            room
        } else {
            cap
        },
    )
}

/// The step that the words `raw` make on a buffer of `len` bytes with a
/// donor of `donor_len` bytes: the operator is chosen by the remainder of the
/// first word, each of the kinds for one remainder.
pub open spec fn spec_shape_step(raw: RawStep, len: nat, donor_len: nat) -> MutationStep {
    let kind = raw.kind % OPERATOR_KINDS;
    let pos = spec_point(raw.pos, len);
    let gap = spec_gap(raw.pos, len);
    let room = (len - pos) as nat;
    if kind == 0 {
        MutationStep::BitFlip { pos: pos as usize, bit: (raw.value % 8) as u8 }
    } else if kind == 1 {
        MutationStep::ByteFlip { pos: pos as usize }
    } else if kind == 2 {
        MutationStep::ByteInc { pos: pos as usize }
    } else if kind == 3 {
        MutationStep::ByteDec { pos: pos as usize }
    } else if kind == 4 {
        MutationStep::Insert {
            pos: gap as usize,
            count: spec_run(raw.count, MAX_INSERT_RUN as nat, MAX_INSERT_RUN as nat) as usize,
            value: (raw.value % 256) as u8,
        }
    } else if kind == 5 {
        MutationStep::Delete { pos: pos as usize, count: spec_run(raw.count, room, room) as usize }
    } else if kind == 6 {
        let from = spec_point(raw.from, donor_len);
        let left = (donor_len - from) as nat;
        MutationStep::Splice {
            pos: gap as usize,
            from: from as usize,
            count: spec_run(raw.count, left, left) as usize,
        }
    } else {
        MutationStep::Arith {
            pos: pos as usize,
            count: spec_run(raw.count, room, MAX_ARITH_RUN as nat) as usize,
            delta: (1 + raw.value % (MAX_ARITH_DELTA as u64)) as u8,
            subtract: raw.flag % 2 == 1,
        }
    }
}

/// Whatever the words, the step they make has its offsets and lengths
/// within the bounds of the buffer and the donor.
pub proof fn lemma_shaped_within_bounds(raw: RawStep, len: nat, donor_len: nat)
    requires
        len <= usize::MAX,
        donor_len <= usize::MAX,
    ensures
        spec_within_bounds(spec_shape_step(raw, len, donor_len), len, donor_len),
{
}

/// The offset of one of `len` bytes.
fn point(word: u64, len: usize) -> (pos: usize)
    ensures
        pos == spec_point(word, len as nat),
        pos <= len,
        len > 0 ==> pos < len,
{
    reduce_index(word, len)
}

/// An offset between two of `len` bytes, the two ends included.
fn gap(word: u64, len: usize) -> (pos: usize)
    ensures
        pos == spec_gap(word, len as nat),
        pos <= len,
{
    if len as u64 == u64::MAX {
        // every word is a remainder of the bound
        word as usize
    } else {
        reduce(word, len as u64 + 1) as usize
    }
}

/// The length of a run with room for `room` bytes and a cap of `cap`.
fn run(word: u64, room: usize, cap: usize) -> (count: usize)
    ensures
        count == spec_run(word, room as nat, cap as nat),
        1 <= count,
        room >= 1 && cap >= 1 ==> count <= room && count <= cap,
{
    let most = if room < cap {
        room
    } else {
        cap
    };
    if most == 0 {
        1
    } else {
        reduce_index(word, most) + 1
    }
}

/// Makes a step from random words, for a buffer of `len` bytes and a donor
/// of `donor_len` bytes.
pub fn shape_step(raw: RawStep, len: usize, donor_len: usize) -> (step: MutationStep)
    ensures
        step == spec_shape_step(raw, len as nat, donor_len as nat),
        spec_within_bounds(step, len as nat, donor_len as nat),
{
    let kind = raw.kind % OPERATOR_KINDS;
    let pos = point(raw.pos, len);
    if kind == 0 {
        MutationStep::BitFlip { pos, bit: (raw.value % 8) as u8 }
    } else if kind == 1 {
        MutationStep::ByteFlip { pos }
    } else if kind == 2 {
        MutationStep::ByteInc { pos }
    } else if kind == 3 {
        MutationStep::ByteDec { pos }
    } else if kind == 4 {
        MutationStep::Insert {
            pos: gap(raw.pos, len),
            count: run(raw.count, MAX_INSERT_RUN, MAX_INSERT_RUN),
            value: (raw.value % 256) as u8,
        }
    } else if kind == 5 {
        MutationStep::Delete { pos, count: run(raw.count, len - pos, len - pos) }
    } else if kind == 6 {
        let from = point(raw.from, donor_len);
        MutationStep::Splice {
            pos: gap(raw.pos, len),
            from,
            count: run(raw.count, donor_len - from, donor_len - from),
        }
    } else {
        MutationStep::Arith {
            pos,
            count: run(raw.count, len - pos, MAX_ARITH_RUN),
            delta: (1 + raw.value % (MAX_ARITH_DELTA as u64)) as u8,
            subtract: raw.flag % 2 == 1,
        }
    }
}

/// The number of words that one step is made from.
pub const WORDS_PER_STEP: usize = 6;

/// The words of one step as they stand in a run of drawn words, the first
/// of them at position `at`: in the order in which `RawStep` names them.
pub open spec fn spec_raw_step(words: Seq<u64>, at: int) -> RawStep {
    RawStep {
        kind: words[at],
        pos: words[at + 1],
        from: words[at + 2],
        count: words[at + 3],
        value: words[at + 4],
        flag: words[at + 5],
    }
}

/// Draws one step from the random source: the source hands out six more
/// words, and the step is the one that these six make on a buffer of `len`
/// bytes with a donor of `donor_len` bytes.
pub fn draw_step(rng: &mut RandomSource, len: usize, donor_len: usize) -> (step: MutationStep)
    ensures
        spec_drew(old(rng)@, final(rng)@, WORDS_PER_STEP as nat),
        step == spec_shape_step(
            spec_raw_step(final(rng)@.drawn, old(rng)@.drawn.len() as int),
            len as nat,
            donor_len as nat,
        ),
        spec_within_bounds(step, len as nat, donor_len as nat),
{
    let kind = rng.next_word();
    let pos = rng.next_word();
    let from = rng.next_word();
    let count = rng.next_word();
    let value = rng.next_word();
    let flag = rng.next_word();
    shape_step(RawStep { kind, pos, from, count, value, flag }, len, donor_len)
}

/// What holds of a candidate and the stack of steps that made it from
/// `seed`: the stack has between the configured fewest and most steps, each
/// step was drawn within the bounds of the buffer it met, and the candidate
/// is the seed after all of them.
pub open spec fn spec_mutation_of(
    seed: Seq<u8>,
    donor: Seq<u8>,
    cfg: MutationConfig,
    steps: Seq<MutationStep>,
    candidate: Seq<u8>,
) -> bool {
    &&& cfg.spec_min_depth() <= steps.len() <= cfg.spec_max_depth()
    &&& candidate == spec_apply_all(seed, steps, donor, cfg.spec_max_len())
    &&& forall|k: int|
        0 <= k < steps.len() ==> spec_within_bounds(
            #[trigger] steps[k],
            spec_apply_all(seed, steps.take(k), donor, cfg.spec_max_len()).len(),
            donor.len(),
        )
}

/// A stack never takes a buffer past `max_len`, unless the buffer was
/// longer to begin with: then it never grows.
pub proof fn lemma_apply_all_len(
    buf: Seq<u8>,
    steps: Seq<MutationStep>,
    donor: Seq<u8>,
    max_len: nat,
)
    ensures
        spec_apply_all(buf, steps, donor, max_len).len() <= buf.len() || spec_apply_all(
            buf,
            steps,
            donor,
            max_len,
        ).len() <= max_len,
    decreases steps.len(),
{
    if steps.len() > 0 {
        lemma_apply_all_len(buf, steps.drop_last(), donor, max_len);
        lemma_apply_step_len(
            spec_apply_all(buf, steps.drop_last(), donor, max_len),
            steps.last(),
            donor,
            max_len,
        );
    }
}

/// Where the first word of step `k` stands in a run of drawn words whose
/// depth word stands at `at`: after the depth word and the six words of
/// each step before it.
pub open spec fn spec_step_start(at: int, k: int) -> int {
    at + 1 + 6 * k
}

/// Whether the stack `steps` is the one that the drawn words `words` make,
/// from position `at` on: the word at `at` chooses the depth, and the six
/// words of each step shape it for the buffer as the steps before it left
/// it.
pub open spec fn spec_steps_shaped(
    words: Seq<u64>,
    at: int,
    seed: Seq<u8>,
    donor: Seq<u8>,
    cfg: MutationConfig,
    steps: Seq<MutationStep>,
) -> bool {
    &&& steps.len() == cfg.spec_depth(words[at])
    &&& forall|k: int|
        0 <= k < steps.len() ==> #[trigger] steps[k] == spec_shape_step(
            spec_raw_step(words, spec_step_start(at, k)),
            spec_apply_all(seed, steps.take(k), donor, cfg.spec_max_len()).len(),
            donor.len(),
        )
}

/// What a mutation takes from the random source, from `before` to `after`:
/// one word for the depth and six for each step, and the steps are the ones
/// that these words make.
pub open spec fn spec_mutation_drawn(
    before: RandomView,
    after: RandomView,
    seed: Seq<u8>,
    donor: Seq<u8>,
    cfg: MutationConfig,
    steps: Seq<MutationStep>,
) -> bool {
    &&& spec_drew(before, after, spec_step_start(0, steps.len() as int) as nat)
    &&& spec_steps_shaped(after.drawn, before.drawn.len() as int, seed, donor, cfg, steps)
}

/// Mutates a copy of `seed`: draws a word for the stack depth, then draws
/// and applies that many steps, each shaped for the buffer as the steps
/// before it left it. Returns the candidate and the steps, so that the
/// candidate can be made again from the seed. The same words give the same
/// steps and the same candidate.
pub fn mutate_traced(
    seed: &Vec<u8>,
    donor: &Vec<u8>,
    rng: &mut RandomSource,
    cfg: &MutationConfig,
) -> (r: (Vec<u8>, Vec<MutationStep>))
    requires
        cfg.wf(),
    ensures
        spec_mutation_of(seed@, donor@, *cfg, r.1@, r.0@),
        spec_mutation_drawn(old(rng)@, final(rng)@, seed@, donor@, *cfg, r.1@),
{
    let ghost at = old(rng)@.drawn.len() as int;
    let depth = cfg.depth(rng.next_word());
    let mut buf = seed.clone();
    assert(buf@ =~= seed@);
    let mut steps: Vec<MutationStep> = Vec::new();
    let mut i: usize = 0;
    while i < depth
        invariant
            i <= depth,
            at == old(rng)@.drawn.len(),
            depth == cfg.spec_depth(rng@.drawn[at]),
            spec_drew(old(rng)@, rng@, spec_step_start(0, i as int) as nat),
            steps@.len() == i,
            buf@ == spec_apply_all(seed@, steps@, donor@, cfg.spec_max_len()),
            forall|k: int|
                0 <= k < steps@.len() ==> spec_within_bounds(
                    #[trigger] steps@[k],
                    spec_apply_all(seed@, steps@.take(k), donor@, cfg.spec_max_len()).len(),
                    donor@.len(),
                ),
            forall|k: int|
                0 <= k < steps@.len() ==> #[trigger] steps@[k] == spec_shape_step(
                    spec_raw_step(rng@.drawn, spec_step_start(at, k)),
                    spec_apply_all(seed@, steps@.take(k), donor@, cfg.spec_max_len()).len(),
                    donor@.len(),
                ),
        decreases depth - i,
    {
        let ghost drawn = rng@.drawn;
        let step = draw_step(rng, buf.len(), donor.len());
        let ghost before = steps@;
        apply_step(&mut buf, step, donor, cfg.max_len);
        steps.push(step);
        proof {
            assert(steps@.drop_last() =~= before);
            assert(steps@.take(i as int) =~= before);
            assert forall|k: int| 0 <= k < steps@.len() implies spec_within_bounds(
                #[trigger] steps@[k],
                spec_apply_all(seed@, steps@.take(k), donor@, cfg.spec_max_len()).len(),
                donor@.len(),
            ) && steps@[k] == spec_shape_step(
                spec_raw_step(rng@.drawn, spec_step_start(at, k)),
                spec_apply_all(seed@, steps@.take(k), donor@, cfg.spec_max_len()).len(),
                donor@.len(),
            ) by {
                if k < i {
                    assert(steps@.take(k) =~= before.take(k));
                    assert(steps@[k] == before[k]);
                    assert(spec_raw_step(rng@.drawn, spec_step_start(at, k)) == spec_raw_step(
                        drawn,
                        spec_step_start(at, k),
                    ));
                }
            }
        }
        i += 1;
    }
    (buf, steps)
}

/// Replays a stack of steps on a copy of `seed`.
pub fn replay(seed: &Vec<u8>, steps: &Vec<MutationStep>, donor: &Vec<u8>, max_len: usize) -> (out:
    Vec<u8>)
    ensures
        out@ == spec_apply_all(seed@, steps@, donor@, max_len as nat),
{
    let mut buf = seed.clone();
    assert(buf@ =~= seed@);
    let n = steps.len();
    let mut i: usize = 0;
    while i < n
        invariant
            i <= n,
            n == steps@.len(),
            buf@ == spec_apply_all(seed@, steps@.take(i as int), donor@, max_len as nat),
        decreases n - i,
    {
        apply_step(&mut buf, steps[i], donor, max_len);
        proof {
            assert(steps@.take(i + 1).drop_last() =~= steps@.take(i as int));
        }
        i += 1;
    }
    assert(steps@.take(n as int) =~= steps@);
    buf
}

/// Mutates a copy of `seed` into a new candidate: the seed after the stack
/// of steps that the next words of the random source make. An empty seed is
/// mutated like any other: the steps that need a byte are skipped.
pub fn mutate(seed: &Vec<u8>, donor: &Vec<u8>, rng: &mut RandomSource, cfg: &MutationConfig) -> (
    candidate: Vec<u8>)
    requires
        cfg.wf(),
    ensures
        exists|steps: Seq<MutationStep>|
            #[trigger] spec_mutation_of(seed@, donor@, *cfg, steps, candidate@)
                && spec_mutation_drawn(old(rng)@, final(rng)@, seed@, donor@, *cfg, steps),
        candidate@.len() <= seed@.len() || candidate@.len() <= cfg.spec_max_len(),
{
    let (candidate, steps) = mutate_traced(seed, donor, rng, cfg);
    proof {
        lemma_apply_all_len(seed@, steps@, donor@, cfg.spec_max_len());
    }
    candidate
}

/// Mutation validity on the empty input: a step that needs a byte leaves an
/// empty buffer empty, so a stack of such steps hands back the empty input.
pub proof fn lemma_empty_buffer_skips(step: MutationStep, donor: Seq<u8>, max_len: nat)
    requires
        spec_needs_bytes(step),
    ensures
        !spec_applicable(Seq::<u8>::empty(), step, donor, max_len),
        spec_apply_step(Seq::<u8>::empty(), step, donor, max_len) == Seq::<u8>::empty(),
{
}

} // verus!

//! The engine's random source: the words of libafl's standard generator,
//! reduced to the ranges that the engine draws from.

use crate::generator::{generate_printables, spec_printable_input};
use libafl_bolts::rands::{Rand, RomuDuoJrRand};
use vstd::prelude::*;

verus! {

/// libafl's standard generator (`StdRand`). Its state is opaque here.
#[verifier::external_type_specification]
#[verifier::external_body]
pub struct ExRomuDuoJrRand(RomuDuoJrRand);

/// Calls `RomuDuoJrRand::with_seed`. Nothing is claimed of the generator it
/// returns.
#[verifier::external_body]
fn rand_with_seed(seed: u64) -> RomuDuoJrRand {
    RomuDuoJrRand::with_seed(seed)
}

/// Calls `Rand::next`. Nothing is claimed of the word it returns.
#[verifier::external_body]
fn rand_next(rng: &mut RomuDuoJrRand) -> u64 {
    rng.next()
}

/// A random word brought below `bound`: its remainder, and 0 where `bound`
/// is 0.
pub open spec fn spec_reduce(word: u64, bound: nat) -> nat {
    if bound == 0 {
        0
    } else {
        (word as nat) % bound
    }
}

/// Brings a random word below `bound`.
pub fn reduce(word: u64, bound: u64) -> (r: u64)
    ensures
        r == spec_reduce(word, bound as nat),
        bound > 0 ==> r < bound,
{
    if bound == 0 {
        0
    } else {
        word % bound
    }
}

/// Brings a random word below `len`, the length of a collection.
pub fn reduce_index(word: u64, len: usize) -> (r: usize)
    ensures
        r == spec_reduce(word, len as nat),
        len > 0 ==> r < len,
{
    reduce(word, len as u64) as usize
}

/// What is known of a random source: the seed it started from, and the
/// words it has handed out so far, first to last. The words that libafl
/// draws for itself, while it generates an input, are not among them.
pub ghost struct RandomView {
    pub seed: u64,
    pub drawn: Seq<u64>,
}

/// What a source that handed out `count` more words went through, from
/// `before` to `after`: the seed stayed, the words handed out before stayed
/// where they were, and `count` words came after them.
pub open spec fn spec_drew(before: RandomView, after: RandomView, count: nat) -> bool {
    &&& after.seed == before.seed
    &&& after.drawn.len() == before.drawn.len() + count
    &&& forall|i: int| 0 <= i < before.drawn.len() ==> #[trigger] after.drawn[i] == before.drawn[i]
}

/// A seeded stream of random words.
pub struct RandomSource {
    rng: RomuDuoJrRand,
    record: Ghost<RandomView>,
}

impl View for RandomSource {
    type V = RandomView;

    closed spec fn view(&self) -> RandomView {
        self.record@
    }
}

impl RandomSource {
    /// A source that starts from `seed` and has handed out no word yet.
    pub fn with_seed(seed: u64) -> (source: RandomSource)
        ensures
            source@ == (RandomView { seed, drawn: Seq::empty() }),
    {
        RandomSource {
            rng: rand_with_seed(seed),
            record: Ghost(RandomView { seed, drawn: Seq::empty() }),
        }
    }

    /// Hands out the next word of the stream: the word is whatever the
    /// generator gives, and it joins the words handed out.
    pub fn next_word(&mut self) -> (word: u64)
        ensures
            final(self)@ == (RandomView { drawn: old(self)@.drawn.push(word), ..old(self)@ }),
    {
        let word = rand_next(&mut self.rng);
        self.record = Ghost(RandomView { drawn: self.record@.drawn.push(word), ..self.record@ });
        word
    }

    /// Lets libafl's generator make one printable input with the generator
    /// of this source. It draws for itself: no word is handed out.
    pub(crate) fn printable_input(&mut self, max_size: usize) -> (made: Result<
        Vec<u8>,
        libafl::Error,
    >)
        ensures
            final(self)@ == old(self)@,
            made is Ok,
            made matches Ok(bytes) ==> spec_printable_input(bytes@, max_size as nat),
    {
        generate_printables(&mut self.rng, max_size)
    }
}

} // verus!

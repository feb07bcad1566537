//! The input generator: random printable seed inputs for the first corpus.

use crate::random::RandomSource;
use libafl::generators::{Generator, RandPrintablesGenerator};
use libafl::inputs::BytesInput;
use libafl::state::{HasRand, NopState};
use libafl_bolts::rands::RomuDuoJrRand;
use vstd::prelude::*;

verus! {

/// libafl's error type. Nothing is read out of it here.
#[verifier::external_type_specification]
#[verifier::external_body]
pub struct ExLibaflError(libafl::Error);

/// Whether a byte is one of the generator's printable characters: the ASCII
/// range from space to tilde, tab and line feed.
pub open spec fn spec_is_printable(b: u8) -> bool {
    (0x20 <= b <= 0x7e) || b == 0x09 || b == 0x0a
}

/// What holds of one generated input: it is not empty, it stays below
/// `max_length` bytes unless it is a single byte, and every byte is printable.
pub open spec fn spec_printable_input(bytes: Seq<u8>, max_length: nat) -> bool {
    &&& 1 <= bytes.len()
    &&& bytes.len() == 1 || bytes.len() < max_length
    &&& forall|i: int| 0 <= i < bytes.len() ==> spec_is_printable(#[trigger] bytes[i])
}

/// Why no seed inputs could be produced.
#[derive(Clone, Copy, Debug, PartialEq, Eq)]
pub enum GenerationError {
    /// The generator reported a failure.
    Unavailable,
}

/// Calls `RandPrintablesGenerator::generate` on a `NopState` that is given
/// `rng` as its generator, and hands the advanced generator back. What is
/// claimed of an input it makes: its length is a draw below `max_size`, or
/// one byte where that draw is zero, and its bytes come from libafl's
/// printable alphabet (digits, letters, space, tab, line feed and the ASCII
/// punctuation: every byte from 0x20 to 0x7e, and 0x09 and 0x0a). It
/// returns `Ok` on every path.
#[verifier::external_body]
pub(crate) fn generate_printables(rng: &mut RomuDuoJrRand, max_size: usize) -> (made: Result<
    Vec<u8>,
    libafl::Error,
>)
    ensures
        made is Ok,
        made matches Ok(bytes) ==> spec_printable_input(bytes@, max_size as nat),
{
    let mut state = NopState::<BytesInput>::new();
    *state.rand_mut() = *rng;
    let made = RandPrintablesGenerator::new(max_size).generate(&mut state);
    *rng = *state.rand_mut();
    match made {
        Ok(input) => Ok(input.into()),
        Err(e) => Err(e),
    }
}

/// What one outcome of the generator contributes: its bytes, or the failure
/// that ends generation.
pub fn accept_generated(made: Result<Vec<u8>, libafl::Error>) -> (r: Result<
    Vec<u8>,
    GenerationError,
>)
    ensures
        made matches Ok(bytes) ==> r == Ok::<Vec<u8>, GenerationError>(bytes),
        made is Err ==> r == Err::<Vec<u8>, GenerationError>(GenerationError::Unavailable),
{
    match made {
        Ok(bytes) => Ok(bytes),
        Err(_) => Err(GenerationError::Unavailable),
    }
}

/// Produces exactly `count` inputs of random printable bytes, each shorter
/// than `max_length` (a single byte where `max_length` is below 2). The
/// inputs are libafl's, made with the generator of `rng`, which hands out
/// no word for them. libafl's generator has no failing path, so generation
/// succeeds; a failure, were there one, would end it with an error.
pub fn generate(rng: &mut RandomSource, count: usize, max_length: usize) -> (r: Result<
    Vec<Vec<u8>>,
    GenerationError,
>)
    ensures
        final(rng)@ == old(rng)@,
        r is Ok,
        r matches Ok(inputs) ==> {
            &&& inputs@.len() == count
            &&& forall|i: int|
                0 <= i < count ==> spec_printable_input(
                    (#[trigger] inputs@[i])@,
                    max_length as nat,
                )
        },
{
    let mut inputs: Vec<Vec<u8>> = Vec::new();
    let mut i: usize = 0;
    while i < count
        invariant
            i <= count,
            rng@ == old(rng)@,
            inputs@.len() == i,
            forall|j: int|
                0 <= j < i ==> spec_printable_input((#[trigger] inputs@[j])@, max_length as nat),
        decreases count - i,
    {
        let made = rng.printable_input(max_length);
        match accept_generated(made) {
            Ok(bytes) => {
                inputs.push(bytes);
            },
            Err(e) => {
                return Err(e);
            },
        }
        i += 1;
    }
    Ok(inputs)
}

} // verus!

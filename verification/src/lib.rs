//! A coverage-guided fuzzing engine core.
//!
//! The engine mutates byte-string inputs, runs a target on each candidate,
//! reads which coverage points the run reached, and keeps the inputs that
//! reach new points (the corpus) apart from those that crash the target (the
//! crash store). The contracts of its functions are proved with Verus; the
//! random words and the seed inputs come from libafl, and what is believed
//! of libafl without proof is said where the call is made.

pub mod corpus;
pub mod coverage;
pub mod crashes;
pub mod engine;
pub mod executor;
pub mod feedback;
pub mod generator;
pub mod mutation;
pub mod random;
pub mod scheduler;
pub mod target;

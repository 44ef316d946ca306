//! A small rank-1 constraint system over a fixed prime field: linear
//! combinations, multiplicative constraints, a builder for them, a verifier
//! that checks a witness against every constraint, and a toy permutation round.
pub mod field;
pub mod circuit;
pub mod permutation;

pub use circuit::{Builder, Constraint, LinComb, Witness, verify};
pub use permutation::poseidon_round;

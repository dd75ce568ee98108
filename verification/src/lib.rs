//! A memory-consistency lookup argument over the M31 circle STARK stack.
//!
//! The library builds two views of a list of memory operations (execution
//! order and address-sorted order), proves that they are permutations of each
//! other with a logarithmic-derivative lookup argument, and drives the strict
//! commit / draw-challenge / commit sequence that binds the drawn randomness
//! to the prior commitments.
pub mod field;
pub mod mem_ops;
pub mod lookup;
pub mod session;

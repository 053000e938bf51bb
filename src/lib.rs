//! Sequence-uniqueness checks for short DNA candidates (k-mers) against a set of
//! reference sequences, together with a few small scoring helpers.

pub mod dna;
pub mod similarity;
pub mod digest;
pub mod uniqueness;
pub mod kmer;
pub mod batch;
pub mod interop;
pub mod fib;

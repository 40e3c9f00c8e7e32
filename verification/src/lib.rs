//! Construction of reproducible fixtures for a rollup's block-validity
//! pipeline: compaction of block witnesses into full blocks, the three-block
//! witness chain, the withdrawal hash chain, and a pairing fixture.

pub mod types;
pub mod full_block;
pub mod rng;
pub mod withdrawal;
pub mod chain;
pub mod fixture;
pub mod pairing;

//! Evolving agents driven by small fixed-topology neural networks.
//!
//! The library holds the genome model and its canonical byte encoding, the
//! colour derived from that encoding, the diversity count of a population,
//! and the generational cull-and-resample step.
use vstd::prelude::*;

pub mod genome;
pub mod codec;
pub mod diversity;
pub mod generation;

mod random;

verus! {

/// Capacity of the input neuron pool.
pub const INPUTS_N: usize = 3;

/// Capacity of the intermediate neuron pool, and length of an agent's internal state.
pub const INTERMEDIATES_N: usize = 10;

/// Capacity of the output neuron pool.
pub const OUTPUTS_N: usize = 3;

/// Number of connections in every genome.
pub const CONNECTIONS_N: usize = 8;

} // verus!

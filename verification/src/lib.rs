//! A minimal feed-forward neural network evaluator.
//!
//! A `Network` is a non-empty sequence of `Layer`s; a `Layer` is a
//! non-empty sequence of `Neuron`s of one shared input width; a `Neuron`
//! holds one bias and one weight per input. Scalars are 32-bit floats,
//! carried throughout as their IEEE-754 bit patterns in `u32` values.
//! Forward propagation threads an input vector through the layers in
//! order; randomized construction draws every parameter from an injected
//! uniform source in a fixed, reproducible order.

use vstd::prelude::*;

pub mod layer;
pub mod network;
pub mod neuron;
pub mod scalar;

pub use layer::Layer;
pub use network::{LayerTopology, Network};
pub use neuron::Neuron;

verus! {

/// The failure conditions of construction and propagation.
///
/// `InvalidTopology` is detected at construction time: a topology with
/// fewer than two entries or an entry of zero, a layer with no neurons,
/// or neurons of unequal widths within one layer. `DimensionMismatch`
/// is detected at propagation time: an input vector whose length does
/// not match the expected input width.
#[derive(Clone, Copy, Debug, PartialEq, Eq, Structural)]
pub enum NnError {
    InvalidTopology,
    DimensionMismatch,
}

/// A source of uniform random draws over the closed interval [-1.0, 1.0],
/// each handed out as the bit pattern of a 32-bit float. Callers supply
/// an implementation; a seeded one makes construction reproducible.
pub trait RandomSource {
    /// Draws the next value, uniform over [-1.0, 1.0], as f32 bits.
    fn next_unit(&mut self) -> u32;
}

} // verus!

//! A single neuron: one bias and one weight per input.

use vstd::prelude::*;

use crate::scalar::{
    add_bits, f32_add, f32_is_nan, f32_lt, f32_mul, lemma_relu_floor, mul_bits, relu, relu_bits,
    POS_ZERO,
};
use crate::RandomSource;

verus! {

/// The mathematical model of a neuron: its bias and its weights, all
/// binary32 bit patterns.
#[verifier::ext_equal]
pub struct NeuronV {
    pub bias: u32,
    pub weights: Seq<u32>,
}

/// A neuron holding `weights.len()` weights and one bias, each the bit
/// pattern of a 32-bit float. Its input width is the length of `weights`,
/// fixed at construction.
#[derive(Clone)]
pub struct Neuron {
    pub bias: u32,
    pub weights: Vec<u32>,
}

impl View for Neuron {
    type V = NeuronV;

    open spec fn view(&self) -> NeuronV {
        NeuronV { bias: self.bias, weights: self.weights@ }
    }
}

/// The left fold of the first `n` products `inputs[i] * weights[i]`,
/// starting from positive zero and rounding as binary32 at every step:
/// the dot product exactly as a 32-bit float sum computes it.
pub open spec fn dot(inputs: Seq<u32>, weights: Seq<u32>, n: int) -> u32
    decreases n,
{
    if n <= 0 {
        POS_ZERO
    } else {
        f32_add(dot(inputs, weights, n - 1), f32_mul(inputs[n - 1], weights[n - 1]))
    }
}

/// What a neuron returns on an input vector of its width: the rectified
/// value of its bias plus the rounded dot product of inputs and weights.
pub open spec fn neuron_out(nv: NeuronV, inputs: Seq<u32>) -> u32 {
    relu(f32_add(nv.bias, dot(inputs, nv.weights, nv.weights.len() as int)))
}

impl Neuron {
    /// Assembles a neuron from an explicit bias and weight vector.
    pub fn new(bias: u32, weights: Vec<u32>) -> (r: Neuron)
        ensures
            r@ == (NeuronV { bias, weights: weights@ }),
    {
        Neuron { bias, weights }
    }

    /// The input width this neuron expects: one input per weight.
    pub fn input_width(&self) -> (r: usize)
        ensures
            r == self@.weights.len(),
    {
        self.weights.len()
    }

    /// One forward step: the products `inputs[i] * weights[i]` summed
    /// left to right from zero, plus the bias, then rectified. Pure;
    /// the input vector must match the neuron's width.
    pub fn propagate(&self, inputs: &Vec<u32>) -> (r: u32)
        requires
            inputs@.len() == self@.weights.len(),
        ensures
            r == neuron_out(self@, inputs@),
    {
        let mut acc: u32 = POS_ZERO;
        let mut i: usize = 0;
        while i < self.weights.len()
            invariant
                i <= self@.weights.len(),
                inputs@.len() == self@.weights.len(),
                acc == dot(inputs@, self@.weights, i as int),
            decreases self@.weights.len() - i,
        {
            acc = add_bits(acc, mul_bits(inputs[i], self.weights[i]));
            i = i + 1;
        }
        relu_bits(add_bits(self.bias, acc))
    }

    /// Draws a fresh neuron from the random source: the bias first, then
    /// the weights in index order. This draw order is a compatibility
    /// contract: it makes a seeded construction reproducible.
    pub fn random<R: RandomSource>(rng: &mut R, input_width: usize) -> (r: Neuron)
        ensures
            r@.weights.len() == input_width,
    {
        let bias = rng.next_unit();
        let mut weights: Vec<u32> = Vec::new();
        let mut i: usize = 0;
        while i < input_width
            invariant
                i <= input_width,
                weights@.len() == i,
            decreases input_width - i,
        {
            weights.push(rng.next_unit());
            i = i + 1;
        }
        Neuron { bias, weights }
    }
}

/// The activation floor: whatever the weights, bias and inputs, a
/// neuron's output is never NaN and never below positive zero.
pub proof fn lemma_activation_floor(nv: NeuronV, inputs: Seq<u32>)
    ensures
        !f32_is_nan(neuron_out(nv, inputs)),
        !f32_lt(neuron_out(nv, inputs), POS_ZERO),
{
    lemma_relu_floor(f32_add(nv.bias, dot(inputs, nv.weights, nv.weights.len() as int)));
}

} // verus!

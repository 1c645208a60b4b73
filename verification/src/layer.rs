//! A layer: a non-empty row of neurons sharing one input width.

use vstd::prelude::*;

use crate::neuron::{neuron_out, Neuron, NeuronV};
use crate::{NnError, RandomSource};

verus! {

/// The mathematical model of a layer: its neurons, in order.
pub type LayerV = Seq<NeuronV>;

/// The model of a neuron vector: each neuron's model, in order.
pub open spec fn layer_view(neurons: Seq<Neuron>) -> LayerV {
    neurons.map_values(|n: Neuron| n@)
}

/// A well-formed layer is non-empty and all its neurons share the width
/// of the first.
pub open spec fn layer_wf(l: LayerV) -> bool {
    &&& l.len() > 0
    &&& forall|j: int| 0 <= j < l.len() ==> #[trigger] l[j].weights.len() == l[0].weights.len()
}

/// The input width a layer expects: the width of its first neuron.
pub open spec fn layer_in_width(l: LayerV) -> nat {
    l[0].weights.len()
}

/// What a layer returns on an input vector: one output per neuron, in
/// neuron order, each neuron applied to the whole input independently.
pub open spec fn layer_out(l: LayerV, inputs: Seq<u32>) -> Seq<u32> {
    Seq::new(l.len(), |j: int| neuron_out(l[j], inputs))
}

/// A non-empty, uniform-width row of neurons. Maps an input vector of
/// the shared width to one output per neuron.
#[derive(Clone)]
pub struct Layer {
    pub neurons: Vec<Neuron>,
}

impl View for Layer {
    type V = LayerV;

    open spec fn view(&self) -> LayerV {
        layer_view(self.neurons@)
    }
}

impl Layer {
    /// Assembles a layer from pre-built neurons, validating the layer
    /// invariant: the row must be non-empty and every neuron's width
    /// must equal the first neuron's. Returns `InvalidTopology` exactly
    /// when that fails.
    pub fn new(neurons: Vec<Neuron>) -> (r: Result<Layer, NnError>)
        ensures
            r is Ok <==> layer_wf(layer_view(neurons@)),
            r matches Ok(l) ==> l@ == layer_view(neurons@),
            r is Err ==> r == Err::<Layer, NnError>(NnError::InvalidTopology),
    {
        let l = Layer { neurons };
        if l.is_well_formed() {
            Ok(l)
        } else {
            Err(NnError::InvalidTopology)
        }
    }

    /// Whether this layer satisfies the layer invariant: non-empty, all
    /// neurons of the first neuron's width.
    pub fn is_well_formed(&self) -> (r: bool)
        ensures
            r == layer_wf(self@),
    {
        if self.neurons.len() == 0 {
            return false;
        }
        let w0 = self.neurons[0].input_width();
        let mut j: usize = 1;
        while j < self.neurons.len()
            invariant
                1 <= j <= self@.len(),
                w0 == self@[0].weights.len(),
                forall|i: int| 0 <= i < j ==> #[trigger] self@[i].weights.len() == w0,
            decreases self@.len() - j,
        {
            proof {
                assert(self@[j as int] == self.neurons@[j as int]@);
            }
            if self.neurons[j].input_width() != w0 {
                return false;
            }
            j = j + 1;
        }
        true
    }

    /// The input width this layer expects.
    pub fn input_width(&self) -> (r: usize)
        requires
            layer_wf(self@),
        ensures
            r == layer_in_width(self@),
    {
        self.neurons[0].input_width()
    }

    /// How many neurons the layer holds, which is also the length of its
    /// output vector.
    pub fn neuron_count(&self) -> (r: usize)
        ensures
            r == self@.len(),
    {
        self.neurons.len()
    }

    /// One forward step through the layer: every neuron applied to the
    /// input vector independently, outputs in neuron order.
    pub fn propagate(&self, inputs: &Vec<u32>) -> (r: Vec<u32>)
        requires
            layer_wf(self@),
            inputs@.len() == layer_in_width(self@),
        ensures
            r@ == layer_out(self@, inputs@),
    {
        let mut out: Vec<u32> = Vec::new();
        let mut j: usize = 0;
        while j < self.neurons.len()
            invariant
                j <= self@.len(),
                layer_wf(self@),
                inputs@.len() == layer_in_width(self@),
                out@.len() == j,
                forall|i: int| 0 <= i < j ==> out@[i] == #[trigger] neuron_out(self@[i], inputs@),
            decreases self@.len() - j,
        {
            proof {
                assert(self@[j as int].weights.len() == self@[0].weights.len());
                assert(self.neurons@[j as int]@ == self@[j as int]);
            }
            out.push(self.neurons[j].propagate(inputs));
            j = j + 1;
        }
        assert(out@ =~= layer_out(self@, inputs@));
        out
    }

    /// Draws a fresh layer of `output_width` neurons of width
    /// `input_width`, neuron by neuron in output order, each neuron
    /// drawing its bias and then its weights.
    pub fn random<R: RandomSource>(rng: &mut R, input_width: usize, output_width: usize) -> (r:
        Layer)
        requires
            output_width >= 1,
        ensures
            layer_wf(r@),
            r@.len() == output_width,
            forall|j: int| 0 <= j < output_width ==> #[trigger] r@[j].weights.len() == input_width,
    {
        let mut neurons: Vec<Neuron> = Vec::new();
        let mut j: usize = 0;
        while j < output_width
            invariant
                j <= output_width,
                neurons@.len() == j,
                forall|i: int|
                    0 <= i < j ==> #[trigger] layer_view(neurons@)[i].weights.len() == input_width,
            decreases output_width - j,
        {
            let n = Neuron::random(rng, input_width);
            let ghost prev = neurons@;
            neurons.push(n);
            proof {
                assert forall|i: int| 0 <= i < j + 1 implies #[trigger] layer_view(
                    neurons@,
                )[i].weights.len() == input_width by {
                    if i < j {
                        assert(neurons@[i] == prev[i]);
                        assert(layer_view(prev)[i].weights.len() == input_width);
                    } else {
                        assert(neurons@[i] == n);
                    }
                }
            }
            j = j + 1;
        }
        Layer { neurons }
    }
}

} // verus!

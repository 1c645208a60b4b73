//! The network: a non-empty chain of layers, with forward propagation
//! and randomized construction from a topology description.

use vstd::prelude::*;

use crate::layer::{layer_in_width, layer_out, layer_wf, Layer, LayerV};
use crate::neuron::{Neuron, NeuronV};
use crate::{NnError, RandomSource};

verus! {

/// A shape descriptor used only during randomized construction: the
/// neuron count of one layer (the first entry gives the input width).
/// A meaningful count is positive.
#[derive(Clone, Copy, Debug, PartialEq, Eq, Structural)]
pub struct LayerTopology {
    pub neurons: usize,
}

/// The mathematical model of a network: its layers' models, in order.
pub type NetworkV = Seq<LayerV>;

/// A well-formed network is a non-empty chain of well-formed layers in
/// which each layer's neuron count is the next layer's input width.
pub open spec fn net_wf(ls: NetworkV) -> bool {
    &&& ls.len() > 0
    &&& forall|i: int| 0 <= i < ls.len() ==> layer_wf(#[trigger] ls[i])
    &&& forall|i: int| 1 <= i < ls.len() ==> layer_in_width(#[trigger] ls[i]) == ls[i - 1].len()
}

/// The input width a network expects: its first layer's input width.
pub open spec fn net_in_width(ls: NetworkV) -> nat {
    layer_in_width(ls[0])
}

/// What a network returns on an input vector: the strict left fold of
/// the layers over the input, layer 0 first.
pub open spec fn net_out(ls: NetworkV, inputs: Seq<u32>) -> Seq<u32>
    decreases ls.len(),
{
    if ls.len() == 0 {
        inputs
    } else {
        net_out(ls.drop_first(), layer_out(ls.first(), inputs))
    }
}

/// A topology is valid when it describes at least one layer (two
/// entries) and every width is positive.
pub open spec fn valid_topology(t: Seq<LayerTopology>) -> bool {
    &&& t.len() >= 2
    &&& forall|i: int| 0 <= i < t.len() ==> (#[trigger] t[i].neurons) >= 1
}

/// How many draws the layers before layer `l` consume: layer `m` holds
/// `t[m+1].neurons` neurons of `t[m].neurons` weights plus one bias each.
pub open spec fn layer_offset(t: Seq<LayerTopology>, l: int) -> int
    decreases l,
{
    if l <= 0 {
        0
    } else {
        layer_offset(t, l - 1) + t[l].neurons * (t[l - 1].neurons + 1)
    }
}

/// How many draws a whole network over topology `t` consumes.
pub open spec fn total_draws(t: Seq<LayerTopology>) -> int {
    layer_offset(t, t.len() - 1)
}

/// Where neuron `j` of layer `l` starts in the draw sequence: its bias
/// sits there, its weights follow in index order.
pub open spec fn neuron_base(t: Seq<LayerTopology>, l: int, j: int) -> int {
    layer_offset(t, l) + j * (t[l].neurons + 1)
}

/// Neuron `j` of layer `l`, read off the draw sequence: the bias is
/// drawn first, then the weights in index order.
pub open spec fn neuron_of_draws(t: Seq<LayerTopology>, ds: Seq<u32>, l: int, j: int) -> NeuronV {
    NeuronV {
        bias: ds[neuron_base(t, l, j)],
        weights: ds.subrange(neuron_base(t, l, j) + 1, neuron_base(t, l, j) + 1 + t[l].neurons),
    }
}

/// The network that a draw sequence determines: layers in topology
/// order, neurons in output order within each layer, bias before
/// weights within each neuron. This layout is the reproducibility
/// contract of randomized construction: the network is a pure function
/// of the topology and the draw sequence.
pub open spec fn net_of_draws(t: Seq<LayerTopology>, ds: Seq<u32>) -> NetworkV {
    Seq::new(
        (t.len() - 1) as nat,
        |l: int| Seq::new(t[l + 1].neurons as nat, |j: int| neuron_of_draws(t, ds, l, j)),
    )
}

/// Draw offsets never decrease from layer to layer.
pub proof fn lemma_offset_mono(t: Seq<LayerTopology>, l1: int, l2: int)
    requires
        l1 <= l2,
    ensures
        layer_offset(t, l1) <= layer_offset(t, l2),
    decreases l2 - l1,
{
    if l1 < l2 {
        lemma_offset_mono(t, l1, l2 - 1);
        if l2 > 0 {
            assert(t[l2].neurons * (t[l2 - 1].neurons + 1) >= 0) by (nonlinear_arith);
        }
    }
}

/// The draws of neuron `j` of layer `l` lie between the offsets of
/// layer `l` and layer `l + 1`.
pub proof fn lemma_base_bounds(t: Seq<LayerTopology>, l: int, j: int)
    requires
        0 <= l,
        l + 1 < t.len(),
        0 <= j < t[l + 1].neurons,
    ensures
        layer_offset(t, l) <= neuron_base(t, l, j),
        neuron_base(t, l, j) + 1 + t[l].neurons <= layer_offset(t, l + 1),
{
    let w1 = t[l].neurons + 1;
    assert(j * w1 >= 0) by (nonlinear_arith)
        requires
            j >= 0 && w1 >= 0,
    ;
    assert(j * w1 + w1 == (j + 1) * w1) by (nonlinear_arith);
    assert((j + 1) * w1 <= t[l + 1].neurons as int * w1) by (nonlinear_arith)
        requires
            j + 1 <= t[l + 1].neurons as int && w1 >= 0,
    ;
}

/// The shape invariant of randomized construction: over a valid
/// topology `[n0, ..., nk]`, the network a draw sequence determines has
/// exactly `k` layers, layer `i` holds `n(i+1)` neurons, every neuron
/// of layer `i` has width `ni`, and the whole is well formed.
pub proof fn lemma_shape(t: Seq<LayerTopology>, ds: Seq<u32>)
    requires
        valid_topology(t),
        ds.len() == total_draws(t),
    ensures
        net_of_draws(t, ds).len() == t.len() - 1,
        forall|l: int|
            0 <= l < t.len() - 1 ==> (#[trigger] net_of_draws(t, ds)[l]).len() == t[l + 1].neurons,
        forall|l: int, j: int|
            0 <= l < t.len() - 1 && 0 <= j < t[l + 1].neurons ==> (#[trigger] net_of_draws(
                t,
                ds,
            )[l][j]).weights.len() == t[l].neurons,
        net_wf(net_of_draws(t, ds)),
{
    let net = net_of_draws(t, ds);
    assert forall|l: int, j: int|
        0 <= l < t.len() - 1 && 0 <= j < t[l + 1].neurons implies (#[trigger] net[l][j]).weights.len()
        == t[l].neurons by {
        lemma_base_bounds(t, l, j);
        lemma_offset_mono(t, 0, l);
        lemma_offset_mono(t, l + 1, t.len() - 1);
    }
    assert forall|i: int| 0 <= i < net.len() implies layer_wf(#[trigger] net[i]) by {
        assert(net[i][0].weights.len() == t[i].neurons);
        assert(forall|j: int| 0 <= j < net[i].len() ==> (#[trigger] net[i][j]).weights.len() == t[i].neurons);
    }
    assert forall|i: int| 1 <= i < net.len() implies layer_in_width(#[trigger] net[i]) == net[i
        - 1].len() by {
        assert(net[i][0].weights.len() == t[i].neurons);
    }
}

/// Propagation composes: a network of two layers maps an input exactly
/// as the second layer applied to the first layer's output.
pub proof fn lemma_propagate_composes(l0: LayerV, l1: LayerV, inputs: Seq<u32>)
    ensures
        net_out(seq![l0, l1], inputs) == layer_out(l1, layer_out(l0, inputs)),
{
    let s = seq![l0, l1];
    assert(s.drop_first() =~= seq![l1]);
    assert(seq![l1].drop_first() =~= Seq::<LayerV>::empty());
    assert(net_out(seq![l1], layer_out(l0, inputs)) == net_out(
        Seq::<LayerV>::empty(),
        layer_out(l1, layer_out(l0, inputs)),
    ));
}

/// A non-empty chain of layers in which each layer feeds the next.
/// Maps an input vector of the first layer's width through every layer
/// in order.
#[derive(Clone)]
pub struct Network {
    pub layers: Vec<Layer>,
}

impl View for Network {
    type V = NetworkV;

    open spec fn view(&self) -> NetworkV {
        self.layers@.map_values(|l: Layer| l@)
    }
}

impl Network {
    /// Assembles a network from pre-built layers, validating the chain
    /// invariant: at least one layer, each well formed, each layer's
    /// neuron count equal to the next layer's input width. Returns
    /// `InvalidTopology` exactly when that fails.
    pub fn new(layers: Vec<Layer>) -> (r: Result<Network, NnError>)
        ensures
            r is Ok <==> net_wf(layers@.map_values(|l: Layer| l@)),
            r matches Ok(n) ==> n@ == layers@.map_values(|l: Layer| l@),
            r is Err ==> r == Err::<Network, NnError>(NnError::InvalidTopology),
    {
        let n = Network { layers };
        if n.is_well_formed() {
            Ok(n)
        } else {
            Err(NnError::InvalidTopology)
        }
    }

    /// Whether this network satisfies the chain invariant: at least one
    /// layer, each well formed, each layer's neuron count equal to the
    /// next layer's input width.
    pub fn is_well_formed(&self) -> (r: bool)
        ensures
            r == net_wf(self@),
    {
        if self.layers.len() == 0 {
            return false;
        }
        let mut i: usize = 0;
        while i < self.layers.len()
            invariant
                i <= self@.len(),
                forall|k: int| 0 <= k < i ==> layer_wf(#[trigger] self@[k]),
                forall|k: int| 1 <= k < i ==> layer_in_width(#[trigger] self@[k]) == self@[k - 1].len(),
            decreases self@.len() - i,
        {
            proof {
                assert(self@[i as int] == self.layers@[i as int]@);
            }
            if !self.layers[i].is_well_formed() {
                return false;
            }
            if i > 0 {
                proof {
                    assert(self@[i as int - 1] == self.layers@[i as int - 1]@);
                }
                if self.layers[i].input_width() != self.layers[i - 1].neuron_count() {
                    return false;
                }
            }
            i = i + 1;
        }
        true
    }

    /// The input width this network expects.
    pub fn input_width(&self) -> (r: usize)
        requires
            net_wf(self@),
        ensures
            r == net_in_width(self@),
    {
        proof {
            assert(self@[0] == self.layers@[0]@);
        }
        self.layers[0].input_width()
    }

    /// How many layers the network holds.
    pub fn layer_count(&self) -> (r: usize)
        ensures
            r == self@.len(),
    {
        self.layers.len()
    }

    /// One forward pass: threads the input vector through every layer
    /// in order — layer 0 consumes the original input, each later layer
    /// consumes its predecessor's output — and returns the last layer's
    /// output. A strict left fold; pure.
    pub fn propagate(&self, inputs: Vec<u32>) -> (r: Vec<u32>)
        requires
            net_wf(self@),
            inputs@.len() == net_in_width(self@),
        ensures
            r@ == net_out(self@, inputs@),
    {
        let ghost inputs0 = inputs@;
        let mut cur = inputs;
        let mut l: usize = 0;
        proof {
            assert(self@.skip(0) =~= self@);
        }
        while l < self.layers.len()
            invariant
                l <= self@.len(),
                net_wf(self@),
                l < self@.len() ==> cur@.len() == layer_in_width(self@[l as int]),
                net_out(self@, inputs0) == net_out(self@.skip(l as int), cur@),
            decreases self@.len() - l,
        {
            let ghost pre = self@.skip(l as int);
            proof {
                assert(self@[l as int] == self.layers@[l as int]@);
                assert(pre.first() == self@[l as int]);
            }
            let next = self.layers[l].propagate(&cur);
            proof {
                assert(pre.drop_first() =~= self@.skip(l as int + 1));
            }
            cur = next;
            l = l + 1;
        }
        proof {
            assert(self@.skip(l as int) =~= Seq::<LayerV>::empty());
        }
        cur
    }

    /// Whether a topology is valid: at least two entries (one layer
    /// must be describable) and every neuron count positive.
    fn check_topology(topology: &Vec<LayerTopology>) -> (r: bool)
        ensures
            r == valid_topology(topology@),
    {
        if topology.len() < 2 {
            return false;
        }
        let mut i: usize = 0;
        while i < topology.len()
            invariant
                i <= topology@.len(),
                topology@.len() >= 2,
                forall|k: int| 0 <= k < i ==> (#[trigger] topology@[k].neurons) >= 1,
            decreases topology@.len() - i,
        {
            if topology[i].neurons == 0 {
                return false;
            }
            i = i + 1;
        }
        true
    }

    /// Builds the network a draw sequence determines over a topology:
    /// one layer per consecutive pair of entries, neurons in output
    /// order, each neuron's bias before its weights. The caller hands
    /// over exactly the draws the topology consumes; the result is a
    /// pure function of the two. Returns `InvalidTopology` exactly when
    /// the topology is not valid.
    pub fn from_draws(topology: &Vec<LayerTopology>, draws: &Vec<u32>) -> (r: Result<
        Network,
        NnError,
    >)
        requires
            valid_topology(topology@) ==> draws@.len() == total_draws(topology@),
        ensures
            r is Ok <==> valid_topology(topology@),
            r matches Ok(n) ==> n@ == net_of_draws(topology@, draws@) && net_wf(n@),
            r is Err ==> r == Err::<Network, NnError>(NnError::InvalidTopology),
    {
        if !Self::check_topology(topology) {
            return Err(NnError::InvalidTopology);
        }
        let ghost t = topology@;
        let ghost ds = draws@;
        let ghost net = net_of_draws(t, ds);
        proof {
            lemma_shape(t, ds);
        }
        let dlen = draws.len();
        let mut layers: Vec<Layer> = Vec::new();
        let mut pos: usize = 0;
        let mut l: usize = 0;
        while l < topology.len() - 1
            invariant
                t == topology@,
                ds == draws@,
                net == net_of_draws(t, ds),
                valid_topology(t),
                t.len() >= 2,
                ds.len() == total_draws(t),
                dlen == ds.len(),
                l <= t.len() - 1,
                pos == layer_offset(t, l as int),
                layers@.len() == l,
                forall|i: int| 0 <= i < l ==> #[trigger] layers@[i]@ == net[i],
            decreases t.len() - 1 - l,
        {
            let in_w = topology[l].neurons;
            let out_w = topology[l + 1].neurons;
            let mut neurons: Vec<Neuron> = Vec::new();
            let mut j: usize = 0;
            while j < out_w
                invariant
                    t == topology@,
                    ds == draws@,
                    net == net_of_draws(t, ds),
                    valid_topology(t),
                    t.len() >= 2,
                    ds.len() == total_draws(t),
                    dlen == ds.len(),
                    l < t.len() - 1,
                    in_w == t[l as int].neurons,
                    out_w == t[l as int + 1].neurons,
                    j <= out_w,
                    pos == neuron_base(t, l as int, j as int),
                    neurons@.len() == j,
                    forall|i: int| 0 <= i < j ==> #[trigger] neurons@[i]@ == net[l as int][i],
                decreases out_w - j,
            {
                proof {
                    lemma_base_bounds(t, l as int, j as int);
                    lemma_offset_mono(t, 0, l as int);
                    lemma_offset_mono(t, l as int + 1, t.len() - 1);
                }
                let ghost base = pos as int;
                let bias = draws[pos];
                pos = pos + 1;
                let mut ws: Vec<u32> = Vec::new();
                let mut k: usize = 0;
                while k < in_w
                    invariant
                        ds == draws@,
                        0 <= base,
                        dlen == ds.len(),
                        base + 1 + in_w <= ds.len(),
                        k <= in_w,
                        pos == base + 1 + k,
                        ws@.len() == k,
                        forall|m: int| 0 <= m < k ==> ws@[m] == ds[base + 1 + m],
                    decreases in_w - k,
                {
                    ws.push(draws[pos]);
                    pos = pos + 1;
                    k = k + 1;
                }
                let n = Neuron { bias, weights: ws };
                proof {
                    assert(ws@ =~= ds.subrange(base + 1, base + 1 + in_w as int));
                    assert(n@ =~= neuron_of_draws(t, ds, l as int, j as int));
                    assert(n@ == net[l as int][j as int]);
                }
                let ghost prev = neurons@;
                neurons.push(n);
                proof {
                    assert forall|i: int| 0 <= i < j + 1 implies #[trigger] neurons@[i]@ == net[l
                        as int][i] by {
                        if i < j {
                            assert(neurons@[i] == prev[i]);
                        } else {
                            assert(neurons@[i] == n);
                        }
                    }
                    assert((j as int + 1) * (in_w as int + 1) == j as int * (in_w as int + 1) + (
                    in_w as int + 1)) by (nonlinear_arith);
                }
                j = j + 1;
            }
            let lay = Layer { neurons };
            let ghost prevl = layers@;
            layers.push(lay);
            proof {
                assert(lay@ =~= net[l as int]);
                assert forall|i: int| 0 <= i < l + 1 implies #[trigger] layers@[i]@ == net[i] by {
                    if i < l {
                        assert(layers@[i] == prevl[i]);
                    } else {
                        assert(layers@[i] == lay);
                    }
                }
            }
            l = l + 1;
        }
        let n = Network { layers };
        proof {
            assert(n@ =~= net);
        }
        Ok(n)
    }

    /// Draws a fresh network over the topology from the random source:
    /// layers in order, each layer's neurons in output order, each
    /// neuron's bias before its weights — one strictly sequential
    /// stream of draws, so a seeded source reproduces the network bit
    /// for bit. The result is the network that some draw sequence of
    /// the topology's size determines. Returns `InvalidTopology`
    /// exactly when the topology is not valid.
    pub fn random<R: RandomSource>(rng: &mut R, topology: &Vec<LayerTopology>) -> (r: Result<
        Network,
        NnError,
    >)
        requires
            valid_topology(topology@) ==> total_draws(topology@) <= usize::MAX,
        ensures
            r is Ok <==> valid_topology(topology@),
            r matches Ok(n) ==> {
                &&& net_wf(n@)
                &&& n@.len() == topology@.len() - 1
                &&& forall|l: int|
                    0 <= l < topology@.len() - 1 ==> (#[trigger] n@[l]).len() == topology@[l
                        + 1].neurons
                &&& forall|l: int, j: int|
                    0 <= l < topology@.len() - 1 && 0 <= j < topology@[l + 1].neurons ==> (
                    #[trigger] n@[l][j]).weights.len() == topology@[l].neurons
                &&& exists|ds: Seq<u32>|
                    ds.len() == total_draws(topology@) && n@ == net_of_draws(topology@, ds)
            },
            r is Err ==> r == Err::<Network, NnError>(NnError::InvalidTopology),
    {
        if !Self::check_topology(topology) {
            return Err(NnError::InvalidTopology);
        }
        let ghost t = topology@;
        let mut total: usize = 0;
        let mut l: usize = 0;
        while l < topology.len() - 1
            invariant
                t == topology@,
                valid_topology(t),
                t.len() >= 2,
                total_draws(t) <= usize::MAX,
                l <= t.len() - 1,
                total == layer_offset(t, l as int),
            decreases t.len() - 1 - l,
        {
            proof {
                lemma_offset_mono(t, 0, l as int);
                lemma_offset_mono(t, l as int + 1, t.len() - 1);
                assert(layer_offset(t, l as int + 1) == layer_offset(t, l as int) + t[l as int
                    + 1].neurons * (t[l as int].neurons + 1));
                assert(t[l as int + 1].neurons * (t[l as int].neurons + 1) >= (t[l as int].neurons
                    + 1)) by (nonlinear_arith)
                    requires
                        t[l as int + 1].neurons >= 1 && t[l as int].neurons >= 0,
                ;
            }
            let term = topology[l + 1].neurons * (topology[l].neurons + 1);
            total = total + term;
            l = l + 1;
        }
        let mut ds: Vec<u32> = Vec::new();
        let mut i: usize = 0;
        while i < total
            invariant
                i <= total,
                ds@.len() == i,
            decreases total - i,
        {
            ds.push(rng.next_unit());
            i = i + 1;
        }
        let res = Self::from_draws(topology, &ds);
        proof {
            lemma_shape(t, ds@);
            if res is Ok {
                assert(ds@.len() == total_draws(t) && res->Ok_0@ == net_of_draws(t, ds@));
            }
        }
        res
    }

    /// The guarded forward pass: checks the input's length instead of
    /// requiring it, and returns `DimensionMismatch` exactly when the
    /// input does not match the network's input width.
    pub fn checked_propagate(&self, inputs: Vec<u32>) -> (r: Result<Vec<u32>, NnError>)
        requires
            net_wf(self@),
        ensures
            r is Ok <==> inputs@.len() == net_in_width(self@),
            r matches Ok(v) ==> v@ == net_out(self@, inputs@),
            r is Err ==> r == Err::<Vec<u32>, NnError>(NnError::DimensionMismatch),
    {
        if inputs.len() == self.input_width() {
            Ok(self.propagate(inputs))
        } else {
            Err(NnError::DimensionMismatch)
        }
    }
}

} // verus!


use vstd::prelude::*;

verus! {

/// The size of one layer of a network: how many neurons it holds.
#[derive(Debug, Clone, Copy, PartialEq, Eq)]
pub struct LayerTopology {
    pub neurons: usize,
}

/// A neuron: its bias and one weight per input.
#[derive(Debug, Clone)]
pub struct Neuron<T> {
    bias: T,
    weights: Vec<T>,
}

/// A layer: its neurons, in order.
#[derive(Debug, Clone)]
pub struct Layer<T> {
    neurons: Vec<Neuron<T>>,
}

/// A feed-forward network: its layers, from the input side on.
#[derive(Debug, Clone)]
pub struct Network<T> {
    layers: Vec<Layer<T>>,
}

impl<T> View for Neuron<T> {
    type V = (T, Seq<T>);

    closed spec fn view(&self) -> (T, Seq<T>) {
        (self.bias, self.weights@)
    }
}

impl<T> View for Layer<T> {
    type V = Seq<(T, Seq<T>)>;

    closed spec fn view(&self) -> Seq<(T, Seq<T>)> {
        neurons_model(self.neurons@)
    }
}

impl<T> View for Network<T> {
    type V = Seq<Seq<(T, Seq<T>)>>;

    closed spec fn view(&self) -> Seq<Seq<(T, Seq<T>)>> {
        layers_model(self.layers@)
    }
}

/// The models of a sequence of neurons.
pub closed spec fn neurons_model<T>(s: Seq<Neuron<T>>) -> Seq<(T, Seq<T>)> {
    s.map_values(|n: Neuron<T>| n@)
}

/// The models of a sequence of layers.
pub closed spec fn layers_model<T>(s: Seq<Layer<T>>) -> Seq<Seq<(T, Seq<T>)>> {
    s.map_values(|l: Layer<T>| l@)
}

/// A neuron's values in flattened order: the bias, then the weights.
pub open spec fn flat_neuron<T>(n: (T, Seq<T>)) -> Seq<T> {
    seq![n.0] + n.1
}

/// A layer's values: its neurons' flattened values, one neuron after another.
pub open spec fn flat_layer<T>(l: Seq<(T, Seq<T>)>) -> Seq<T>
    decreases l.len(),
{
    if l.len() == 0 {
        Seq::empty()
    } else {
        flat_layer(l.drop_last()) + flat_neuron(l.last())
    }
}

/// A network's values: its layers' flattened values, one layer after another.
pub open spec fn flat_network<T>(v: Seq<Seq<(T, Seq<T>)>>) -> Seq<T>
    decreases v.len(),
{
    if v.len() == 0 {
        Seq::empty()
    } else {
        flat_network(v.drop_last()) + flat_layer(v.last())
    }
}

/// `output` neurons, each with `input` weights.
pub open spec fn layer_shaped<T>(l: Seq<(T, Seq<T>)>, input: nat, output: nat) -> bool {
    &&& l.len() == output
    &&& forall|j: int| 0 <= j < l.len() ==> (#[trigger] l[j]).1.len() == input
}

/// The network has one layer per adjacent pair of the topology, each of the
/// pair's sizes.
pub open spec fn network_shaped<T>(v: Seq<Seq<(T, Seq<T>)>>, topology: Seq<LayerTopology>) -> bool {
    &&& topology.len() > 1
    &&& v.len() == topology.len() - 1
    &&& forall|i: int|
        0 <= i < v.len() ==> layer_shaped(
            #[trigger] v[i],
            topology[i].neurons as nat,
            topology[i + 1].neurons as nat,
        )
}

/// How many values the first `m` layers of a topology hold: for each one,
/// a bias and a weight per input, for each of its neurons.
pub open spec fn weight_count_upto(topology: Seq<LayerTopology>, m: int) -> nat
    decreases m,
{
    if m <= 0 {
        0
    } else {
        weight_count_upto(topology, m - 1) + topology[m].neurons as nat * (topology[m - 1].neurons as nat + 1)
    }
}

/// How many values a network of this topology holds.
pub open spec fn weight_count(topology: Seq<LayerTopology>) -> nat {
    weight_count_upto(topology, topology.len() - 1)
}

proof fn lemma_weight_count_monotone(topology: Seq<LayerTopology>, a: int, b: int)
    requires
        0 <= a <= b,
    ensures
        weight_count_upto(topology, a) <= weight_count_upto(topology, b),
    decreases b - a,
{
    if a < b {
        lemma_weight_count_monotone(topology, a, b - 1);
    }
}

/// Two equally long tails split two equal concatenations the same way.
proof fn lemma_split_equal<T>(a1: Seq<T>, b1: Seq<T>, a2: Seq<T>, b2: Seq<T>)
    requires
        a1 + b1 == a2 + b2,
        b1.len() == b2.len(),
    ensures
        a1 == a2,
        b1 == b2,
{
    let s = a1 + b1;
    assert(a1 =~= s.subrange(0, a1.len() as int));
    assert(a2 =~= (a2 + b2).subrange(0, a2.len() as int));
    assert(b1 =~= s.subrange(a1.len() as int, s.len() as int));
    assert(b2 =~= (a2 + b2).subrange(a2.len() as int, s.len() as int));
}

proof fn lemma_flat_layer_len<T>(l: Seq<(T, Seq<T>)>, input: nat)
    requires
        forall|j: int| 0 <= j < l.len() ==> (#[trigger] l[j]).1.len() == input,
    ensures
        flat_layer(l).len() == l.len() * (input + 1),
    decreases l.len(),
{
    if l.len() > 0 {
        let p = l.drop_last();
        assert forall|j: int| 0 <= j < p.len() implies (#[trigger] p[j]).1.len() == input by {
            assert(p[j] == l[j]);
        }
        lemma_flat_layer_len(p, input);
        assert(l.len() * (input + 1) == p.len() * (input + 1) + (input + 1)) by (nonlinear_arith)
            requires
                l.len() == p.len() + 1,
        ;
    }
}

proof fn lemma_flat_network_len<T>(v: Seq<Seq<(T, Seq<T>)>>, topology: Seq<LayerTopology>)
    requires
        v.len() < topology.len(),
        forall|i: int|
            0 <= i < v.len() ==> layer_shaped(
                #[trigger] v[i],
                topology[i].neurons as nat,
                topology[i + 1].neurons as nat,
            ),
    ensures
        flat_network(v).len() == weight_count_upto(topology, v.len() as int),
    decreases v.len(),
{
    if v.len() > 0 {
        let p = v.drop_last();
        assert forall|i: int| 0 <= i < p.len() implies layer_shaped(
            #[trigger] p[i],
            topology[i].neurons as nat,
            topology[i + 1].neurons as nat,
        ) by {
            assert(p[i] == v[i]);
        }
        lemma_flat_network_len(p, topology);
        let k = v.len() - 1;
        assert(layer_shaped(v[k], topology[k].neurons as nat, topology[k + 1].neurons as nat));
        lemma_flat_layer_len(v.last(), topology[k].neurons as nat);
    }
}

/// Two layers of one shape with the same flattened values are the same layer.
proof fn lemma_flat_layer_unique<T>(l1: Seq<(T, Seq<T>)>, l2: Seq<(T, Seq<T>)>, input: nat)
    requires
        l1.len() == l2.len(),
        forall|j: int| 0 <= j < l1.len() ==> (#[trigger] l1[j]).1.len() == input,
        forall|j: int| 0 <= j < l2.len() ==> (#[trigger] l2[j]).1.len() == input,
        flat_layer(l1) == flat_layer(l2),
    ensures
        l1 == l2,
    decreases l1.len(),
{
    if l1.len() > 0 {
        let (front1, front2) = (l1.drop_last(), l2.drop_last());
        let (n1, n2) = (l1.last(), l2.last());
        lemma_split_equal(flat_layer(front1), flat_neuron(n1), flat_layer(front2), flat_neuron(n2));
        assert forall|j: int| 0 <= j < front1.len() implies (#[trigger] front1[j]).1.len() == input by {
            assert(front1[j] == l1[j]);
        }
        assert forall|j: int| 0 <= j < front2.len() implies (#[trigger] front2[j]).1.len() == input by {
            assert(front2[j] == l2[j]);
        }
        lemma_flat_layer_unique(front1, front2, input);
        assert(n1.0 == flat_neuron(n1)[0]);
        assert(n2.0 == flat_neuron(n2)[0]);
        assert(n1.1 =~= flat_neuron(n1).subrange(1, input as int + 1));
        assert(n2.1 =~= flat_neuron(n2).subrange(1, input as int + 1));
        assert(l1 =~= front1.push(n1));
        assert(l2 =~= front2.push(n2));
    }
}

proof fn lemma_flat_network_unique<T>(
    v1: Seq<Seq<(T, Seq<T>)>>,
    v2: Seq<Seq<(T, Seq<T>)>>,
    topology: Seq<LayerTopology>,
)
    requires
        v1.len() == v2.len(),
        v1.len() < topology.len(),
        forall|i: int|
            0 <= i < v1.len() ==> layer_shaped(
                #[trigger] v1[i],
                topology[i].neurons as nat,
                topology[i + 1].neurons as nat,
            ),
        forall|i: int|
            0 <= i < v2.len() ==> layer_shaped(
                #[trigger] v2[i],
                topology[i].neurons as nat,
                topology[i + 1].neurons as nat,
            ),
        flat_network(v1) == flat_network(v2),
    ensures
        v1 == v2,
    decreases v1.len(),
{
    if v1.len() > 0 {
        let k = v1.len() - 1;
        let (front1, front2) = (v1.drop_last(), v2.drop_last());
        assert(layer_shaped(v1[k], topology[k].neurons as nat, topology[k + 1].neurons as nat));
        assert(layer_shaped(v2[k], topology[k].neurons as nat, topology[k + 1].neurons as nat));
        lemma_flat_layer_len(v1.last(), topology[k].neurons as nat);
        lemma_flat_layer_len(v2.last(), topology[k].neurons as nat);
        lemma_split_equal(flat_network(front1), flat_layer(v1.last()), flat_network(front2), flat_layer(v2.last()));
        assert forall|i: int| 0 <= i < front1.len() implies layer_shaped(
            #[trigger] front1[i],
            topology[i].neurons as nat,
            topology[i + 1].neurons as nat,
        ) by {
            assert(front1[i] == v1[i]);
        }
        assert forall|i: int| 0 <= i < front2.len() implies layer_shaped(
            #[trigger] front2[i],
            topology[i].neurons as nat,
            topology[i + 1].neurons as nat,
        ) by {
            assert(front2[i] == v2[i]);
        }
        lemma_flat_network_unique(front1, front2, topology);
        lemma_flat_layer_unique(v1.last(), v2.last(), topology[k].neurons as nat);
        assert(v1 =~= front1.push(v1.last()));
        assert(v2 =~= front2.push(v2.last()));
    }
}

/// A network of a given topology is fixed by its flattened values, and holds
/// exactly as many of them as the topology asks for. So rebuilding a network
/// from its own flattened values, with its own topology, gives back the same
/// biases and weights in the same places, and with them the same outputs.
pub proof fn lemma_from_weights_round_trip<T>(
    network: Seq<Seq<(T, Seq<T>)>>,
    rebuilt: Seq<Seq<(T, Seq<T>)>>,
    topology: Seq<LayerTopology>,
)
    requires
        network_shaped(network, topology),
        network_shaped(rebuilt, topology),
        flat_network(rebuilt) == flat_network(network),
    ensures
        flat_network(network).len() == weight_count(topology),
        rebuilt == network,
{
    lemma_flat_network_len(network, topology);
    lemma_flat_network_unique(rebuilt, network, topology);
}


impl<T: Copy> Neuron<T> {
    pub fn new(bias: T, weights: Vec<T>) -> (r: Self)
        ensures
            r@ == (bias, weights@),
    {
        Neuron { bias, weights }
    }

    pub fn bias(&self) -> (r: T)
        ensures
            r == self@.0,
    {
        self.bias
    }

    pub fn weights(&self) -> (r: &Vec<T>)
        ensures
            r@ == self@.1,
    {
        &self.weights
    }
}

impl<T: Copy> Layer<T> {
    /// A layer of the given neurons: at least one, all with the same number of weights.
    pub fn new(neurons: Vec<Neuron<T>>) -> (r: Self)
        requires
            neurons.len() > 0,
            forall|j: int| 0 <= j < neurons.len() ==> (#[trigger] neurons[j]@).1.len() == neurons[0]@.1.len(),
        ensures
            r@ == neurons_model(neurons@),
            r@.len() > 0,
            layer_shaped(r@, r@[0].1.len(), neurons.len() as nat),
    {
        let r = Layer { neurons };
        assert forall|j: int| 0 <= j < r@.len() implies (#[trigger] r@[j]).1.len() == r@[0].1.len() by {
            assert(r@[j] == r.neurons[j]@);
        }
        r
    }

    pub fn neurons(&self) -> (r: &Vec<Neuron<T>>)
        ensures
            neurons_model(r@) == self@,
    {
        &self.neurons
    }
}

impl<T: Copy> Network<T> {
    pub fn new(layers: Vec<Layer<T>>) -> (r: Self)
        ensures
            r@ == layers_model(layers@),
    {
        Network { layers }
    }

    pub fn layers(&self) -> (r: &Vec<Layer<T>>)
        ensures
            layers_model(r@) == self@,
    {
        &self.layers
    }

    /// All values of the network in order: layer by layer, neuron by neuron,
    /// each neuron's bias before its weights.
    pub fn weights(&self) -> (r: Vec<T>)
        ensures
            r@ == flat_network(self@),
    {
        let mut r: Vec<T> = Vec::new();
        let mut i: usize = 0;
        while i < self.layers.len()
            invariant
                i <= self.layers.len(),
                r@ == flat_network(self@.take(i as int)),
            decreases self.layers.len() - i,
        {
            let layer = &self.layers[i];
            assert(self@[i as int] == layer@);
            let mut j: usize = 0;
            while j < layer.neurons.len()
                invariant
                    i < self.layers.len(),
                    layer == &self.layers[i as int],
                    j <= layer.neurons.len(),
                    r@ == flat_network(self@.take(i as int)) + flat_layer(layer@.take(j as int)),
                decreases layer.neurons.len() - j,
            {
                let neuron = &layer.neurons[j];
                assert(layer@[j as int] == neuron@);
                let ghost before = r@;
                r.push(neuron.bias);
                let mut m: usize = 0;
                while m < neuron.weights.len()
                    invariant
                        m <= neuron.weights.len(),
                        r@ == before + seq![neuron.bias] + neuron.weights@.take(m as int),
                    decreases neuron.weights.len() - m,
                {
                    r.push(neuron.weights[m]);
                    m += 1;
                    assert(r@ =~= before + seq![neuron.bias] + neuron.weights@.take(m as int));
                }
                assert(neuron.weights@.take(m as int) =~= neuron.weights@);
                let ghost taken = layer@.take(j + 1);
                assert(taken.drop_last() =~= layer@.take(j as int));
                assert(taken.last() == neuron@);
                assert(r@ =~= flat_network(self@.take(i as int)) + flat_layer(taken));
                j += 1;
            }
            assert(layer@.take(j as int) =~= layer@);
            let ghost taken = self@.take(i + 1);
            assert(taken.drop_last() =~= self@.take(i as int));
            assert(taken.last() == layer@);
            i += 1;
        }
        assert(self@.take(i as int) =~= self@);
        r
    }
}


impl<T: Copy> Layer<T> {
    /// Reads a layer of `output_size` neurons with `input_size` weights each
    /// from the values at `*cursor` on, in flattened order, and moves the
    /// cursor past them.
    pub fn from_weights(input_size: usize, output_size: usize, weights: &Vec<T>, cursor: &mut usize) -> (r: Self)
        requires
            *old(cursor) + output_size * (input_size + 1) <= weights.len(),
        ensures
            *final(cursor) == *old(cursor) + output_size * (input_size + 1),
            layer_shaped(r@, input_size as nat, output_size as nat),
            flat_layer(r@) == weights@.subrange(*old(cursor) as int, *final(cursor) as int),
    {
        let input = input_size;
        let output = output_size;
        let start = *cursor;
        let mut k: usize = start;
        let mut neurons: Vec<Neuron<T>> = Vec::new();
        let mut j: usize = 0;
        while j < output
            invariant
                start + output * (input + 1) <= weights.len(),
                j <= output,
                neurons.len() == j,
                k == start + j * (input + 1),
                flat_layer(neurons_model(neurons@)) == weights@.subrange(start as int, k as int),
                forall|jj: int| 0 <= jj < j ==> (#[trigger] neurons[jj]@).1.len() == input,
            decreases output - j,
        {
            assert(k + input + 1 <= weights.len()) by {
                assert((j + 1) * (input + 1) <= output * (input + 1)) by (nonlinear_arith)
                    requires
                        j + 1 <= output,
                ;
                assert(j * (input + 1) + input + 1 == (j + 1) * (input + 1)) by (nonlinear_arith);
            }
            let bias = weights[k];
            let mut ws: Vec<T> = Vec::new();
            let mut m: usize = 0;
            while m < input
                invariant
                    k + input + 1 <= weights.len(),
                    m <= input,
                    ws@ == weights@.subrange(k + 1, k + 1 + m),
                decreases input - m,
            {
                ws.push(weights[k + 1 + m]);
                m += 1;
                assert(ws@ =~= weights@.subrange(k + 1, k + 1 + m));
            }
            let neuron = Neuron { bias, weights: ws };
            let ghost before_ns = neurons_model(neurons@);
            let ghost before_k = k;
            neurons.push(neuron);
            k = k + input + 1;
            j += 1;
            proof {
                let ns = neurons_model(neurons@);
                assert(ns.drop_last() =~= before_ns);
                assert(ns.last() == neuron@);
                assert(flat_neuron(neuron@) =~= weights@.subrange(before_k as int, k as int));
                assert(weights@.subrange(start as int, k as int) =~= weights@.subrange(start as int, before_k as int)
                    + weights@.subrange(before_k as int, k as int));
                assert(j * (input + 1) == (j - 1) * (input + 1) + input + 1) by (nonlinear_arith)
                    requires
                        j >= 1,
                ;
            }
        }
        let layer = Layer { neurons };
        assert(layer@ == neurons_model(neurons@));
        assert forall|jj: int| 0 <= jj < layer@.len() implies (#[trigger] layer@[jj]).1.len() == input by {
            assert(layer@[jj] == neurons[jj]@);
        }
        *cursor = k;
        layer
    }
}

impl<T: Copy> Network<T> {
    /// Rebuilds a network of the given topology from its values in flattened
    /// order; the values must be exactly as many as the topology holds.
    pub fn from_weights(topology: &Vec<LayerTopology>, weights: &Vec<T>) -> (r: Self)
        requires
            topology.len() > 1,
            weights.len() == weight_count(topology@),
        ensures
            network_shaped(r@, topology@),
            flat_network(r@) == weights@,
    {
        let mut layers: Vec<Layer<T>> = Vec::new();
        let mut k: usize = 0;
        let mut i: usize = 0;
        while i + 1 < topology.len()
            invariant
                topology.len() > 1,
                weights.len() == weight_count(topology@),
                i + 1 <= topology.len(),
                layers.len() == i,
                k == weight_count_upto(topology@, i as int),
                flat_network(layers_model(layers@)) == weights@.take(k as int),
                forall|ii: int|
                    0 <= ii < i ==> layer_shaped(
                        #[trigger] layers_model(layers@)[ii],
                        topology@[ii].neurons as nat,
                        topology@[ii + 1].neurons as nat,
                    ),
            decreases topology.len() - i,
        {
            let input = topology[i].neurons;
            let output = topology[i + 1].neurons;
            proof {
                lemma_weight_count_monotone(topology@, i + 1, topology.len() - 1);
            }
            let ghost before_k = k;
            let layer = Layer::from_weights(input, output, weights, &mut k);
            proof {
                assert(weights@.take(k as int) =~= weights@.take(before_k as int) + weights@.subrange(
                    before_k as int,
                    k as int,
                ));
            }
            let ghost before_ls = layers_model(layers@);
            layers.push(layer);
            i += 1;
            proof {
                let ls = layers_model(layers@);
                assert(ls.drop_last() =~= before_ls);
                assert(ls.last() == layer@);
                assert forall|ii: int|
                    0 <= ii < i implies layer_shaped(
                        #[trigger] ls[ii],
                        topology@[ii].neurons as nat,
                        topology@[ii + 1].neurons as nat,
                    ) by {
                    if ii < i - 1 {
                        assert(ls[ii] == before_ls[ii]);
                    }
                }
            }
        }
        assert(weights@.take(k as int) =~= weights@);
        Network { layers }
    }
}

/// How many values a network of this topology holds, or `None` where that
/// number does not fit in `usize`.
pub fn count_weights(topology: &Vec<LayerTopology>) -> (r: Option<usize>)
    ensures
        r == (if weight_count(topology@) <= usize::MAX {
            Some(weight_count(topology@) as usize)
        } else {
            None::<usize>
        }),
{
    if topology.len() == 0 {
        return Some(0);
    }
    let mut total: usize = 0;
    let mut i: usize = 1;
    while i < topology.len()
        invariant
            1 <= i <= topology.len(),
            total == weight_count_upto(topology@, i - 1),
        decreases topology.len() - i,
    {
        let input = topology[i - 1].neurons;
        let output = topology[i].neurons;
        proof {
            lemma_weight_count_monotone(topology@, i as int, topology.len() - 1);
        }
        let term: usize;
        if output == 0 {
            term = 0;
            assert(output * (input + 1) == 0) by (nonlinear_arith)
                requires
                    output == 0,
            ;
        } else if input == usize::MAX {
            assert(output * (input + 1) >= input + 1) by (nonlinear_arith)
                requires
                    output >= 1,
            ;
            return None;
        } else {
            match output.checked_mul(input + 1) {
                Some(t) => {
                    term = t;
                },
                None => {
                    return None;
                },
            }
        }
        match total.checked_add(term) {
            Some(t) => {
                total = t;
            },
            None => {
                return None;
            },
        }
        i += 1;
    }
    Some(total)
}

} // verus!

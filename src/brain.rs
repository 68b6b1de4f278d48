use vstd::prelude::*;

use crate::network::{
    flat_network, network_shaped, weight_count, LayerTopology, Network,
};

verus! {

/// The layers of a brain fed by an eye of `cells` cells: the eye's cells, a
/// hidden layer twice as wide, and two outputs (speed and rotation).
pub open spec fn brain_topology(cells: nat) -> Seq<LayerTopology> {
    seq![
        LayerTopology { neurons: cells as usize },
        LayerTopology { neurons: (2 * cells) as usize },
        LayerTopology { neurons: 2 },
    ]
}

/// Builds the topology of a brain fed by an eye of `cells` cells.
pub fn topology(cells: usize) -> (r: Vec<LayerTopology>)
    requires
        2 * cells <= usize::MAX,
    ensures
        r@ == brain_topology(cells as nat),
{
    let r = vec![
        LayerTopology { neurons: cells },
        LayerTopology { neurons: 2 * cells },
        LayerTopology { neurons: 2 },
    ];
    assert(r@ =~= brain_topology(cells as nat));
    r
}

/// An animal's brain: a network from its eye's cells to its two motor outputs.
#[derive(Debug, Clone)]
pub struct Brain<T> {
    nn: Network<T>,
}

impl<T: Copy> Brain<T> {
    /// The brain whose network holds the genotype's genes as its values, in
    /// flattened order.
    pub fn from_genotype(genotype: Vec<T>, cells: usize) -> (r: Self)
        requires
            2 * cells <= usize::MAX,
            genotype.len() == weight_count(brain_topology(cells as nat)),
        ensures
            network_shaped(r.network()@, brain_topology(cells as nat)),
            flat_network(r.network()@) == genotype@,
    {
        let layers = topology(cells);
        Brain { nn: Network::from_weights(&layers, &genotype) }
    }

    /// The genotype that encodes this brain: its network's values in flattened order.
    pub fn as_genotype(&self) -> (r: Vec<T>)
        ensures
            r@ == flat_network(self.network()@),
    {
        self.nn.weights()
    }

    pub closed spec fn network(&self) -> Network<T> {
        self.nn
    }

    pub fn nn(&self) -> (r: &Network<T>)
        ensures
            *r == self.network(),
    {
        &self.nn
    }
}

} // verus!

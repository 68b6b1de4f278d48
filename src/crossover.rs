use vstd::prelude::*;

use crate::ga::CrossoverMethod;

verus! {

/// Draws one fair coin from `rng`.
///
/// Relies on rand's `Rng::random_ratio(1, 2)`: it never panics for a ratio of
/// one half, and consumes the same draw as `Rng::random_bool` with an even chance.
#[verifier::external_body]
pub(crate) fn fair_coin<R: rand::RngCore>(rng: &mut R) -> (r: bool) {
    rand::Rng::random_ratio(rng, 1, 2)
}

/// The gene that a child takes at one index: the first parent's on heads.
pub open spec fn pick<T>(heads: bool, a: T, b: T) -> T {
    if heads { a } else { b }
}

/// Uniform crossover: each gene of the child comes from either parent with even chance.
#[derive(Debug, Clone, Copy)]
pub struct UniformCrossover;

impl UniformCrossover {
    /// Builds a child from two parents of equal length, given one coin per gene.
    pub fn crossover_with<T: Copy>(&self, coins: &Vec<bool>, parent_a: &Vec<T>, parent_b: &Vec<T>) -> (child: Vec<T>)
        requires
            parent_a.len() == parent_b.len(),
            coins.len() == parent_a.len(),
        ensures
            child.len() == parent_a.len(),
            forall|i: int| 0 <= i < child.len() ==> child[i] == pick(coins[i], parent_a[i], parent_b[i]),
    {
        let mut child: Vec<T> = Vec::new();
        let mut i: usize = 0;
        while i < parent_a.len()
            invariant
                parent_a.len() == parent_b.len(),
                coins.len() == parent_a.len(),
                i <= parent_a.len(),
                child.len() == i,
                forall|j: int| 0 <= j < i ==> child[j] == pick(coins[j], parent_a[j], parent_b[j]),
            decreases parent_a.len() - i,
        {
            if coins[i] {
                child.push(parent_a[i]);
            } else {
                child.push(parent_b[i]);
            }
            i += 1;
        }
        child
    }
}

impl<T: Copy> CrossoverMethod<T> for UniformCrossover {
    /// Draws one fair coin per gene, in index order, and builds the child from them.
    fn crossover<R: rand::RngCore>(&self, rng: &mut R, parent_a: &Vec<T>, parent_b: &Vec<T>) -> (child: Vec<T>) {
        let mut coins: Vec<bool> = Vec::new();
        let mut i: usize = 0;
        while i < parent_a.len()
            invariant
                i <= parent_a.len(),
                coins.len() == i,
            decreases parent_a.len() - i,
        {
            coins.push(fair_coin(rng));
            i += 1;
        }
        self.crossover_with(&coins, parent_a, parent_b)
    }
}

} // verus!

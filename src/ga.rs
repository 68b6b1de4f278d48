use vstd::prelude::*;

verus! {

/// A member of a population, carrying a genotype of genes `T`. How fit a
/// member is, is for the selection method to read.
pub trait Individual<T>: Sized {
    /// The genes of the genotype, in order. Every implementation fixes what
    /// they are through `genotype` and `create`; the default body only keeps
    /// implementations outside verified code from having to spell them out.
    open spec fn genes(&self) -> Seq<T> {
        vstd::pervasive::arbitrary()
    }

    fn genotype(&self) -> (r: &Vec<T>)
        ensures
            r@ == self.genes(),
    ;

    fn create(genotype: Vec<T>) -> (r: Self)
        ensures
            r.genes() == genotype@,
    ;
}

/// Picks one member of a non-empty population.
pub trait SelectionMethod<I> {
    fn select<R: rand::RngCore>(&self, rng: &mut R, population: &Vec<I>) -> (r: usize)
        requires
            population.len() > 0,
        ensures
            r < population.len(),
    ;
}

/// Breeds a child genotype from two parent genotypes of equal length.
pub trait CrossoverMethod<T> {
    fn crossover<R: rand::RngCore>(&self, rng: &mut R, parent_a: &Vec<T>, parent_b: &Vec<T>) -> (child: Vec<T>)
        requires
            parent_a.len() == parent_b.len(),
        ensures
            child.len() == parent_a.len(),
            forall|i: int| 0 <= i < child.len() ==> child[i] == parent_a[i] || child[i] == parent_b[i],
    ;
}

/// Changes a genotype in place, keeping its length.
pub trait MutationMethod<T> {
    fn mutate<R: rand::RngCore>(&self, rng: &mut R, child: &mut Vec<T>)
        ensures
            final(child).len() == old(child).len(),
    ;
}

/// All members of the population have genotypes of `len` genes.
pub open spec fn genotypes_of_len<T, I: Individual<T>>(population: Seq<I>, len: nat) -> bool {
    forall|i: int| 0 <= i < population.len() ==> (#[trigger] population[i]).genes().len() == len
}

/// A genetic algorithm: how parents are selected, crossed over and mutated.
#[derive(Debug, Clone)]
pub struct GeneticAlgorithm<S, C, M> {
    pub selection_method: S,
    pub crossover_method: C,
    pub mutation_method: M,
}

impl<S, C, M> GeneticAlgorithm<S, C, M> {
    pub fn new(selection_method: S, crossover_method: C, mutation_method: M) -> (r: Self)
        ensures
            r.selection_method == selection_method,
            r.crossover_method == crossover_method,
            r.mutation_method == mutation_method,
    {
        GeneticAlgorithm { selection_method, crossover_method, mutation_method }
    }

    /// Breeds the next generation: as many children as there are members, each
    /// from two selected parents, crossed over and then mutated, in that order.
    pub fn evolve<R: rand::RngCore, T, I: Individual<T>>(&self, rng: &mut R, population: &Vec<I>) -> (r: Vec<I>)
        where
            S: SelectionMethod<I>,
            C: CrossoverMethod<T>,
            M: MutationMethod<T>,
        requires
            population.len() > 0,
            genotypes_of_len(population@, population[0].genes().len()),
        ensures
            r.len() == population.len(),
            genotypes_of_len(r@, population[0].genes().len()),
    {
        let ghost len = population[0].genes().len();
        let mut next: Vec<I> = Vec::new();
        let mut n: usize = 0;
        while n < population.len()
            invariant
                population.len() > 0,
                len == population[0].genes().len(),
                genotypes_of_len(population@, len),
                n <= population.len(),
                next.len() == n,
                genotypes_of_len(next@, len),
            decreases population.len() - n,
        {
            let a = self.selection_method.select(rng, population);
            let b = self.selection_method.select(rng, population);
            let parent_a = population[a].genotype();
            let parent_b = population[b].genotype();
            assert(population[a as int].genes().len() == len);
            assert(population[b as int].genes().len() == len);
            let mut child = self.crossover_method.crossover(rng, parent_a, parent_b);
            self.mutation_method.mutate(rng, &mut child);
            let created = I::create(child);
            next.push(created);
            n += 1;
            assert(next@[n - 1] == created);
        }
        next
    }
}

} // verus!

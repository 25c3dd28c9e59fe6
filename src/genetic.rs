//! The genetic algorithm: each generation is bred from the last by selection,
//! crossover and mutation.
use crate::chromosome::Chromosome;
use crate::crossover::CrossoverMethod;
use crate::mutation::MutationMethod;
use crate::selection::SelectionMethod;
use rand::rngs::StdRng;
use vstd::prelude::*;

verus! {

/// Anything with a fitness and a chromosome that can be rebuilt from a chromosome.
pub trait Individual<G>: Sized {
    /// The genes of the individual's chromosome.
    spec fn genome(&self) -> Seq<G>;

    fn fitness(&self) -> u64;

    fn chromosome(&self) -> (r: &Chromosome<G>)
        ensures
            r@ == self.genome(),
    ;

    fn create(chromosome: Chromosome<G>) -> (r: Self)
        ensures
            r.genome() == chromosome@,
    ;
}

/// All individuals of `population` carry chromosomes of length `len`.
pub open spec fn genomes_of_length<G, I: Individual<G>>(population: Seq<I>, len: nat) -> bool {
    forall|i: int| 0 <= i < population.len() ==> (#[trigger] population[i]).genome().len() == len
}

pub struct GeneticAlgorithm<S, C, M> {
    selection_method: S,
    crossover_method: C,
    mutation_method: M,
}

impl<S, C, M> GeneticAlgorithm<S, C, M> {
    pub closed spec fn selection_spec(&self) -> S {
        self.selection_method
    }

    pub closed spec fn crossover_spec(&self) -> C {
        self.crossover_method
    }

    pub closed spec fn mutation_spec(&self) -> M {
        self.mutation_method
    }
}

impl<S: SelectionMethod, C, M> GeneticAlgorithm<S, C, M> {
    /// An algorithm made of the three given strategies.
    pub fn new(selection_method: S, crossover_method: C, mutation_method: M) -> (r:
        GeneticAlgorithm<S, C, M>)
        ensures
            r.selection_spec() == selection_method,
            r.crossover_spec() == crossover_method,
            r.mutation_spec() == mutation_method,
    {
        GeneticAlgorithm { selection_method, crossover_method, mutation_method }
    }

    /// Breeds a new population of the same size. Each child is made by
    /// selecting two parents (with replacement), crossing them over and
    /// mutating the result, and keeps the common chromosome length.
    pub fn evolve<G, I: Individual<G>>(&self, rng: &mut StdRng, population: &Vec<I>) -> (r: Vec<I>)
        where
            C: CrossoverMethod<G>,
            M: MutationMethod<G>,
        requires
            population@.len() > 0,
            genomes_of_length(population@, population@[0].genome().len()),
        ensures
            r@.len() == population@.len(),
            genomes_of_length(r@, population@[0].genome().len()),
    {
        let ghost len = population@[0].genome().len();
        let mut fitness: Vec<u64> = Vec::new();
        let mut i: usize = 0;
        while i < population.len()
            invariant
                i <= population@.len(),
                fitness@.len() == i,
            decreases population@.len() - i,
        {
            fitness.push(population[i].fitness());
            i = i + 1;
        }
        let mut next: Vec<I> = Vec::new();
        let mut n: usize = 0;
        while n < population.len()
            invariant
                n <= population@.len(),
                fitness@.len() == population@.len(),
                next@.len() == n,
                len == population@[0].genome().len(),
                genomes_of_length(population@, len),
                genomes_of_length(next@, len),
            decreases population@.len() - n,
        {
            let a = self.selection_method.select(rng, &fitness);
            let b = self.selection_method.select(rng, &fitness);
            let parent_a = population[a].chromosome();
            let parent_b = population[b].chromosome();
            proof {
                assert(population@[a as int].genome().len() == len);
                assert(population@[b as int].genome().len() == len);
            }
            let mut child = self.crossover_method.crossover(rng, parent_a, parent_b);
            self.mutation_method.mutate(rng, &mut child);
            let individual = I::create(child);
            next.push(individual);
            proof {
                assert(next@[n as int].genome().len() == len);
            }
            n = n + 1;
        }
        next
    }
}

} // verus!

//! An animal as the genetic algorithm sees it: its satiation as fitness and
//! its encoded brain as chromosome.
use crate::chromosome::Chromosome;
use crate::crossover::CrossoverMethod;
use crate::genetic::{GeneticAlgorithm, Individual, genomes_of_length};
use crate::mutation::MutationMethod;
use crate::selection::SelectionMethod;
use rand::rngs::StdRng;
use vstd::prelude::*;

verus! {

#[derive(Clone, Debug)]
pub struct AnimalIndividual<G> {
    fitness: u64,
    chromosome: Chromosome<G>,
}

impl<G: Copy> AnimalIndividual<G> {
    pub closed spec fn fitness_spec(&self) -> u64 {
        self.fitness
    }

    pub closed spec fn chromosome_spec(&self) -> Seq<G> {
        self.chromosome@
    }

    /// The individual of an animal with the given satiation and brain genes.
    pub fn from_animal(satiation: u32, chromosome: Chromosome<G>) -> (r: AnimalIndividual<G>)
        ensures
            r.fitness_spec() == satiation,
            r.chromosome_spec() == chromosome@,
    {
        AnimalIndividual { fitness: satiation as u64, chromosome }
    }

    /// The brain genes from which a fresh animal is built.
    pub fn into_animal(self) -> (r: Chromosome<G>)
        ensures
            r@ == self.chromosome_spec(),
    {
        self.chromosome
    }
}

impl<G: Copy> Individual<G> for AnimalIndividual<G> {
    open spec fn genome(&self) -> Seq<G> {
        self.chromosome_spec()
    }

    fn fitness(&self) -> u64 {
        self.fitness
    }

    fn chromosome(&self) -> (r: &Chromosome<G>) {
        &self.chromosome
    }

    /// A newborn has no fitness yet.
    fn create(chromosome: Chromosome<G>) -> (r: AnimalIndividual<G>) {
        AnimalIndividual { fitness: 0, chromosome }
    }
}

/// The brains of the next generation of animals: animal `i` has satiation
/// `satiation[i]` and brain genes `brains[i]`, all of one length, which every
/// child keeps.
pub fn breed<S: SelectionMethod, C, M, G: Copy>(
    ga: &GeneticAlgorithm<S, C, M>,
    rng: &mut StdRng,
    satiation: &Vec<u32>,
    brains: &Vec<Chromosome<G>>,
) -> (r: Vec<Chromosome<G>>)
    where
        C: CrossoverMethod<G>,
        M: MutationMethod<G>,
    requires
        brains@.len() > 0,
        satiation@.len() == brains@.len(),
        forall|i: int| 0 <= i < brains@.len() ==> (#[trigger] brains@[i])@.len() == brains@[0]@.len(),
    ensures
        r@.len() == brains@.len(),
        forall|i: int| 0 <= i < r@.len() ==> (#[trigger] r@[i])@.len() == brains@[0]@.len(),
{
    let ghost len = brains@[0]@.len();
    let mut population: Vec<AnimalIndividual<G>> = Vec::new();
    let mut i: usize = 0;
    while i < brains.len()
        invariant
            i <= brains@.len(),
            satiation@.len() == brains@.len(),
            len == brains@[0]@.len(),
            forall|j: int| 0 <= j < brains@.len() ==> (#[trigger] brains@[j])@.len() == len,
            population@.len() == i,
            forall|j: int| 0 <= j < i ==> (#[trigger] population@[j]).genome().len() == len,
        decreases brains@.len() - i,
    {
        population.push(AnimalIndividual::from_animal(satiation[i], brains[i].duplicate()));
        i = i + 1;
    }
    assert(genomes_of_length(population@, population@[0].genome().len()));
    let children = ga.evolve(rng, &population);
    let mut out: Vec<Chromosome<G>> = Vec::new();
    let mut rest = children;
    let ghost n = rest@.len();
    while rest.len() > 0
        invariant
            out@.len() + rest@.len() == n,
            n == brains@.len(),
            forall|j: int| 0 <= j < rest@.len() ==> (#[trigger] rest@[j]).genome().len() == len,
            forall|j: int| 0 <= j < out@.len() ==> (#[trigger] out@[j])@.len() == len,
        decreases rest@.len(),
    {
        let ghost before_rest = rest@;
        let child = rest.remove(0);
        proof {
            assert(child.genome().len() == len);
        }
        out.push(child.into_animal());
        proof {
            assert forall|j: int| 0 <= j < rest@.len() implies (#[trigger] rest@[j]).genome().len()
                == len by {
                assert(rest@[j] == before_rest[j + 1]);
            }
        }
    }
    out
}

} // verus!

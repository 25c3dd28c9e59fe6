//! Mutation: each gene is, with a fixed chance, nudged by at most a fixed magnitude.
use crate::chromosome::{Chromosome, Gene};
use crate::config::Config;
use crate::rng::chance_ratio;
use rand::rngs::StdRng;
use vstd::prelude::*;

verus! {

/// Chances are counted in millionths: this many stand for certainty.
pub const CHANCE_SCALE: u32 = 1_000_000;

/// A strategy that alters a chromosome in place, keeping its length.
pub trait MutationMethod<G> {
    fn mutate(&self, rng: &mut StdRng, child: &mut Chromosome<G>)
        ensures
            final(child)@.len() == old(child)@.len(),
    ;
}

/// Mutates each gene independently with chance `chance` (in millionths),
/// nudging it by at most `coeff`.
#[derive(Debug)]
pub struct GaussianMutation<G> {
    chance: u32,
    coeff: G,
}

impl<G> GaussianMutation<G> {
    #[verifier::type_invariant]
    spec fn chance_in_range(&self) -> bool {
        self.chance <= CHANCE_SCALE
    }
}

impl<G: Gene> GaussianMutation<G> {
    pub closed spec fn chance_spec(&self) -> u32 {
        self.chance
    }

    pub closed spec fn coeff_spec(&self) -> G {
        self.coeff
    }

    /// A mutation with chance `chance` millionths per gene and magnitude `coeff`.
    pub fn new(chance: u32, coeff: G) -> (r: GaussianMutation<G>)
        requires
            chance <= CHANCE_SCALE,
        ensures
            r.chance_spec() == chance,
            r.coeff_spec() == coeff,
    {
        GaussianMutation { chance, coeff }
    }

    /// The mutation that a configuration asks for; both its chance and its
    /// magnitude are at most one.
    pub fn from_config(config: Config) -> (r: GaussianMutation<G>)
        requires
            config.mutation_chance <= CHANCE_SCALE,
            config.mutation_coef <= CHANCE_SCALE,
        ensures
            r.chance_spec() == config.mutation_chance,
    {
        GaussianMutation {
            chance: config.mutation_chance as u32,
            coeff: G::from_millionths(config.mutation_coef as u32),
        }
    }

    pub fn chance(&self) -> (r: u32)
        ensures
            r == self.chance_spec(),
            r <= CHANCE_SCALE,
    {
        proof {
            use_type_invariant(self);
        }
        self.chance
    }

    pub fn coeff(&self) -> (r: G)
        ensures
            r == self.coeff_spec(),
    {
        self.coeff
    }

    /// Mutates `child` with chosen draws: gene `i` becomes `nudges[i]` where
    /// `picks[i]` holds and stays as it is otherwise.
    pub fn mutate_with(&self, child: &mut Chromosome<G>, picks: &Vec<bool>, nudges: &Vec<G>)
        requires
            picks@.len() == old(child)@.len(),
            nudges@.len() == old(child)@.len(),
        ensures
            final(child)@.len() == old(child)@.len(),
            forall|i: int|
                0 <= i < old(child)@.len() ==> #[trigger] final(child)@[i] == if picks@[i] {
                    nudges@[i]
                } else {
                    old(child)@[i]
                },
    {
        let ghost before = child@;
        let mut i: usize = 0;
        while i < child.len()
            invariant
                picks@.len() == before.len(),
                nudges@.len() == before.len(),
                i <= child@.len(),
                child@.len() == before.len(),
                forall|j: int|
                    0 <= j < i ==> #[trigger] child@[j] == if picks@[j] {
                        nudges@[j]
                    } else {
                        before[j]
                    },
                forall|j: int| i <= j < before.len() ==> #[trigger] child@[j] == before[j],
            decreases child@.len() - i,
        {
            if picks[i] {
                child.set(i, nudges[i]);
            }
            i = i + 1;
        }
    }

    /// Mutates `child`: each gene is picked with the mutation's chance and,
    /// if picked, nudged by at most its magnitude. With a zero chance it stays
    /// as it is.
    pub fn mutate_genes(&self, rng: &mut StdRng, child: &mut Chromosome<G>)
        ensures
            final(child)@.len() == old(child)@.len(),
            self.chance_spec() == 0 ==> final(child)@ == old(child)@,
    {
        proof {
            use_type_invariant(self);
        }
        let mut picks: Vec<bool> = Vec::new();
        let mut nudges: Vec<G> = Vec::new();
        let mut i: usize = 0;
        while i < child.len()
            invariant
                self.chance_spec() <= CHANCE_SCALE,
                i <= child@.len(),
                picks@.len() == i,
                nudges@.len() == i,
                forall|j: int| 0 <= j < i ==> self.chance_spec() == 0 ==> !#[trigger] picks@[j],
            decreases child@.len() - i,
        {
            let gene = child.get(i);
            if chance_ratio(rng, self.chance, CHANCE_SCALE) {
                picks.push(true);
                nudges.push(gene.nudged(rng, self.coeff));
            } else {
                picks.push(false);
                nudges.push(gene);
            }
            i = i + 1;
        }
        let ghost before = child@;
        self.mutate_with(child, &picks, &nudges);
        proof {
            if self.chance_spec() == 0 {
                assert(child@ =~= before);
            }
        }
    }
}

impl<G: Gene> MutationMethod<G> for GaussianMutation<G> {
    fn mutate(&self, rng: &mut StdRng, child: &mut Chromosome<G>) {
        self.mutate_genes(rng, child);
    }
}

} // verus!

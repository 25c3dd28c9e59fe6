//! Uniform crossover: each gene of the child comes from one parent or the other.
use crate::chromosome::Chromosome;
use crate::rng::fair_coin;
use rand::rngs::StdRng;
use vstd::prelude::*;

verus! {

/// A strategy that combines two parents of equal length into a child of that length.
pub trait CrossoverMethod<G> {
    fn crossover(&self, rng: &mut StdRng, parent_a: &Chromosome<G>, parent_b: &Chromosome<G>) -> (r:
        Chromosome<G>)
        requires
            parent_a@.len() == parent_b@.len(),
        ensures
            r@.len() == parent_a@.len(),
            forall|i: int|
                0 <= i < r@.len() ==> #[trigger] r@[i] == parent_a@[i] || r@[i] == parent_b@[i],
    ;
}

/// Takes each gene from parent A or parent B on a fair coin.
#[derive(Clone, Copy, Debug)]
pub struct UniformCrossover;

/// The child whose gene `i` is parent A's where `from_a[i]` holds, else parent B's.
pub fn crossover_with_picks<G: Copy>(
    parent_a: &Chromosome<G>,
    parent_b: &Chromosome<G>,
    from_a: &Vec<bool>,
) -> (r: Chromosome<G>)
    requires
        parent_a@.len() == parent_b@.len(),
        from_a@.len() == parent_a@.len(),
    ensures
        r@.len() == parent_a@.len(),
        forall|i: int|
            0 <= i < r@.len() ==> #[trigger] r@[i] == if from_a@[i] {
                parent_a@[i]
            } else {
                parent_b@[i]
            },
{
    let mut genes: Vec<G> = Vec::new();
    let mut i: usize = 0;
    while i < parent_a.len()
        invariant
            i <= parent_a@.len(),
            parent_a@.len() == parent_b@.len(),
            from_a@.len() == parent_a@.len(),
            genes@.len() == i,
            forall|j: int|
                0 <= j < i ==> #[trigger] genes@[j] == if from_a@[j] {
                    parent_a@[j]
                } else {
                    parent_b@[j]
                },
        decreases parent_a@.len() - i,
    {
        if from_a[i] {
            genes.push(parent_a.get(i));
        } else {
            genes.push(parent_b.get(i));
        }
        i = i + 1;
    }
    Chromosome::new(genes)
}

impl<G: Copy> CrossoverMethod<G> for UniformCrossover {
    fn crossover(&self, rng: &mut StdRng, parent_a: &Chromosome<G>, parent_b: &Chromosome<G>) -> (r:
        Chromosome<G>) {
        let mut from_a: Vec<bool> = Vec::new();
        let mut i: usize = 0;
        while i < parent_a.len()
            invariant
                i <= parent_a@.len(),
                from_a@.len() == i,
            decreases parent_a@.len() - i,
        {
            from_a.push(fair_coin(rng));
            i = i + 1;
        }
        crossover_with_picks(parent_a, parent_b, &from_a)
    }
}

} // verus!

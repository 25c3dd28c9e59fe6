//! A chromosome: the ordered genes of one individual.
use rand::rngs::StdRng;
use vstd::prelude::*;

verus! {

/// A real-valued gene. The arithmetic belongs to the gene type; nothing here
/// assumes more of it than that it is a value that can be copied.
pub trait Gene: Copy {
    fn zero() -> Self;

    fn plus(self, other: Self) -> Self;

    fn times(self, other: Self) -> Self;

    /// `max(0, self)`.
    fn relu(self) -> Self;

    /// The gene value `millionths / 1_000_000`.
    fn from_millionths(millionths: u32) -> Self;

    /// A value drawn uniformly from `[-1, 1]`.
    fn random_weight(rng: &mut StdRng) -> Self;

    /// This value nudged at random by at most `magnitude`, in either direction.
    fn nudged(self, rng: &mut StdRng, magnitude: Self) -> Self;
}

#[derive(Clone, Debug)]
pub struct Chromosome<G> {
    genes: Vec<G>,
}

impl<G> View for Chromosome<G> {
    type V = Seq<G>;

    closed spec fn view(&self) -> Seq<G> {
        self.genes@
    }
}

impl<G: Copy> Chromosome<G> {
    pub fn new(genes: Vec<G>) -> (r: Chromosome<G>)
        ensures
            r@ == genes@,
    {
        Chromosome { genes }
    }

    pub fn len(&self) -> (r: usize)
        ensures
            r == self@.len(),
    {
        self.genes.len()
    }

    pub fn is_empty(&self) -> (r: bool)
        ensures
            r == (self@.len() == 0),
    {
        self.genes.len() == 0
    }

    pub fn get(&self, index: usize) -> (r: G)
        requires
            index < self@.len(),
        ensures
            r == self@[index as int],
    {
        self.genes[index]
    }

    /// Replaces the gene at `index`.
    pub fn set(&mut self, index: usize, gene: G)
        requires
            index < old(self)@.len(),
        ensures
            final(self)@ == old(self)@.update(index as int, gene),
    {
        self.genes.set(index, gene);
    }

    /// A copy of this chromosome.
    pub fn duplicate(&self) -> (r: Chromosome<G>)
        ensures
            r@ == self@,
    {
        let mut genes: Vec<G> = Vec::new();
        let mut i: usize = 0;
        while i < self.genes.len()
            invariant
                i <= self.genes@.len(),
                genes@ == self.genes@.subrange(0, i as int),
            decreases self.genes@.len() - i,
        {
            genes.push(self.genes[i]);
            i = i + 1;
            assert(genes@ =~= self.genes@.subrange(0, i as int));
        }
        assert(genes@ =~= self.genes@);
        Chromosome { genes }
    }

    pub fn genes(&self) -> (r: &Vec<G>)
        ensures
            r@ == self@,
    {
        &self.genes
    }

    pub fn into_genes(self) -> (r: Vec<G>)
        ensures
            r@ == self@,
    {
        self.genes
    }
}

} // verus!

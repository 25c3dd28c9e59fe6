//! Fitness-proportionate ("roulette wheel") selection.
use crate::rng::uniform_below;
use rand::rngs::StdRng;
use vstd::prelude::*;

verus! {

/// The total fitness of the first `i` individuals.
pub open spec fn fitness_before(fitness: Seq<u64>, i: int) -> int
    decreases i,
{
    if i <= 0 {
        0
    } else {
        fitness_before(fitness, i - 1) + fitness[i - 1]
    }
}

/// The total fitness of a population.
pub open spec fn total_fitness(fitness: Seq<u64>) -> int {
    fitness_before(fitness, fitness.len() as int)
}

pub proof fn lemma_fitness_before_bounds(fitness: Seq<u64>, i: int)
    requires
        0 <= i <= fitness.len(),
    ensures
        0 <= fitness_before(fitness, i) <= i * 0xffff_ffff_ffff_ffff,
    decreases i,
{
    if i > 0 {
        lemma_fitness_before_bounds(fitness, i - 1);
        assert((i - 1) * 0xffff_ffff_ffff_ffff + 0xffff_ffff_ffff_ffff == i * 0xffff_ffff_ffff_ffff)
            by (nonlinear_arith);
    }
}

pub proof fn lemma_fitness_before_monotone(fitness: Seq<u64>, i: int, j: int)
    requires
        0 <= i <= j <= fitness.len(),
    ensures
        fitness_before(fitness, i) <= fitness_before(fitness, j),
    decreases j - i,
{
    if i < j {
        lemma_fitness_before_monotone(fitness, i, j - 1);
    }
}

/// The total fitness, exactly.
pub fn sum_fitness(fitness: &Vec<u64>) -> (r: u128)
    ensures
        r == total_fitness(fitness@),
{
    let mut acc: u128 = 0;
    let mut i: usize = 0;
    while i < fitness.len()
        invariant
            i <= fitness@.len(),
            acc == fitness_before(fitness@, i as int),
        decreases fitness@.len() - i,
    {
        proof {
            lemma_fitness_before_bounds(fitness@, i + 1);
            assert((i + 1) * 0xffff_ffff_ffff_ffff <= 0xffff_ffff_ffff_ffff_ffff_ffff_ffff_ffff)
                by (nonlinear_arith)
                requires i + 1 <= 0xffff_ffff_ffff_ffff;
        }
        acc = acc + fitness[i] as u128;
        i = i + 1;
    }
    acc
}

/// The individual on whose slice of the wheel `point` falls: the wheel lays
/// the individuals' fitness end to end, in order.
pub fn wheel_slot(fitness: &Vec<u64>, point: u128) -> (r: usize)
    requires
        point < total_fitness(fitness@),
    ensures
        r < fitness@.len(),
        fitness_before(fitness@, r as int) <= point < fitness_before(fitness@, r + 1),
{
    let mut acc: u128 = 0;
    let mut i: usize = 0;
    while i < fitness.len()
        invariant
            i <= fitness@.len(),
            acc == fitness_before(fitness@, i as int),
            acc <= point,
            point < total_fitness(fitness@),
        decreases fitness@.len() - i,
    {
        proof {
            lemma_fitness_before_bounds(fitness@, i + 1);
            assert((i + 1) * 0xffff_ffff_ffff_ffff <= 0xffff_ffff_ffff_ffff_ffff_ffff_ffff_ffff)
                by (nonlinear_arith)
                requires i + 1 <= 0xffff_ffff_ffff_ffff;
        }
        let next = acc + fitness[i] as u128;
        if point < next {
            return i;
        }
        acc = next;
        i = i + 1;
    }
    i
}

/// A strategy that draws one individual of a non-empty population, given the
/// fitness of each.
pub trait SelectionMethod {
    fn select(&self, rng: &mut StdRng, fitness: &Vec<u64>) -> (r: usize)
        requires
            fitness@.len() > 0,
        ensures
            r < fitness@.len(),
    ;
}

/// Draws each individual with probability proportional to its fitness. When
/// every fitness is zero it draws uniformly.
#[derive(Clone, Copy, Debug)]
pub struct RouletteWheelSelection;

impl RouletteWheelSelection {
    /// Draws the index of one individual. An individual of zero fitness is
    /// never drawn unless all are.
    pub fn select_index(&self, rng: &mut StdRng, fitness: &Vec<u64>) -> (r: usize)
        requires
            fitness@.len() > 0,
        ensures
            r < fitness@.len(),
            total_fitness(fitness@) > 0 ==> fitness@[r as int] > 0,
    {
        let total = sum_fitness(fitness);
        if total == 0 {
            uniform_below(rng, fitness.len() as u128) as usize
        } else {
            let point = uniform_below(rng, total);
            let r = wheel_slot(fitness, point);
            r
        }
    }
}

impl SelectionMethod for RouletteWheelSelection {
    fn select(&self, rng: &mut StdRng, fitness: &Vec<u64>) -> (r: usize) {
        self.select_index(rng, fitness)
    }
}

} // verus!

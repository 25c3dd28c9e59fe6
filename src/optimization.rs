//! Population-based training over hyperparameters: rank the agents by their
//! last generation's weighted score, copy the best configurations over the
//! worst (exploit), then perturb every configuration (explore).
use crate::config::{Config, ConfigRange, is_perturbation};
use crate::rng::uniform_below;
use crate::statistics::Statistics;
use rand::rngs::StdRng;
use vstd::prelude::*;

verus! {

/// What the optimizer knows of one agent: its hyperparameters and the
/// statistics of its last generation.
#[derive(Clone, Copy, Debug)]
pub struct AgentState {
    pub config: Config,
    pub last_stats: Statistics,
}

impl AgentState {
    pub fn new(config: Config) -> (r: AgentState)
        ensures
            r.config == config,
            r.last_stats == Statistics::default_spec(),
    {
        AgentState { config, last_stats: Statistics::default() }
    }

    /// The weighted score of the last generation, in millionths.
    pub fn get_weighted_score(&self) -> (r: u128)
        ensures
            r == self.last_stats.score_millionths(),
    {
        self.last_stats.weighted_score_millionths()
    }
}

/// The number of agents that exploit copies from and onto: a fifth of the
/// population, rounded down.
pub open spec fn threshold(n: nat) -> nat {
    n / 5
}

/// Each agent of the lowest fifth of `after` holds the configuration that
/// some agent of the highest fifth held in `before`.
pub open spec fn bottom_copies_top(after: Seq<AgentState>, before: Seq<AgentState>) -> bool {
    forall|i: int|
        0 <= i < threshold(before.len()) ==> #[trigger] top_holds(before, after[i].config)
}

/// Some agent of the highest fifth of `population` has configuration `config`.
pub open spec fn top_holds(population: Seq<AgentState>, config: Config) -> bool {
    exists|j: int|
        population.len() - threshold(population.len()) <= j < population.len() && (
        #[trigger] population[j]).config == config
}

/// Ascending by weighted score.
pub open spec fn sorted_by_score(p: Seq<AgentState>) -> bool {
    forall|i: int, j: int|
        0 <= i < j < p.len() ==> (#[trigger] p[i]).last_stats.score_millionths()
            <= (#[trigger] p[j]).last_stats.score_millionths()
}

/// Sorts the agents in ascending order of weighted score.
pub fn sort_by_score(population: &mut Vec<AgentState>)
    ensures
        final(population)@.to_multiset() == old(population)@.to_multiset(),
        sorted_by_score(final(population)@),
{
    let ghost unsorted = population@;
    let mut sorted: Vec<AgentState> = Vec::new();
    let mut i: usize = 0;
    assert(unsorted.take(0) =~= sorted@);
    while i < population.len()
        invariant
            population@ == unsorted,
            i <= unsorted.len(),
            sorted@.to_multiset() == unsorted.take(i as int).to_multiset(),
            sorted_by_score(sorted@),
        decreases unsorted.len() - i,
    {
        let item = population[i];
        let key = item.get_weighted_score();
        let mut p: usize = 0;
        while p < sorted.len() && sorted[p].get_weighted_score() <= key
            invariant
                p <= sorted@.len(),
                forall|j: int| 0 <= j < p ==> (#[trigger] sorted@[j]).last_stats.score_millionths() <= key,
            decreases sorted@.len() - p,
        {
            p = p + 1;
        }
        proof {
            assert(unsorted.take(i + 1) =~= unsorted.take(i as int).push(item));
        }
        let ghost before = sorted@;
        sorted.insert(p, item);
        proof {
            assert(sorted@ == before.insert(p as int, item));
            vstd::seq_lib::to_multiset_insert(before, p as int, item);
            vstd::seq_lib::to_multiset_build(unsorted.take(i as int), item);
            assert forall|a: int, b: int|
                0 <= a < b < sorted@.len() implies (#[trigger] sorted@[a]).last_stats.score_millionths()
                <= (#[trigger] sorted@[b]).last_stats.score_millionths() by {
                if p < before.len() {
                    assert(before[p as int].last_stats.score_millionths() > key);
                }
                if a < p && b > p {
                    assert(before[a].last_stats.score_millionths() <= key);
                }
                if a == p && b > p {
                    assert(before[b - 1].last_stats.score_millionths() >= before[p as int].last_stats.score_millionths());
                }
            }
        }
        i = i + 1;
    }
    proof {
        assert(unsorted.take(unsorted.len() as int) =~= unsorted);
    }
    *population = sorted;
}

/// Exploit with chosen donors: agent `i` of the first `picks.len()` takes the
/// configuration of agent `picks[i]`. Nothing else changes.
pub fn copy_configs(population: &mut Vec<AgentState>, picks: &Vec<usize>)
    requires
        picks@.len() <= old(population)@.len(),
        forall|i: int|
            0 <= i < picks@.len() ==> picks@.len() <= #[trigger] picks@[i] < old(population)@.len(),
    ensures
        final(population)@.len() == old(population)@.len(),
        forall|i: int|
            0 <= i < picks@.len() ==> (#[trigger] final(population)@[i]).config == old(population)@[picks@[i] as int].config,
        forall|i: int|
            0 <= i < old(population)@.len() ==> (#[trigger] final(population)@[i]).last_stats == old(population)@[i].last_stats,
        forall|i: int|
            picks@.len() <= i < old(population)@.len() ==> #[trigger] final(population)@[i] == old(population)@[i],
{
    let ghost before = population@;
    let mut i: usize = 0;
    while i < picks.len()
        invariant
            picks@.len() <= before.len(),
            forall|j: int| 0 <= j < picks@.len() ==> picks@.len() <= #[trigger] picks@[j] < before.len(),
            i <= picks@.len(),
            population@.len() == before.len(),
            forall|j: int|
                0 <= j < i ==> (#[trigger] population@[j]).config == before[picks@[j] as int].config,
            forall|j: int|
                0 <= j < before.len() ==> (#[trigger] population@[j]).last_stats == before[j].last_stats,
            forall|j: int| i <= j < before.len() ==> #[trigger] population@[j] == before[j],
        decreases picks@.len() - i,
    {
        let donor = picks[i];
        let config = population[donor].config;
        let mut agent = population[i];
        agent.config = config;
        population.set(i, agent);
        i = i + 1;
    }
}

/// Exploit (truncation selection): each agent of the lowest-scoring fifth
/// takes the configuration of an agent drawn uniformly from the
/// highest-scoring fifth. Only configurations change.
pub fn truncation_selection(rng: &mut StdRng, population: &mut Vec<AgentState>)
    requires
        threshold(old(population)@.len()) >= 1,
    ensures
        final(population)@.len() == old(population)@.len(),
        bottom_copies_top(final(population)@, old(population)@),
        forall|i: int|
            0 <= i < old(population)@.len() ==> (#[trigger] final(population)@[i]).last_stats == old(population)@[i].last_stats,
        forall|i: int|
            threshold(old(population)@.len()) <= i < old(population)@.len() ==> #[trigger] final(population)@[i] == old(population)@[i],
{
    let n = population.len();
    let t = n / 5;
    let mut picks: Vec<usize> = Vec::new();
    let mut i: usize = 0;
    while i < t
        invariant
            t == n / 5,
            t >= 1,
            n == population@.len(),
            population@ == old(population)@,
            i <= t,
            picks@.len() == i,
            forall|j: int| 0 <= j < i ==> n - t <= #[trigger] picks@[j] < n,
        decreases t - i,
    {
        let offset = uniform_below(rng, t as u128);
        picks.push(n - t + offset as usize);
        i = i + 1;
    }
    let ghost before = population@;
    copy_configs(population, &picks);
    proof {
        assert(before == old(population)@);
        assert(threshold(before.len()) == t);
        assert forall|i: int| 0 <= i < threshold(before.len()) implies #[trigger] top_holds(
            before,
            population@[i].config,
        ) by {
            let j = picks@[i] as int;
            assert(population@[i].config == before[j].config);
        }
        assert(bottom_copies_top(population@, before));
    }
}

/// Explore: every configuration is perturbed and clamped into `range`.
pub fn perturb(rng: &mut StdRng, population: &mut Vec<AgentState>, range: &ConfigRange)
    requires
        range.well_formed(),
    ensures
        final(population)@.len() == old(population)@.len(),
        forall|i: int|
            0 <= i < final(population)@.len() ==> (#[trigger] final(population)@[i]).config.within(*range),
        forall|i: int|
            0 <= i < old(population)@.len() ==> is_perturbation(
                old(population)@[i].config,
                (#[trigger] final(population)@[i]).config,
                *range,
            ),
        forall|i: int|
            0 <= i < old(population)@.len() ==> (#[trigger] final(population)@[i]).last_stats == old(population)@[i].last_stats,
{
    let ghost before = population@;
    let mut i: usize = 0;
    while i < population.len()
        invariant
            range.well_formed(),
            i <= population@.len(),
            population@.len() == before.len(),
            forall|j: int| 0 <= j < i ==> (#[trigger] population@[j]).config.within(*range),
            forall|j: int|
                0 <= j < i ==> is_perturbation(before[j].config, (#[trigger] population@[j]).config, *range),
            forall|j: int| i <= j < before.len() ==> #[trigger] population@[j] == before[j],
            forall|j: int|
                0 <= j < before.len() ==> (#[trigger] population@[j]).last_stats == before[j].last_stats,
        decreases population@.len() - i,
    {
        let mut agent = population[i];
        agent.config = agent.config.perturbed(rng, range);
        population.set(i, agent);
        i = i + 1;
    }
}

/// The steps of one round of training: `before` ranked by score is
/// `ranked`; exploit turns it into `exploited`, whose lowest fifth holds
/// configurations of the highest fifth of `ranked` and whose other agents are
/// unchanged; explore perturbs every configuration of `exploited` into
/// `after`. Statistics follow the ranking throughout.
pub open spec fn pbt_outcome(
    before: Seq<AgentState>,
    ranked: Seq<AgentState>,
    exploited: Seq<AgentState>,
    after: Seq<AgentState>,
    range: ConfigRange,
) -> bool {
    &&& ranked.to_multiset() == before.to_multiset()
    &&& sorted_by_score(ranked)
    &&& exploited.len() == ranked.len()
    &&& bottom_copies_top(exploited, ranked)
    &&& forall|i: int|
        threshold(ranked.len()) <= i < ranked.len() ==> #[trigger] exploited[i] == ranked[i]
    &&& after.len() == ranked.len()
    &&& forall|i: int|
        0 <= i < ranked.len() ==> (#[trigger] after[i]).last_stats == ranked[i].last_stats
            && exploited[i].last_stats == ranked[i].last_stats
    &&& forall|i: int|
        0 <= i < ranked.len() ==> is_perturbation(
            exploited[i].config,
            (#[trigger] after[i]).config,
            range,
        )
}

/// One round of population-based training on the agents' last statistics:
/// sort by weighted score, exploit, explore. Afterwards the agents stand in
/// ascending order of score and every configuration lies within `range`, so
/// each agent's simulation is to be rebuilt from it.
pub fn pbt(rng: &mut StdRng, population: &mut Vec<AgentState>, range: &ConfigRange)
    requires
        threshold(old(population)@.len()) >= 1,
        range.well_formed(),
    ensures
        final(population)@.len() == old(population)@.len(),
        sorted_by_score(final(population)@),
        exists|ranked: Seq<AgentState>, exploited: Seq<AgentState>|
            #[trigger] pbt_outcome(old(population)@, ranked, exploited, final(population)@, *range),
        forall|i: int|
            0 <= i < final(population)@.len() ==> (#[trigger] final(population)@[i]).config.within(*range),
{
    let ghost before = population@;
    proof {
        population@.to_multiset_ensures();
    }
    sort_by_score(population);
    let ghost ranked = population@;
    proof {
        population@.to_multiset_ensures();
    }
    truncation_selection(rng, population);
    let ghost exploited = population@;
    perturb(rng, population, range);
    proof {
        assert(pbt_outcome(before, ranked, exploited, population@, *range));
        assert forall|i: int, j: int|
            0 <= i < j < population@.len() implies (#[trigger] population@[i]).last_stats.score_millionths()
            <= (#[trigger] population@[j]).last_stats.score_millionths() by {
            assert(population@[i].last_stats == ranked[i].last_stats);
            assert(population@[j].last_stats == ranked[j].last_stats);
        }
    }
}

} // verus!

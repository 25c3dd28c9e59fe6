use evo_sim::animal_individual::AnimalIndividual;
use evo_sim::chromosome::{Chromosome, Gene};
use evo_sim::config::{perturb_value, Config, ConfigRange};
use evo_sim::crossover::{crossover_with_picks, CrossoverMethod, UniformCrossover};
use evo_sim::generation::{GenerationClock, GEN_LEN};
use evo_sim::genetic::GeneticAlgorithm;
use evo_sim::matrix_network::MatrixNetwork;
use evo_sim::mutation::{GaussianMutation, MutationMethod};
use evo_sim::network::Network;
use evo_sim::optimization::{pbt, perturb, sort_by_score, truncation_selection, AgentState};
use evo_sim::selection::{sum_fitness, wheel_slot, RouletteWheelSelection, SelectionMethod};
use evo_sim::statistics::Statistics;
use evo_sim::topology::{configured_topology, eye_topology, gene_count_of, LayerTopology};
use rand::rngs::StdRng;
use rand::{Rng, SeedableRng};

#[derive(Clone, Copy, Debug, PartialEq)]
struct W(f32);

impl Gene for W {
    fn zero() -> Self {
        W(0.0)
    }
    fn plus(self, other: Self) -> Self {
        W(self.0 + other.0)
    }
    fn times(self, other: Self) -> Self {
        W(self.0 * other.0)
    }
    fn relu(self) -> Self {
        W(self.0.max(0.0))
    }
    fn from_millionths(millionths: u32) -> Self {
        W(millionths as f32 / 1_000_000.0)
    }
    fn random_weight(rng: &mut StdRng) -> Self {
        W(rng.gen_range(-1.0..=1.0))
    }
    fn nudged(self, rng: &mut StdRng, magnitude: Self) -> Self {
        let sign = if rng.gen_bool(0.5) { -1.0 } else { 1.0 };
        W(self.0 + sign * magnitude.0 * rng.gen::<f32>())
    }
}

fn topo(sizes: &[usize]) -> Vec<LayerTopology> {
    sizes.iter().map(|&n| LayerTopology { neurons: n }).collect()
}

fn genes(values: &[f32]) -> Vec<W> {
    values.iter().map(|&v| W(v)).collect()
}

#[test]
fn testing_random() {
    let mut rng = StdRng::seed_from_u64(1);
    let config = Config::random(
        &mut rng,
        (5, 13),
        (1, 4),
        (6, 20),
        (100_000, 900_000),
        (0, 1_000_000),
        (0, 1_000_000),
    );
    println!("{:?}", config);
    assert!(config.num_eye_cells <= 13 && config.num_eye_cells >= 5);
    assert!(config.num_hidden_layers <= 4 && config.num_hidden_layers >= 1);
    assert!(config.hidden_layer_size <= 20 && config.hidden_layer_size >= 6);
    assert!(config.fov_range <= 900_000 && config.fov_range >= 100_000);
    assert!(config.mutation_chance <= 1_000_000);
    assert!(config.mutation_coef <= 1_000_000);
}

#[test]
fn testing_weights() {
    let topology = topo(&[5, 10, 2]);
    let mut rng = StdRng::seed_from_u64(2);
    let network: MatrixNetwork<W> = MatrixNetwork::random(&mut rng, &topology);
    let weights = network.weights();
    assert_eq!(weights.len(), 5 * 10 + 10 * 2 + 10 + 2);
}

#[test]
fn per_neuron_weight_count() {
    let topology = topo(&[5, 10, 2]);
    let mut rng = StdRng::seed_from_u64(3);
    let network: Network<W> = Network::random(&mut rng, &topology);
    assert_eq!(network.weights().len(), 6 * 10 + 11 * 2);
    assert_eq!(gene_count_of(&topology), Some(82));
}

#[test]
fn gene_count_overflow_is_none() {
    assert_eq!(gene_count_of(&topo(&[usize::MAX, 2])), None);
    assert_eq!(gene_count_of(&topo(&[usize::MAX, 0])), Some(0));
    assert_eq!(gene_count_of(&topo(&[3])), Some(0));
}

#[test]
fn matrix_round_trip() {
    let topology = topo(&[3, 4, 2]);
    let mut rng = StdRng::seed_from_u64(4);
    let network: MatrixNetwork<W> = MatrixNetwork::random(&mut rng, &topology);
    let w = network.weights();
    let decoded = MatrixNetwork::from_weights(&topology, w.clone());
    assert_eq!(decoded.weights(), w);
    let input = genes(&[0.3, -0.7, 0.9]);
    assert_eq!(network.forward(input.clone()), decoded.forward(input));
}

#[test]
fn neuron_round_trip() {
    let topology = topo(&[3, 5, 4, 2]);
    let mut rng = StdRng::seed_from_u64(5);
    let network: Network<W> = Network::random(&mut rng, &topology);
    let w = network.weights();
    let decoded = Network::from_weights(&topology, w.clone());
    assert_eq!(decoded.weights(), w);
    let input = genes(&[0.5, 0.25, -1.0]);
    assert_eq!(network.forward(input.clone()), decoded.forward(input));
}

#[test]
fn gene_orderings() {
    let topology = topo(&[2, 2]);
    let w = genes(&[1.0, 2.0, 3.0, 4.0, 5.0, 6.0]);
    let neuron: Network<W> = Network::from_weights(&topology, w.clone());
    let first = &neuron.layers()[0].neurons()[0];
    assert_eq!(first.bias(), W(1.0));
    assert_eq!(first.weights(), &genes(&[2.0, 3.0]));
    let matrix: MatrixNetwork<W> = MatrixNetwork::from_weights(&topology, w);
    assert_eq!(matrix.layers()[0].weights(), &genes(&[1.0, 2.0, 3.0, 4.0]));
    assert_eq!(matrix.layers()[0].bias(), &genes(&[5.0, 6.0]));
}

#[test]
fn forward_relu_examples() {
    let topology = topo(&[2, 1]);
    let positive: Network<W> = Network::from_weights(&topology, genes(&[0.0, 1.0, 1.0]));
    assert_eq!(positive.forward(genes(&[1.0, 1.0])), genes(&[2.0]));
    let negative: Network<W> = Network::from_weights(&topology, genes(&[0.0, -1.0, -1.0]));
    assert_eq!(negative.forward(genes(&[1.0, 1.0])), genes(&[0.0]));
    let matrix: MatrixNetwork<W> = MatrixNetwork::from_weights(&topology, genes(&[1.0, 1.0, 0.0]));
    assert_eq!(matrix.forward(genes(&[1.0, 1.0])), genes(&[2.0]));
    let matrix_neg: MatrixNetwork<W> =
        MatrixNetwork::from_weights(&topology, genes(&[-1.0, -1.0, 0.0]));
    assert_eq!(matrix_neg.forward(genes(&[1.0, 1.0])), genes(&[0.0]));
}

#[test]
fn topologies() {
    assert_eq!(eye_topology(9), topo(&[9, 18, 2]));
    assert_eq!(configured_topology(5, 3, 7), topo(&[5, 7, 7, 7, 2]));
    assert_eq!(configured_topology(4, 0, 7), topo(&[4, 2]));
}

#[test]
fn crossover_picks_exact() {
    let a = Chromosome::new(genes(&[1.0, 2.0, 3.0]));
    let b = Chromosome::new(genes(&[-1.0, -2.0, -3.0]));
    let child = crossover_with_picks(&a, &b, &vec![true, false, true]);
    assert_eq!(child.into_genes(), genes(&[1.0, -2.0, 3.0]));
}

#[test]
fn crossover_distribution() {
    let mut rng = StdRng::seed_from_u64(6);
    let n = 2000;
    let a = Chromosome::new(vec![W(1.0); n]);
    let b = Chromosome::new(vec![W(2.0); n]);
    let child = UniformCrossover.crossover(&mut rng, &a, &b);
    assert_eq!(child.len(), n);
    let from_a = child.genes().iter().filter(|g| g.0 == 1.0).count();
    assert!(child.genes().iter().all(|g| g.0 == 1.0 || g.0 == 2.0));
    let share = from_a as f64 / n as f64;
    assert!(share > 0.45 && share < 0.55, "share {}", share);
}

#[test]
fn mutation_zero_chance_keeps_genes() {
    let mut rng = StdRng::seed_from_u64(7);
    let initial = genes(&[0.1, 0.2, 0.3, 0.4]);
    let mut child = Chromosome::new(initial.clone());
    GaussianMutation::new(0, W(0.5)).mutate(&mut rng, &mut child);
    assert_eq!(child.into_genes(), initial);
}

#[test]
fn mutation_full_chance_is_bounded() {
    let mut rng = StdRng::seed_from_u64(8);
    let initial = vec![W(0.0); 200];
    let mut child = Chromosome::new(initial.clone());
    let mutation = GaussianMutation::new(1_000_000, W(0.5));
    assert_eq!(mutation.chance(), 1_000_000);
    mutation.mutate(&mut rng, &mut child);
    assert_eq!(child.len(), 200);
    assert!(child.genes().iter().all(|g| g.0.abs() <= 0.5));
    assert!(child.genes().iter().any(|g| g.0 != 0.0));
}

#[test]
fn mutation_from_config() {
    let config = Config::new(3, 1, 4, 500_000, 250_000, 30_000);
    let mutation: GaussianMutation<W> = GaussianMutation::from_config(config);
    assert_eq!(mutation.chance(), 250_000);
    assert_eq!(mutation.coeff(), W(0.03));
}

#[test]
fn wheel_slots() {
    let fitness = vec![2u64, 0, 3];
    assert_eq!(sum_fitness(&fitness), 5);
    assert_eq!(wheel_slot(&fitness, 0), 0);
    assert_eq!(wheel_slot(&fitness, 1), 0);
    assert_eq!(wheel_slot(&fitness, 2), 2);
    assert_eq!(wheel_slot(&fitness, 4), 2);
}

#[test]
fn selection_stays_in_population() {
    let mut rng = StdRng::seed_from_u64(9);
    let fitness = vec![0u64, 5, 0, 1];
    for _ in 0..200 {
        let i = RouletteWheelSelection.select(&mut rng, &fitness);
        assert!(i == 1 || i == 3);
    }
    let zeros = vec![0u64; 4];
    for _ in 0..50 {
        assert!(RouletteWheelSelection.select_index(&mut rng, &zeros) < 4);
    }
}

#[test]
fn evolve_keeps_size_and_length() {
    let mut rng = StdRng::seed_from_u64(10);
    let population: Vec<AnimalIndividual<W>> = (0..6)
        .map(|i| AnimalIndividual::from_animal(i, Chromosome::new(vec![W(i as f32); 5])))
        .collect();
    let ga = GeneticAlgorithm::new(
        RouletteWheelSelection,
        UniformCrossover,
        GaussianMutation::new(10_000, W(0.03)),
    );
    let next = ga.evolve(&mut rng, &population);
    assert_eq!(next.len(), 6);
    for individual in next {
        assert_eq!(individual.into_animal().len(), 5);
    }
}

#[test]
fn statistics_of_population() {
    let stats = Statistics::find_stats(&vec![0, 3, 5, 2]);
    assert_eq!(stats.get_min(), 0);
    assert_eq!(stats.get_max(), 5);
    assert_eq!(stats.get_total(), 10);
    assert_eq!(stats.get_count(), 4);
    assert_eq!(stats.get_total() as f32 / stats.get_count() as f32, 2.5);
    assert_eq!(stats.weighted_score_millionths(), 2_500_000);
    assert_eq!(Statistics::default().weighted_score_millionths(), 0);
}

#[test]
fn generation_cadence() {
    let mut clock = GenerationClock::new();
    for _ in 0..GEN_LEN - 1 {
        assert!(!clock.tick());
    }
    assert_eq!(clock.age(), GEN_LEN - 1);
    assert!(clock.tick());
    assert_eq!(clock.age(), 0);
}

#[test]
fn perturbed_values() {
    assert_eq!(perturb_value(10, true, (1, 20)), 12);
    assert_eq!(perturb_value(10, false, (1, 20)), 8);
    assert_eq!(perturb_value(19, true, (1, 20)), 20);
    assert_eq!(perturb_value(1, false, (1, 20)), 1);
}

fn range() -> ConfigRange {
    ConfigRange::new((1, 20), (1, 10), (5, 25), (50_000, 950_000), (0, 1_000_000), (0, 1_000_000))
}

fn agent(cells: usize, satiation: &[u32]) -> AgentState {
    let mut a = AgentState::new(Config::new(cells, 2, 10, 500_000, 10_000, 30_000));
    a.last_stats = Statistics::find_stats(&satiation.to_vec());
    a
}

#[test]
fn explore_keeps_configs_in_range() {
    let mut rng = StdRng::seed_from_u64(11);
    let r = range();
    let mut population: Vec<AgentState> = (1..=10).map(|i| agent(2 * i, &[1])).collect();
    for _ in 0..50 {
        perturb(&mut rng, &mut population, &r);
        for a in &population {
            let c = a.config;
            assert!((1..=20).contains(&c.num_eye_cells));
            assert!((1..=10).contains(&c.num_hidden_layers));
            assert!((5..=25).contains(&c.hidden_layer_size));
            assert!((50_000..=950_000).contains(&c.fov_range));
            assert!(c.mutation_chance <= 1_000_000 && c.mutation_coef <= 1_000_000);
        }
    }
}

#[test]
fn sort_then_exploit() {
    let mut rng = StdRng::seed_from_u64(12);
    let mut population: Vec<AgentState> =
        (1..=10).map(|i| agent(i, &[(10 - i) as u32, 1])).collect();
    sort_by_score(&mut population);
    let scores: Vec<u128> = population.iter().map(|a| a.get_weighted_score()).collect();
    assert!(scores.windows(2).all(|w| w[0] <= w[1]));
    assert_eq!(population[0].config.num_eye_cells, 10);
    let top: Vec<Config> = population[8..].iter().map(|a| a.config).collect();
    let middle: Vec<Config> = population[2..].iter().map(|a| a.config).collect();
    truncation_selection(&mut rng, &mut population);
    assert_eq!(population.len(), 10);
    for a in &population[..2] {
        assert!(top.contains(&a.config));
    }
    let after: Vec<Config> = population[2..].iter().map(|a| a.config).collect();
    assert_eq!(after, middle);
}

#[test]
fn matrix_vector_products() {
    let matrix = genes(&[1.0, 2.0, 3.0, 4.0, 5.0, 6.0]);
    let product = evo_sim::util::matrix_vector_mult(&matrix, &genes(&[1.0, 1.0, 1.0]), 2, 3);
    assert_eq!(product, genes(&[6.0, 15.0]));
    let sum = evo_sim::util::vector_vector_add(&product, &genes(&[-1.0, 0.5]));
    assert_eq!(sum, genes(&[5.0, 15.5]));
}

#[test]
fn both_evaluators_agree() {
    let topology = topo(&[2, 2]);
    let neuron: Network<W> =
        Network::from_weights(&topology, genes(&[0.5, 1.0, -2.0, -0.25, 3.0, 0.75]));
    let matrix: MatrixNetwork<W> =
        MatrixNetwork::from_weights(&topology, genes(&[1.0, -2.0, 3.0, 0.75, 0.5, -0.25]));
    let input = genes(&[0.5, -1.5]);
    assert_eq!(neuron.forward(input.clone()), matrix.forward(input.clone()));
    assert_eq!(matrix.forward(input), genes(&[4.0, 0.125]));
}

#[test]
fn perturbed_config_fields() {
    let r = range();
    let config = Config::new(10, 5, 10, 500_000, 900_000, 100_000);
    let next = config.perturbed_with(&r, &vec![true, false, true, true, true, false]);
    assert_eq!(next, Config::new(12, 4, 12, 600_000, 1_000_000, 80_000));
}

#[test]
fn breeding_keeps_brain_shape() {
    let mut rng = StdRng::seed_from_u64(13);
    let ga = GeneticAlgorithm::new(
        RouletteWheelSelection,
        UniformCrossover,
        GaussianMutation::new(0, W(0.03)),
    );
    let brains: Vec<Chromosome<W>> =
        (0..4).map(|i| Chromosome::new(vec![W(i as f32); 7])).collect();
    let children = evo_sim::animal_individual::breed(&ga, &mut rng, &vec![0, 0, 9, 0], &brains);
    assert_eq!(children.len(), 4);
    for child in children {
        assert_eq!(child.genes(), &vec![W(2.0); 7]);
    }
}

#[test]
fn mutation_with_chosen_draws() {
    let mut child = Chromosome::new(genes(&[1.0, 2.0, 3.0]));
    let mutation = GaussianMutation::new(500_000, W(0.1));
    mutation.mutate_with(&mut child, &vec![false, true, true], &genes(&[9.0, 2.05, 2.9]));
    assert_eq!(child.into_genes(), genes(&[1.0, 2.05, 2.9]));
}

#[test]
fn pbt_ranks_and_keeps_range() {
    let mut rng = StdRng::seed_from_u64(14);
    let r = range();
    let mut population: Vec<AgentState> =
        (1..=10).map(|i| agent(i, &[(10 - i) as u32, 1])).collect();
    let mut stats_before: Vec<u128> = population.iter().map(|a| a.get_weighted_score()).collect();
    pbt(&mut rng, &mut population, &r);
    let scores: Vec<u128> = population.iter().map(|a| a.get_weighted_score()).collect();
    assert!(scores.windows(2).all(|w| w[0] <= w[1]));
    stats_before.sort();
    assert_eq!(scores, stats_before);
    for a in &population {
        assert!((1..=20).contains(&a.config.num_eye_cells));
        assert!((5..=25).contains(&a.config.hidden_layer_size));
    }
}

use evolution::crossover::UniformCrossover;
use evolution::ga::{GeneticAlgorithm, Individual, MutationMethod, SelectionMethod};
use rand::seq::IndexedRandom;
use rand::{Rng, RngCore, SeedableRng};
use rand_chacha::ChaCha8Rng;

#[derive(Debug, Clone, PartialEq)]
enum TestIndividual {
    WithGenotype { genotype: Vec<f32> },
    WithFitness { fitness: f32 },
}

impl TestIndividual {
    fn fitness(&self) -> f32 {
        match self {
            Self::WithFitness { fitness } => *fitness,
            Self::WithGenotype { genotype } => genotype.iter().sum(),
        }
    }
}

impl Individual<f32> for TestIndividual {
    fn genotype(&self) -> &Vec<f32> {
        match self {
            Self::WithFitness { .. } => panic!("Not supported for TestIndividual with Fitness"),
            Self::WithGenotype { genotype } => genotype,
        }
    }

    fn create(genotype: Vec<f32>) -> Self {
        Self::WithGenotype { genotype }
    }
}

/// Fitness-weighted choice, as the simulation's selection makes it.
struct RouletteWheel;

impl SelectionMethod<TestIndividual> for RouletteWheel {
    fn select<R: RngCore>(&self, rng: &mut R, population: &Vec<TestIndividual>) -> usize {
        let indices: Vec<usize> = (0..population.len()).collect();
        *indices
            .choose_weighted(rng, |&i| population[i].fitness())
            .expect("got an empty population!")
    }
}

/// Signed, scaled uniform nudges, as the simulation's mutation makes them.
struct Gaussian {
    chance: f32,
    coeff: f32,
}

impl MutationMethod<f32> for Gaussian {
    fn mutate<R: RngCore>(&self, rng: &mut R, child: &mut Vec<f32>) {
        for gene in child.iter_mut() {
            let sign = if rng.random_bool(0.5) { -1.0 } else { 1.0 };
            if rng.random_bool(self.chance as f64) {
                *gene += sign * self.coeff * rng.random::<f32>();
            }
        }
    }
}

fn individual(genes: &[f32]) -> TestIndividual {
    TestIndividual::create(genes.to_vec())
}

#[test]
fn evolve() {
    let mut rng = ChaCha8Rng::from_seed(Default::default());
    let ga = GeneticAlgorithm::new(RouletteWheel, UniformCrossover, Gaussian { chance: 0.5, coeff: 0.5 });

    let mut population = vec![
        individual(&[1.0, 1.0, 1.0, 1.0, 1.0]),
        individual(&[1.0, 1.0, 2.0, 2.0, 1.0]),
        individual(&[1.0, 3.0, 3.0, 1.0, 3.0]),
        individual(&[3.0, 4.0, 1.0, 4.0, 2.0]),
    ];

    for _ in 0..10 {
        population = ga.evolve(&mut rng, &population);
    }

    let expected_population = vec![
        individual(&[2.440106, 3.443046, 1.4234216, 2.4990084, 1.2892904]),
        individual(&[3.052356, 3.2864828, 2.2035873, 3.1747146, 3.6921844]),
        individual(&[2.2522352, 3.1377535, 1.1986562, 2.4990084, 4.1539874]),
        individual(&[2.3075106, 3.6501513, 1.9449277, 1.5516641, 2.8120282]),
    ];

    assert_eq!(expected_population, population);
}

#[test]
fn evolve_keeps_the_population_size() {
    let mut rng = ChaCha8Rng::from_seed([3; 32]);
    let ga = GeneticAlgorithm::new(RouletteWheel, UniformCrossover, Gaussian { chance: 0.1, coeff: 0.2 });
    for size in 1..6 {
        let population: Vec<TestIndividual> =
            (0..size).map(|i| individual(&[1.0 + i as f32, 2.0, 3.0])).collect();
        let next = ga.evolve(&mut rng, &population);
        assert_eq!(next.len(), size);
        for child in &next {
            assert_eq!(child.genotype().len(), 3);
        }
    }
}

#[test]
fn genetic_algorithm_new_keeps_its_strategies() {
    let ga = GeneticAlgorithm::new(1u8, 2u16, 3u32);
    assert_eq!(ga.selection_method, 1);
    assert_eq!(ga.crossover_method, 2);
    assert_eq!(ga.mutation_method, 3);
}

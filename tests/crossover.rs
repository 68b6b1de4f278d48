use evolution::crossover::UniformCrossover;
use evolution::ga::CrossoverMethod;
use rand::SeedableRng;
use rand_chacha::ChaCha8Rng;

fn parents() -> (Vec<f32>, Vec<f32>) {
    let parent_a: Vec<f32> = (0..=100).map(|i| i as f32).collect();
    let parent_b: Vec<f32> = (0..=100).map(|i| -i as f32).collect();
    (parent_a, parent_b)
}

fn differing(parent: &[f32], child: &[f32]) -> usize {
    parent.iter().zip(child.iter()).filter(|(p, c)| p != c).count()
}

#[test]
fn crossover_method_uniform_crossover() {
    let mut rng = ChaCha8Rng::from_seed(Default::default());
    let (parent_a, parent_b) = parents();

    let child = UniformCrossover.crossover(&mut rng, &parent_a, &parent_b);
    let diff_a = differing(&parent_a, &child);
    let diff_b = differing(&parent_b, &child);
    assert!(diff_a + diff_b == 100);
    assert_eq!(diff_a, 49);
    assert_eq!(diff_b, 51);
}

#[test]
fn lib_uniform_crossover() {
    let mut rng = ChaCha8Rng::from_seed(Default::default());
    let (parent_a, parent_b) = parents();

    let child = UniformCrossover.crossover(&mut rng, &parent_a, &parent_b);
    let diff_a = differing(&parent_a, &child);
    let diff_b = differing(&parent_b, &child);
    assert!(diff_a + diff_b == 100);
    assert_eq!(diff_a, 49);
    assert_eq!(diff_b, 51);
}

#[test]
fn crossover_keeps_length_and_takes_each_gene_from_a_parent() {
    let mut rng = ChaCha8Rng::from_seed([7; 32]);
    let parent_a: Vec<i64> = (0..37).collect();
    let parent_b: Vec<i64> = (0..37).map(|i| 1000 + i).collect();
    let child = UniformCrossover.crossover(&mut rng, &parent_a, &parent_b);
    assert_eq!(child.len(), parent_a.len());
    for i in 0..child.len() {
        assert!(child[i] == parent_a[i] || child[i] == parent_b[i]);
    }
}

#[test]
fn crossover_of_empty_parents_is_empty() {
    let mut rng = ChaCha8Rng::from_seed(Default::default());
    let child = UniformCrossover.crossover(&mut rng, &Vec::<u8>::new(), &Vec::<u8>::new());
    assert!(child.is_empty());
}

#[test]
fn crossover_with_takes_first_parent_on_heads() {
    let coins = vec![true, false, false, true];
    let child = UniformCrossover.crossover_with(&coins, &vec![1, 2, 3, 4], &vec![5, 6, 7, 8]);
    assert_eq!(child, vec![1, 6, 7, 4]);
}

use bingo_simulator::sampling::{fill_sample, random_sample};
use std::collections::HashSet;

#[test]
fn sample_has_the_size_asked_for() {
    let mut rng = rand::rng();
    for size in 0..=10 {
        let set = random_sample(&mut rng, size, 10);
        assert_eq!(set.len(), size);
        assert!(set.iter().all(|&x| x < 10));
    }
}

#[test]
fn sample_of_everything_is_everything() {
    let mut rng = rand::rng();
    let set = random_sample(&mut rng, 40, 40);
    let all: HashSet<usize> = (0..40).collect();
    assert_eq!(set, all);
}

#[test]
fn sample_of_nothing_is_empty() {
    let mut rng = rand::rng();
    assert!(random_sample(&mut rng, 0, 0).is_empty());
    assert!(random_sample(&mut rng, 0, 7).is_empty());
}

#[test]
fn samples_vary() {
    let mut rng = rand::rng();
    let first = random_sample(&mut rng, 25, 1000);
    let mut differs = false;
    for _ in 0..20 {
        if random_sample(&mut rng, 25, 1000) != first {
            differs = true;
        }
    }
    assert!(differs);
}

#[test]
fn every_index_can_be_drawn() {
    let mut rng = rand::rng();
    let mut seen: HashSet<usize> = HashSet::new();
    for _ in 0..400 {
        seen.extend(random_sample(&mut rng, 1, 6));
    }
    assert_eq!(seen, (0..6).collect());
}

#[test]
fn fill_adds_the_smallest_missing_indices() {
    let mut set: HashSet<usize> = HashSet::new();
    fill_sample(&mut set, 3, 10);
    assert_eq!(set, [0, 1, 2].into_iter().collect());

    let mut set: HashSet<usize> = [1, 7].into_iter().collect();
    fill_sample(&mut set, 4, 10);
    assert_eq!(set, [0, 1, 2, 7].into_iter().collect());
}

#[test]
fn fill_leaves_a_full_set_alone() {
    let mut set: HashSet<usize> = [3, 5, 8].into_iter().collect();
    fill_sample(&mut set, 3, 10);
    assert_eq!(set, [3, 5, 8].into_iter().collect());
}

#[test]
fn fill_can_take_every_index() {
    let mut set: HashSet<usize> = [4].into_iter().collect();
    fill_sample(&mut set, 5, 5);
    assert_eq!(set, (0..5).collect());
}

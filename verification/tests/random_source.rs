use ising::lattice::CERTAIN;
use ising::random_generator::{numerator, RandomGenerator};

#[test]
fn uniform_draws_are_numerators_below_certainty() {
    let mut rng = RandomGenerator::new();
    let mut seen_high = false;
    for _ in 0..1000 {
        let d = rng.fran();
        assert!(d < CERTAIN);
        if d >= CERTAIN / 2 {
            seen_high = true;
        }
    }
    assert!(seen_high);
}

#[test]
fn uniform_draws_vary() {
    let mut rng = RandomGenerator::new();
    let first = rng.fran();
    let mut differs = false;
    for _ in 0..64 {
        if rng.fran() != first {
            differs = true;
        }
    }
    assert!(differs);
}

#[test]
fn random_cells_lie_on_the_lattice() {
    let mut rng = RandomGenerator::new();
    for side in [1usize, 2, 3, 7, 64] {
        for _ in 0..500 {
            let (i, j) = rng.index(side);
            assert!(i < side);
            assert!(j < side);
        }
    }
}

#[test]
fn random_cells_reach_every_cell_of_a_small_lattice() {
    let mut rng = RandomGenerator::new();
    let mut seen = [[false; 3]; 3];
    for _ in 0..2000 {
        let (i, j) = rng.index(3);
        seen[i][j] = true;
    }
    assert!(seen.iter().all(|row| row.iter().all(|s| *s)));
}

#[test]
fn coin_shows_both_faces() {
    let mut rng = RandomGenerator::new();
    let mut heads = false;
    let mut tails = false;
    for _ in 0..500 {
        if rng.bran() {
            heads = true;
        } else {
            tails = true;
        }
    }
    assert!(heads && tails);
}

#[test]
fn numerator_is_the_top_fifty_three_bits() {
    assert_eq!(numerator(0), 0);
    assert_eq!(numerator(2047), 0);
    assert_eq!(numerator(2048), 1);
    assert_eq!(numerator(1u64 << 63), CERTAIN / 2);
    assert_eq!(numerator(u64::MAX), CERTAIN - 1);
    assert_eq!(numerator(0x0123_4567_89ab_cdef), 0x0123_4567_89ab_cdef >> 11);
}

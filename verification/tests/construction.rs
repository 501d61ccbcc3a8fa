use ising::ising_threaded::{
    compute_change_probabilities, init_cell, neighbours_indices, seeded_spin, side_is_supported,
    IsingModelThreaded, ModelError,
};
use ising::lattice::{CERTAIN, ENTRY_BYTES};
use ising::random_generator::RandomGenerator;
use ising::types_def::InitMode;

const ALWAYS: [u64; 5] = [CERTAIN, CERTAIN, CERTAIN, CERTAIN, CERTAIN];

fn build(mode: InitMode, side: usize) -> IsingModelThreaded {
    match IsingModelThreaded::new(mode, side, ALWAYS) {
        Ok(m) => m,
        Err(e) => panic!("construction failed: {:?}", e),
    }
}

#[test]
fn neighbours_of_the_corner_wrap_at_both_boundaries() {
    let n = neighbours_indices((0, 0), 4);
    assert_eq!(n, [(3, 0), (1, 0), (0, 3), (0, 1)]);
    let mut sorted = n.to_vec();
    sorted.sort();
    assert_eq!(sorted, vec![(0, 1), (0, 3), (1, 0), (3, 0)]);
}

#[test]
fn neighbours_of_the_far_corner_wrap_forward() {
    assert_eq!(neighbours_indices((3, 3), 4), [(2, 3), (0, 3), (3, 2), (3, 0)]);
}

#[test]
fn neighbours_of_an_inner_cell() {
    assert_eq!(neighbours_indices((1, 2), 4), [(0, 2), (2, 2), (1, 1), (1, 3)]);
}

#[test]
fn neighbours_on_a_two_by_two_torus_coincide() {
    assert_eq!(neighbours_indices((0, 0), 2), [(1, 0), (1, 0), (0, 1), (0, 1)]);
}

#[test]
fn neighbours_on_a_single_cell_are_the_cell() {
    assert_eq!(neighbours_indices((0, 0), 1), [(0, 0), (0, 0), (0, 0), (0, 0)]);
}

#[test]
fn neighbour_table_holds_the_torus_neighbours_of_every_cell() {
    let m = build(InitMode::AllUp, 4);
    assert_eq!(m.neighbours((0, 0)), [(3, 0), (1, 0), (0, 3), (0, 1)]);
    for i in 0..4 {
        for j in 0..4 {
            assert_eq!(m.neighbours((i, j)), neighbours_indices((i, j), 4));
        }
    }
}

#[test]
fn init_cell_follows_the_fixed_modes() {
    let mut rng = RandomGenerator::new();
    assert_eq!(init_cell((0, 0), InitMode::Chess, &mut rng), 1);
    assert_eq!(init_cell((0, 1), InitMode::Chess, &mut rng), -1);
    assert_eq!(init_cell((1, 0), InitMode::Chess, &mut rng), -1);
    assert_eq!(init_cell((1, 1), InitMode::Chess, &mut rng), 1);
    assert_eq!(init_cell((5, 2), InitMode::Chess, &mut rng), -1);
    assert_eq!(init_cell((3, 7), InitMode::AllUp, &mut rng), 1);
    assert_eq!(init_cell((3, 7), InitMode::AllDown, &mut rng), -1);
}

#[test]
fn seeded_spin_follows_the_coin_only_in_random_mode() {
    assert_eq!(seeded_spin((2, 3), InitMode::Random, true), 1);
    assert_eq!(seeded_spin((2, 3), InitMode::Random, false), -1);
    for heads in [true, false] {
        assert_eq!(seeded_spin((2, 3), InitMode::Chess, heads), -1);
        assert_eq!(seeded_spin((2, 4), InitMode::Chess, heads), 1);
        assert_eq!(seeded_spin((0, 0), InitMode::Chess, heads), 1);
        assert_eq!(seeded_spin((usize::MAX, usize::MAX), InitMode::Chess, heads), 1);
        assert_eq!(seeded_spin((usize::MAX, 0), InitMode::Chess, heads), -1);
        assert_eq!(seeded_spin((2, 3), InitMode::AllUp, heads), 1);
        assert_eq!(seeded_spin((2, 3), InitMode::AllDown, heads), -1);
    }
}

#[test]
fn init_cell_random_gives_a_spin() {
    let mut rng = RandomGenerator::new();
    for k in 0..200 {
        let s = init_cell((k, k), InitMode::Random, &mut rng);
        assert!(s == 1 || s == -1);
    }
}

#[test]
fn all_up_lattice_has_minimal_energy_and_full_magnetization() {
    let m = build(InitMode::AllUp, 4);
    assert_eq!(m.side(), 4);
    for i in 0..4 {
        for j in 0..4 {
            assert_eq!(m.spin((i, j)), 1);
        }
    }
    assert_eq!(m.energy(), -32);
    assert_eq!(m.magnet(), 16);
}

#[test]
fn all_down_lattice_has_minimal_energy_and_negative_magnetization() {
    let m = build(InitMode::AllDown, 3);
    for i in 0..3 {
        for j in 0..3 {
            assert_eq!(m.spin((i, j)), -1);
        }
    }
    assert_eq!(m.energy(), -18);
    assert_eq!(m.magnet(), -9);
}

#[test]
fn chessboard_of_even_side_has_maximal_energy_and_no_magnetization() {
    let m = build(InitMode::Chess, 4);
    for i in 0..4 {
        for j in 0..4 {
            let expected = if (i + j) % 2 == 0 { 1 } else { -1 };
            assert_eq!(m.spin((i, j)), expected);
        }
    }
    assert_eq!(m.energy(), 32);
    assert_eq!(m.magnet(), 0);
}

#[test]
fn chessboard_of_odd_side_is_frustrated_at_the_seam() {
    let m = build(InitMode::Chess, 3);
    assert_eq!(m.spin((0, 0)), 1);
    assert_eq!(m.spin((0, 2)), 1);
    assert_eq!(m.spin((1, 1)), 1);
    assert_eq!(m.spin((1, 2)), -1);
    assert_eq!(m.energy(), 6);
    assert_eq!(m.magnet(), 1);
}

#[test]
fn single_cell_lattice_is_its_own_neighbour() {
    let m = build(InitMode::AllUp, 1);
    assert_eq!(m.side(), 1);
    assert_eq!(m.energy(), -2);
    assert_eq!(m.magnet(), 1);
}

#[test]
fn random_lattice_holds_spins_and_consistent_totals() {
    let mut m = build(InitMode::Random, 8);
    let mut sum: i64 = 0;
    for i in 0..8 {
        for j in 0..8 {
            let s = m.spin((i, j));
            assert!(s == 1 || s == -1);
            sum += s as i64;
        }
    }
    assert_eq!(m.magnet(), sum);
    let mut bonds: i64 = 0;
    for i in 0..8 {
        for j in 0..8 {
            for n in m.neighbours((i, j)) {
                bonds += (m.spin((i, j)) as i64) * (m.spin(n) as i64);
            }
        }
    }
    assert_eq!(m.energy(), -bonds / 2);
    let e = m.energy();
    m.compute_energy();
    m.compute_magnet();
    assert_eq!(m.energy(), e);
    assert_eq!(m.magnet(), sum);
}

#[test]
fn reserved_mode_is_rejected() {
    let r = IsingModelThreaded::new(InitMode::RandomDist, 4, ALWAYS);
    assert!(matches!(r, Err(ModelError::UnsupportedMode)));
    assert!(!InitMode::RandomDist.is_supported());
    assert!(InitMode::Random.is_supported());
    assert!(InitMode::Chess.is_supported());
    assert!(InitMode::AllUp.is_supported());
    assert!(InitMode::AllDown.is_supported());
}

#[test]
fn reserved_mode_is_reported_before_a_bad_side() {
    let r = IsingModelThreaded::new(InitMode::RandomDist, 0, [u64::MAX; 5]);
    assert!(matches!(r, Err(ModelError::UnsupportedMode)));
}

#[test]
fn zero_side_is_rejected() {
    let r = IsingModelThreaded::new(InitMode::AllUp, 0, ALWAYS);
    assert!(matches!(r, Err(ModelError::InvalidSide)));
}

#[test]
fn oversized_side_is_rejected() {
    for side in [usize::MAX, usize::MAX / 2, 1usize << (usize::BITS / 2)] {
        let r = IsingModelThreaded::new(InitMode::AllUp, side, ALWAYS);
        assert!(matches!(r, Err(ModelError::InvalidSide)));
    }
}

#[test]
fn supported_sides_are_those_whose_tables_fit() {
    assert!(!side_is_supported(0));
    assert!(side_is_supported(1));
    assert!(side_is_supported(2));
    assert!(side_is_supported(4096));
    assert!(!side_is_supported(1usize << (usize::BITS / 2)));
    assert!(!side_is_supported(usize::MAX));
    // The largest side whose square times the entry size stays in range.
    let limit = (isize::MAX as u128) / (ENTRY_BYTES as u128);
    let mut side: u128 = 1;
    while (side + 1) * (side + 1) <= limit {
        side = if (2 * side) * (2 * side) <= limit { 2 * side } else { side + 1 };
    }
    assert!(side_is_supported(side as usize));
    assert!(!side_is_supported(side as usize + 1));
}

#[test]
fn bad_side_is_reported_before_a_bad_threshold() {
    let r = IsingModelThreaded::new(InitMode::AllUp, 0, [u64::MAX; 5]);
    assert!(matches!(r, Err(ModelError::InvalidSide)));
}

#[test]
fn threshold_above_certainty_is_rejected() {
    for k in 0..5 {
        let mut p = ALWAYS;
        p[k] = CERTAIN + 1;
        let r = IsingModelThreaded::new(InitMode::AllUp, 2, p);
        assert!(matches!(r, Err(ModelError::InvalidProbability)));
    }
}

#[test]
fn thresholds_at_the_bounds_are_accepted() {
    assert!(IsingModelThreaded::new(InitMode::AllUp, 2, [0; 5]).is_ok());
    assert!(IsingModelThreaded::new(InitMode::AllUp, 2, ALWAYS).is_ok());
}

#[test]
fn certainty_is_two_to_the_fifty_three() {
    assert_eq!(CERTAIN, 1u64 << 53);
    assert_eq!(ENTRY_BYTES, 64);
}

#[test]
fn thresholds_are_weights_capped_at_certainty() {
    let table = compute_change_probabilities([u64::MAX, CERTAIN + 1, CERTAIN, CERTAIN - 1, 0]);
    assert_eq!(table, [CERTAIN, CERTAIN, CERTAIN, CERTAIN - 1, 0]);
    // The weights at a temperature of four couplings: e^2, e, 1, 1/e, 1/e^2.
    let weights = [
        66554700587527536,
        24484106059472292,
        9007199254740992,
        3313563428353948,
        1218991862308979,
    ];
    let table = compute_change_probabilities(weights);
    assert_eq!(table, [CERTAIN, CERTAIN, CERTAIN, 3313563428353948, 1218991862308979]);
    assert_eq!(compute_change_probabilities(weights), table);
    assert!(IsingModelThreaded::new(InitMode::Chess, 4, table).is_ok());
}

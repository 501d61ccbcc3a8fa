//! The mathematical model of the lattice: toroidal geometry, the bulk
//! observables, and the effect of one Metropolis trial.

use crate::sums::grid_sum;
use crate::types_def::{InitMode, Spin, Trial};
use vstd::prelude::*;

verus! {

/// The number of bytes that the largest per-cell table entry may take: the
/// four neighbours of a cell, two coordinates each.
pub const ENTRY_BYTES: usize = 64;

/// A side that a lattice can have on this machine: at least one, and small
/// enough for a table of `ENTRY_BYTES` per cell to fit into the address
/// space.
pub open spec fn supported_side(side: int) -> bool {
    1 <= side && side * side * ENTRY_BYTES <= isize::MAX
}

/// The fixed-point value of probability one: 2^53. Uniform draws are integers
/// below it, so a threshold of `CERTAIN` accepts every draw.
pub const CERTAIN: u64 = 0x20_0000_0000_0000;

/// A spin is up (`+1`) or down (`-1`).
pub open spec fn is_spin(s: Spin) -> bool {
    s == 1 || s == -1
}

/// `rows` has `side` rows of `side` cells each.
pub open spec fn is_square(rows: Seq<Seq<Spin>>, side: int) -> bool {
    &&& rows.len() == side
    &&& forall|i: int| 0 <= i < side ==> (#[trigger] rows[i]).len() == side
}

/// `rows` is a square grid of the given side in which every cell holds a spin.
pub open spec fn is_lattice(rows: Seq<Seq<Spin>>, side: int) -> bool {
    &&& is_square(rows, side)
    &&& forall|i: int, j: int| 0 <= i < side && 0 <= j < side ==> is_spin(#[trigger] rows[i][j])
}

/// The coordinate one step before `i` on a ring of `side` sites.
pub open spec fn before(i: int, side: int) -> int {
    (i - 1) % side
}

/// The coordinate one step after `i` on a ring of `side` sites.
pub open spec fn after(i: int, side: int) -> int {
    (i + 1) % side
}

/// The four neighbours of cell `(i, j)` on the torus: up, down, left, right.
pub open spec fn torus_neighbours(i: int, j: int, side: int) -> Seq<(usize, usize)> {
    seq![
        (before(i, side) as usize, j as usize),
        (after(i, side) as usize, j as usize),
        (i as usize, before(j, side) as usize),
        (i as usize, after(j, side) as usize),
    ]
}

/// The position of cell `(i, j)` when the cells are listed row by row.
pub open spec fn flat_index(i: int, j: int, side: int) -> int {
    i * side + j
}

/// The spin that an initialization mode puts into cell `(i, j)`, given the
/// coin of the cell. Only `Random` depends on the coin: heads is up. The
/// chessboard is up where row plus column is even.
pub open spec fn initial_spin(mode: InitMode, i: int, j: int, heads: bool) -> Spin {
    match mode {
        InitMode::Random => if heads {
            1i8
        } else {
            -1i8
        },
        InitMode::Chess => if (i + j) % 2 == 0 {
            1i8
        } else {
            -1i8
        },
        InitMode::AllUp => 1i8,
        _ => -1i8,
    }
}

/// `s` is a spin that a supported initialization mode may put into cell
/// `(i, j)`: the spin of the mode for some outcome of the coin.
pub open spec fn seeds(mode: InitMode, i: int, j: int, s: Spin) -> bool {
    mode.supported() && (s == initial_spin(mode, i, j, true) || s == initial_spin(
        mode,
        i,
        j,
        false,
    ))
}

/// The grid as an integer function of the cell.
pub open spec fn spin_of(rows: Seq<Seq<Spin>>) -> spec_fn(int, int) -> int {
    |i: int, j: int| rows[i][j] as int
}

/// The sum of all spins.
pub open spec fn total_spin(rows: Seq<Seq<Spin>>) -> int {
    grid_sum(spin_of(rows), rows.len() as int, rows.len() as int)
}

/// The sum of the four neighbour spins of cell `(i, j)`.
pub open spec fn neighbour_sum(rows: Seq<Seq<Spin>>, i: int, j: int) -> int {
    let side = rows.len() as int;
    rows[before(i, side)][j] + rows[after(i, side)][j] + rows[i][before(j, side)] + rows[i][after(
        j,
        side,
    )]
}

/// The local statistic of cell `(i, j)`: its own spin times the sum of its
/// neighbours. It is one of -4, -2, 0, 2, 4.
pub open spec fn alignment(rows: Seq<Seq<Spin>>, i: int, j: int) -> int {
    rows[i][j] * neighbour_sum(rows, i, j)
}

/// The local statistic as an integer function of the cell.
pub open spec fn alignment_of(rows: Seq<Seq<Spin>>) -> spec_fn(int, int) -> int {
    |i: int, j: int| alignment(rows, i, j)
}

/// The neighbour of cell `(a, b)` in direction `k`: 0 is up, 1 is down,
/// 2 is left, 3 is right.
pub open spec fn neighbour_cell(k: int, a: int, b: int, side: int) -> (int, int) {
    if k == 0 {
        (before(a, side), b)
    } else if k == 1 {
        (after(a, side), b)
    } else if k == 2 {
        (a, before(b, side))
    } else {
        (a, after(b, side))
    }
}

/// The direction that undoes a step in direction `k`.
pub open spec fn opposite(k: int) -> int {
    if k == 0 {
        1
    } else if k == 1 {
        0
    } else if k == 2 {
        3
    } else {
        2
    }
}

/// The bond of each cell with its neighbour in direction `k`: the product of
/// the two spins, as an integer function of the cell.
pub open spec fn bonds_along(rows: Seq<Seq<Spin>>, k: int) -> spec_fn(int, int) -> int {
    |a: int, b: int|
        {
            let c = neighbour_cell(k, a, b, rows.len() as int);
            rows[a][b] * rows[c.0][c.1]
        }
}

/// The sum over every cell of its spin times each of its four neighbours.
/// Every bond of the torus is counted twice.
pub open spec fn bond_sum(rows: Seq<Seq<Spin>>) -> int {
    grid_sum(alignment_of(rows), rows.len() as int, rows.len() as int)
}

/// The total energy in units of the coupling constant: minus the product
/// of the two spins for every bond, which is minus half the bond sum.
pub open spec fn energy_of(rows: Seq<Seq<Spin>>) -> int {
    -(bond_sum(rows) / 2)
}

/// The total magnetization: the sum of all spins.
pub open spec fn magnet_of(rows: Seq<Seq<Spin>>) -> int {
    total_spin(rows)
}

/// The grid with the spin of cell `(i, j)` negated.
pub open spec fn flipped(rows: Seq<Seq<Spin>>, i: int, j: int) -> Seq<Seq<Spin>> {
    rows.update(i, rows[i].update(j, (-rows[i][j]) as Spin))
}

/// The slot of the five-entry tables that belongs to a local statistic:
/// -4, -2, 0, 2, 4 go to 0, 1, 2, 3, 4.
pub open spec fn table_index(statistic: int) -> int {
    statistic / 2 + 2
}

/// The change of the total energy, in units of the coupling constant, when a
/// cell whose statistic has slot `slot` is flipped: -8, -4, 0, 4, 8.
pub open spec fn energy_delta(slot: int) -> int {
    4 * (slot - 2)
}

/// `x` clamped to the range of the 64-bit accumulators.
pub open spec fn saturate(x: int) -> int {
    if x > i64::MAX {
        i64::MAX as int
    } else if x < i64::MIN {
        i64::MIN as int
    } else {
        x
    }
}

/// What a model is, as far as its behaviour goes: the grid, the acceptance
/// thresholds, and the two running totals.
pub struct State {
    pub spins: Seq<Seq<Spin>>,
    pub probabilities: Seq<u64>,
    pub energy: int,
    pub magnet: int,
}

/// The trial addresses a cell of a lattice of the given side.
pub open spec fn in_range(t: Trial, side: int) -> bool {
    t.row < side && t.col < side
}

/// Every trial of the sequence addresses a cell of the lattice.
pub open spec fn all_in_range(trials: Seq<Trial>, side: int) -> bool {
    forall|k: int| 0 <= k < trials.len() ==> in_range(#[trigger] trials[k], side)
}

/// Every trial of the sequence addresses a cell of the lattice and carries a
/// draw below `CERTAIN`, as the generator hands them out.
pub open spec fn all_drawn(trials: Seq<Trial>, side: int) -> bool {
    &&& all_in_range(trials, side)
    &&& forall|k: int| 0 <= k < trials.len() ==> (#[trigger] trials[k]).draw < CERTAIN
}

/// The Metropolis rule: the flip is accepted when the threshold of the
/// cell's statistic strictly exceeds the draw.
pub open spec fn accepts(s: State, t: Trial) -> bool {
    s.probabilities[table_index(alignment(s.spins, t.row as int, t.col as int))] > t.draw
}

/// The state after one trial. An accepted trial negates the cell and moves
/// the totals by the tabulated deltas; a rejected one changes nothing.
pub open spec fn step(s: State, t: Trial) -> State {
    if accepts(s, t) {
        let i = t.row as int;
        let j = t.col as int;
        let slot = table_index(alignment(s.spins, i, j));
        State {
            spins: flipped(s.spins, i, j),
            probabilities: s.probabilities,
            energy: saturate(s.energy + energy_delta(slot)),
            magnet: s.magnet - 2 * s.spins[i][j],
        }
    } else {
        s
    }
}

/// The state after a sequence of trials, applied first to last.
pub open spec fn run(s: State, trials: Seq<Trial>) -> State
    decreases trials.len(),
{
    if trials.len() == 0 {
        s
    } else {
        step(run(s, trials.drop_last()), trials.last())
    }
}

/// The two totals of a state, as a record of a production run holds them.
pub open spec fn observables(s: State) -> (i64, i64) {
    (s.energy as i64, s.magnet as i64)
}

/// A state of a lattice of the given side: the side is supported, the grid
/// is a lattice of spins, and there are five thresholds, none above
/// `CERTAIN`.
pub open spec fn valid_state(s: State, side: int) -> bool {
    &&& supported_side(side)
    &&& is_lattice(s.spins, side)
    &&& s.probabilities.len() == 5
    &&& forall|k: int| 0 <= k < 5 ==> #[trigger] s.probabilities[k] <= CERTAIN
}

/// The running totals agree with the observables recomputed from the grid.
pub open spec fn consistent(s: State) -> bool {
    &&& s.energy == energy_of(s.spins)
    &&& s.magnet == magnet_of(s.spins)
}

} // verus!

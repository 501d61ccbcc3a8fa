//! The Metropolis engine and the simulation driver.

use crate::lattice::{
    accepts, alignment, alignment_of, all_drawn, all_in_range, consistent, energy_delta,
    energy_of, flat_index, flipped, in_range, initial_spin, is_spin, magnet_of, neighbour_sum,
    observables, run, seeds, step, supported_side, table_index, torus_neighbours, valid_state,
    State, CERTAIN, ENTRY_BYTES,
};
use crate::laws::{
    lemma_alignment_values, lemma_cells_fit, lemma_flat_index_fits, lemma_observable_bounds,
    lemma_ring_step, lemma_run_concat, lemma_run_push, lemma_step_keeps_energy,
    lemma_step_keeps_magnet, lemma_step_keeps_valid,
};
use crate::random_generator::RandomGenerator;
use crate::sums::{grid_sum, row_sum};
use crate::types_def::{grid_rows, neighbour_rows, Grid, Index, InitMode, Neighbours, Spin, Trial};
use vstd::prelude::*;

verus! {

/// The change of the total energy on an accepted flip, in units of the
/// coupling constant, by the slot of the cell's local statistic.
pub const ENERGY_DELTAS: [i64; 5] = [-8, -4, 0, 4, 8];

/// The size of the change of the total magnetization on an accepted flip.
pub const MAGNET_DELTA: i64 = 2;

/// Why a model could not be built.
#[derive(Debug, Copy, Clone, PartialEq, Eq, Structural)]
pub enum ModelError {
    /// The initialization mode is the reserved one.
    UnsupportedMode,
    /// The side is zero, or so large that the tables of the lattice would
    /// not fit into the address space.
    InvalidSide,
    /// An acceptance threshold is above `CERTAIN`.
    InvalidProbability,
}

/// The error that construction reports for its arguments, if any. The mode
/// is looked at first, then the side, then the thresholds.
pub open spec fn rejection(mode: InitMode, side: usize, probabilities: Seq<u64>) -> Option<
    ModelError,
> {
    if !mode.supported() {
        Some(ModelError::UnsupportedMode)
    } else if !supported_side(side as int) {
        Some(ModelError::InvalidSide)
    } else if exists|k: int| 0 <= k < 5 && #[trigger] probabilities[k] > CERTAIN {
        Some(ModelError::InvalidProbability)
    } else {
        None
    }
}

/// Whether a lattice of this side can be built on this machine.
pub fn side_is_supported(side: usize) -> (b: bool)
    ensures
        b == supported_side(side as int),
{
    if side == 0 {
        return false;
    }
    match side.checked_mul(side) {
        Some(cells) => match cells.checked_mul(ENTRY_BYTES) {
            Some(bytes) => bytes <= isize::MAX as usize,
            None => false,
        },
        None => false,
    }
}

/// The acceptance threshold of each slot under the Metropolis rule, from the
/// Boltzmann weight of each slot: the smaller of the weight and one.
pub open spec fn metropolis_table(weights: Seq<u64>) -> Seq<u64> {
    Seq::new(5, |k: int| if weights[k] < CERTAIN { weights[k] } else { CERTAIN })
}

/// The table of acceptance thresholds for one temperature.
///
/// `weights[k]` is the Boltzmann weight of the flip whose energy delta is
/// `ENERGY_DELTAS[k]`, as a fixed-point number with 53 fractional bits. A
/// flip that lowers the energy or leaves it has a weight of one or more and
/// is accepted with certainty; any other is accepted with its weight as
/// probability.
pub fn compute_change_probabilities(weights: [u64; 5]) -> (table: [u64; 5])
    ensures
        table@ == metropolis_table(weights@),
        forall|k: int| 0 <= k < 5 ==> #[trigger] table@[k] <= CERTAIN,
{
    let mut table: [u64; 5] = [CERTAIN; 5];
    let mut k: usize = 0;
    while k < 5
        invariant
            k <= 5,
            forall|q: int| 0 <= q < k ==> #[trigger] table@[q] == metropolis_table(weights@)[q],
        decreases 5 - k,
    {
        if weights[k] < CERTAIN {
            table[k] = weights[k];
        } else {
            table[k] = CERTAIN;
        }
        k += 1;
    }
    assert(table@ =~= metropolis_table(weights@));
    table
}

/// The spin that cell `idx` gets under `mode`, with the coin of the cell
/// given. Only `Random` looks at the coin: heads is up.
pub fn seeded_spin(idx: Index, mode: InitMode, heads: bool) -> (s: Spin)
    requires
        mode.supported(),
    ensures
        s == initial_spin(mode, idx.0 as int, idx.1 as int, heads),
{
    match mode {
        InitMode::Random => {
            if heads {
                1i8
            } else {
                -1i8
            }
        },
        InitMode::Chess => {
            if idx.0 % 2 == idx.1 % 2 {
                1i8
            } else {
                -1i8
            }
        },
        InitMode::AllUp => 1i8,
        _ => -1i8,
    }
}

/// The spin that cell `idx` gets under `mode`. Only `Random` consults the
/// generator, with one fair coin per cell.
pub fn init_cell(idx: Index, mode: InitMode, rng: &mut RandomGenerator) -> (s: Spin)
    requires
        mode.supported(),
    ensures
        seeds(mode, idx.0 as int, idx.1 as int, s),
{
    let heads: bool = match mode {
        InitMode::Random => rng.bran(),
        _ => true,
    };
    seeded_spin(idx, mode, heads)
}

/// The four neighbours of cell `idx` on a torus of the given side, in the
/// order up, down, left, right.
pub fn neighbours_indices(idx: Index, side: usize) -> (r: [Index; 4])
    requires
        idx.0 < side,
        idx.1 < side,
    ensures
        r@ == torus_neighbours(idx.0 as int, idx.1 as int, side as int),
{
    let i: usize = idx.0;
    let j: usize = idx.1;
    let up: usize = if i == 0 { side - 1 } else { i - 1 };
    let down: usize = if i + 1 == side { 0 } else { i + 1 };
    let left: usize = if j == 0 { side - 1 } else { j - 1 };
    let right: usize = if j + 1 == side { 0 } else { j + 1 };
    let r: [Index; 4] = [(up, j), (down, j), (i, left), (i, right)];
    proof {
        lemma_ring_step(i as int, side as int);
        lemma_ring_step(j as int, side as int);
        assert(r@ =~= torus_neighbours(i as int, j as int, side as int));
    }
    r
}

/// A square lattice of spins on a torus, with its neighbour table, its
/// generator, the acceptance thresholds of one temperature, and the running
/// totals of energy and magnetization.
///
/// Energy is kept in units of the coupling constant and magnetization in
/// spins; neither is divided by the number of cells. A threshold is the
/// acceptance probability times 2^53, rounded up.
pub struct IsingModelThreaded {
    side: usize,
    grid: Grid,
    neighs: Neighbours,
    rng: RandomGenerator,
    change_probabilities: [u64; 5],
    energy: i64,
    magnet: i64,
}

impl View for IsingModelThreaded {
    type V = State;

    closed spec fn view(&self) -> State {
        State {
            spins: grid_rows(self.grid),
            probabilities: self.change_probabilities@,
            energy: self.energy as int,
            magnet: self.magnet as int,
        }
    }
}

impl IsingModelThreaded {
    /// The side of the lattice.
    pub closed spec fn side_len(&self) -> int {
        self.side as int
    }

    /// The neighbour table lists, for every cell, its four neighbours on the
    /// torus.
    pub closed spec fn tables_agree(&self) -> bool {
        &&& neighbour_rows(self.neighs).len() == self.side
        &&& forall|i: int|
            0 <= i < self.side ==> (#[trigger] neighbour_rows(self.neighs)[i]).len() == self.side
        &&& forall|i: int, j: int|
            0 <= i < self.side && 0 <= j < self.side ==> #[trigger] neighbour_rows(
                self.neighs,
            )[i][j] == torus_neighbours(i, j, self.side as int)
    }

    /// The grid is a lattice of spins of a supported side, the thresholds are
    /// probabilities, and the tables fit the grid. Nothing is said of the
    /// running totals.
    pub open spec fn structured(&self) -> bool {
        &&& valid_state(self@, self.side_len())
        &&& self.tables_agree()
    }

    /// The model is structured, the running magnetization is the sum of all
    /// spins, and on a lattice of side two or more the running energy is the
    /// energy of the grid.
    pub open spec fn wf(&self) -> bool {
        &&& self.structured()
        &&& self@.magnet == magnet_of(self@.spins)
        &&& self.side_len() >= 2 ==> self@.energy == energy_of(self@.spins)
    }

    /// The side of the lattice.
    pub fn side(&self) -> (n: usize)
        ensures
            n == self.side_len(),
    {
        self.side
    }

    /// The running total energy, in units of the coupling constant.
    pub fn energy(&self) -> (e: i64)
        ensures
            e == self@.energy,
    {
        self.energy
    }

    /// The running total magnetization.
    pub fn magnet(&self) -> (m: i64)
        ensures
            m == self@.magnet,
    {
        self.magnet
    }

    /// The spin of a cell.
    pub fn spin(&self, idx: Index) -> (s: Spin)
        requires
            self.structured(),
            idx.0 < self.side_len(),
            idx.1 < self.side_len(),
        ensures
            s == self@.spins[idx.0 as int][idx.1 as int],
            is_spin(s),
    {
        self.grid.get(idx)
    }

    /// The entry of the neighbour table for a cell: up, down, left, right.
    pub fn neighbours(&self, idx: Index) -> (entry: [Index; 4])
        requires
            self.structured(),
            idx.0 < self.side_len(),
            idx.1 < self.side_len(),
        ensures
            entry@ == torus_neighbours(idx.0 as int, idx.1 as int, self.side_len()),
    {
        self.neighs.get(idx)
    }

    /// The sum of the four neighbour spins of a cell.
    fn sum_neighs(&self, idx: Index) -> (sum: i8)
        requires
            self.structured(),
            idx.0 < self.side_len(),
            idx.1 < self.side_len(),
        ensures
            sum == neighbour_sum(self@.spins, idx.0 as int, idx.1 as int),
            -4 <= sum <= 4,
    {
        let entry = self.neighs.get(idx);
        proof {
            lemma_ring_step(idx.0 as int, self.side as int);
            lemma_ring_step(idx.1 as int, self.side as int);
            lemma_alignment_values(self@.spins, self.side as int, idx.0 as int, idx.1 as int);
        }
        let up: Spin = self.grid.get(entry[0]);
        let down: Spin = self.grid.get(entry[1]);
        let left: Spin = self.grid.get(entry[2]);
        let right: Spin = self.grid.get(entry[3]);
        assert(is_spin(up) && is_spin(down) && is_spin(left) && is_spin(right));
        up + down + left + right
    }

    /// Builds a model of the given side: fills the grid by `mode`, derives
    /// the neighbour table, and computes both totals by full summation.
    ///
    /// `change_probabilities` holds the acceptance thresholds of the
    /// temperature, by slot of the local statistic.
    pub fn new(mode: InitMode, side: usize, change_probabilities: [u64; 5]) -> (r: Result<
        IsingModelThreaded,
        ModelError,
    >)
        ensures
            match r {
                Ok(m) => {
                    &&& rejection(mode, side, change_probabilities@) is None
                    &&& m.wf()
                    &&& m.side_len() == side
                    &&& m@.probabilities == change_probabilities@
                    &&& consistent(m@)
                    &&& forall|i: int, j: int|
                        0 <= i < side && 0 <= j < side ==> seeds(mode, i, j, #[trigger] m@.spins[i][j])
                },
                Err(e) => rejection(mode, side, change_probabilities@) == Some(e),
            },
    {
        if !mode.is_supported() {
            return Err(ModelError::UnsupportedMode);
        }
        if !side_is_supported(side) {
            return Err(ModelError::InvalidSide);
        }
        let mut k: usize = 0;
        while k < 5
            invariant
                k <= 5,
                mode.supported(),
                supported_side(side as int),
                forall|q: int| 0 <= q < k ==> #[trigger] change_probabilities@[q] <= CERTAIN,
            decreases 5 - k,
        {
            if change_probabilities[k] > CERTAIN {
                assert(change_probabilities@[k as int] > CERTAIN);
                return Err(ModelError::InvalidProbability);
            }
            k += 1;
        }
        proof {
            lemma_cells_fit(side as int);
        }
        let mut rng = RandomGenerator::new();
        let grid = Grid::seeded(side, mode, &mut rng);
        let neighs = Neighbours::of_torus(side);
        let mut ising = IsingModelThreaded {
            side,
            grid,
            neighs,
            rng,
            change_probabilities,
            energy: 0,
            magnet: 0,
        };
        assert forall|i: int, j: int| 0 <= i < side && 0 <= j < side implies is_spin(
            #[trigger] ising@.spins[i][j],
        ) by {
            assert(seeds(mode, i, j, ising@.spins[i][j]));
        }
        ising.compute_energy();
        ising.compute_magnet();
        Ok(ising)
    }

    /// Recomputes the running energy from the grid: the sum, over every cell
    /// and each of its four neighbours, of minus the product of the two
    /// spins, halved because every bond is met twice.
    pub fn compute_energy(&mut self)
        requires
            old(self).structured(),
        ensures
            final(self).structured(),
            final(self).side_len() == old(self).side_len(),
            final(self)@.spins == old(self)@.spins,
            final(self)@.probabilities == old(self)@.probabilities,
            final(self)@.magnet == old(self)@.magnet,
            final(self)@.energy == energy_of(old(self)@.spins),
    {
        let side: usize = self.side;
        let ghost rows = self@.spins;
        proof {
            lemma_cells_fit(side as int);
        }
        let cells = self.grid.indexed_cells();
        let mut sum: i64 = 0;
        let mut k: usize = 0;
        let mut i: usize = 0;
        while i < side
            invariant
                self.structured(),
                self@.spins == rows,
                side == self.side,
                8 * (side * side) <= i64::MAX,
                side * side <= usize::MAX,
                i <= side,
                k == i * side,
                cells@.len() == side * side,
                forall|a: int, b: int|
                    0 <= a < side && 0 <= b < side ==> #[trigger] cells@[flat_index(
                        a,
                        b,
                        side as int,
                    )] == ((a as usize, b as usize), rows[a][b]),
                sum == -grid_sum(alignment_of(rows), i as int, side as int),
                sum % 2 == 0,
                -4 * k <= sum <= 4 * k,
            decreases side - i,
        {
            let mut j: usize = 0;
            while j < side
                invariant
                    self.structured(),
                    self@.spins == rows,
                    side == self.side,
                    8 * (side * side) <= i64::MAX,
                side * side <= usize::MAX,
                    i < side,
                    j <= side,
                    k == i * side + j,
                    cells@.len() == side * side,
                    forall|a: int, b: int|
                        0 <= a < side && 0 <= b < side ==> #[trigger] cells@[flat_index(
                            a,
                            b,
                            side as int,
                        )] == ((a as usize, b as usize), rows[a][b]),
                    sum == -(grid_sum(alignment_of(rows), i as int, side as int) + row_sum(
                        alignment_of(rows),
                        i as int,
                        j as int,
                    )),
                    sum % 2 == 0,
                    -4 * k <= sum <= 4 * k,
                decreases side - j,
            {
                proof {
                    lemma_flat_index_fits(i as int, j as int, side as int);
                    lemma_alignment_values(rows, side as int, i as int, j as int);
                }
                let item: (Index, Spin) = cells[k];
                let idx: Index = item.0;
                let cell: Spin = item.1;
                let around: i8 = self.sum_neighs(idx);
                sum = sum - (cell * around) as i64;
                j += 1;
                k += 1;
            }
            proof {
                lemma_flat_index_fits(i as int, side - 1, side as int);
            }
            i += 1;
        }
        self.energy = sum / 2;
    }

    /// Recomputes the running magnetization from the grid: the sum of all
    /// spins.
    pub fn compute_magnet(&mut self)
        requires
            old(self).structured(),
        ensures
            final(self).structured(),
            final(self).side_len() == old(self).side_len(),
            final(self)@.spins == old(self)@.spins,
            final(self)@.probabilities == old(self)@.probabilities,
            final(self)@.energy == old(self)@.energy,
            final(self)@.magnet == magnet_of(old(self)@.spins),
    {
        proof {
            lemma_cells_fit(self.side as int);
        }
        self.magnet = self.grid.sum_of_spins();
    }

    /// One trial flip with its randomness given: looks at cell `(t.row,
    /// t.col)`, and flips it if the threshold of its local statistic strictly
    /// exceeds `t.draw`. An accepted flip moves the totals by the tabulated
    /// deltas; the energy accumulator saturates at the bounds of its type,
    /// which a lattice of side two or more never reaches. Returns whether
    /// the flip was accepted.
    pub fn apply_trial(&mut self, t: Trial) -> (accepted: bool)
        requires
            old(self).wf(),
            in_range(t, old(self).side_len()),
        ensures
            final(self).wf(),
            final(self).side_len() == old(self).side_len(),
            final(self)@ == step(old(self)@, t),
            accepted == accepts(old(self)@, t),
    {
        let idx: Index = (t.row, t.col);
        let ghost before = self@;
        let ghost side = self.side as int;
        let sum_neighs: i8 = self.sum_neighs(idx);
        let own: Spin = self.grid.get(idx);
        proof {
            lemma_alignment_values(before.spins, side, t.row as int, t.col as int);
            lemma_step_keeps_valid(before, side, t);
            lemma_step_keeps_magnet(before, side, t);
            if side >= 2 {
                lemma_step_keeps_energy(before, side, t);
            }
            lemma_observable_bounds(flipped(before.spins, t.row as int, t.col as int), side);
            lemma_cells_fit(side);
        }
        let statistic: i8 = own * sum_neighs;
        let prob_idx: usize = (statistic / 2 + 2) as usize;
        assert(prob_idx == table_index(alignment(before.spins, t.row as int, t.col as int)));
        if self.change_probabilities[prob_idx] > t.draw {
            self.grid.set(idx, -own);
            let delta: i64 = ENERGY_DELTAS[prob_idx];
            assert(delta == energy_delta(prob_idx as int));
            self.energy = match self.energy.checked_add(delta) {
                Some(e) => e,
                None => if delta > 0 {
                    i64::MAX
                } else {
                    i64::MIN
                },
            };
            self.magnet = self.magnet + MAGNET_DELTA * ((-own) as i64);
            assert(self@.spins =~= step(before, t).spins);
            true
        } else {
            false
        }
    }

    /// One Metropolis trial: draws a uniformly random cell, then a uniform
    /// number, and flips the cell if the threshold of its local statistic
    /// strictly exceeds the number.
    pub fn try_update_spin(&mut self)
        requires
            old(self).wf(),
        ensures
            final(self).wf(),
            final(self).side_len() == old(self).side_len(),
            exists|t: Trial|
                in_range(t, old(self).side_len()) && t.draw < CERTAIN && final(self)@ == #[trigger] step(
                    old(self)@,
                    t,
                ),
    {
        let idx: Index = self.rng.index(self.side);
        let draw: u64 = self.rng.fran();
        let t = Trial { row: idx.0, col: idx.1, draw };
        self.apply_trial(t);
    }

    /// Applies a recorded sequence of trials, first to last: what a run does
    /// when its randomness is fixed in advance.
    pub fn replay(&mut self, trials: &Vec<Trial>)
        requires
            old(self).wf(),
            all_in_range(trials@, old(self).side_len()),
        ensures
            final(self).wf(),
            final(self).side_len() == old(self).side_len(),
            final(self)@ == run(old(self)@, trials@),
    {
        let ghost start = self@;
        let ghost side = self.side as int;
        let mut k: usize = 0;
        while k < trials.len()
            invariant
                self.wf(),
                self.side_len() == side,
                all_in_range(trials@, side),
                k <= trials@.len(),
                self@ == run(start, trials@.take(k as int)),
            decreases trials@.len() - k,
        {
            let t: Trial = trials[k];
            proof {
                lemma_run_push(start, trials@.take(k as int), t);
                assert(trials@.take(k as int).push(t) =~= trials@.take(k + 1));
            }
            self.apply_trial(t);
            k += 1;
        }
        assert(trials@.take(k as int) =~= trials@);
    }

    /// One sweep: as many trials as the lattice has cells. Rejected trials
    /// count.
    pub fn sweep(&mut self)
        requires
            old(self).wf(),
        ensures
            final(self).wf(),
            final(self).side_len() == old(self).side_len(),
            exists|trials: Seq<Trial>|
                trials.len() == old(self).side_len() * old(self).side_len() && all_drawn(
                    trials,
                    old(self).side_len(),
                ) && final(self)@ == #[trigger] run(old(self)@, trials),
    {
        let ghost start = self@;
        let ghost side = self.side as int;
        proof {
            lemma_cells_fit(side);
        }
        let cells: usize = self.side * self.side;
        let ghost mut trials = Seq::<Trial>::empty();
        let mut k: usize = 0;
        while k < cells
            invariant
                self.wf(),
                self.side_len() == side,
                k <= cells,
                trials.len() == k,
                all_drawn(trials, side),
                self@ == run(start, trials),
            decreases cells - k,
        {
            let ghost here = self@;
            self.try_update_spin();
            proof {
                let t = choose|t: Trial|
                    in_range(t, side) && t.draw < CERTAIN && self@ == #[trigger] step(here, t);
                lemma_run_push(start, trials, t);
                trials = trials.push(t);
            }
            k += 1;
        }
    }

    /// Lets the system evolve for `n_iters` sweeps without recording
    /// anything.
    pub fn thermalize(&mut self, n_iters: usize)
        requires
            old(self).wf(),
        ensures
            final(self).wf(),
            final(self).side_len() == old(self).side_len(),
            exists|trials: Seq<Trial>|
                trials.len() == n_iters * (old(self).side_len() * old(self).side_len())
                    && all_drawn(trials, old(self).side_len()) && final(self)@ == #[trigger] run(
                    old(self)@,
                    trials,
                ),
    {
        let ghost start = self@;
        let ghost side = self.side as int;
        let ghost mut trials = Seq::<Trial>::empty();
        let mut n: usize = 0;
        assert(0 * (side * side) == 0);
        while n < n_iters
            invariant
                self.wf(),
                self.side_len() == side,
                n <= n_iters,
                trials.len() == n * (side * side),
                all_drawn(trials, side),
                self@ == run(start, trials),
            decreases n_iters - n,
        {
            let ghost here = self@;
            self.sweep();
            proof {
                let more = choose|more: Seq<Trial>|
                    more.len() == side * side && all_drawn(more, side) && self@ == #[trigger] run(
                        here,
                        more,
                    );
                lemma_run_concat(start, trials, more);
                assert((n + 1) * (side * side) == n * (side * side) + side * side)
                    by (nonlinear_arith);
                trials = trials + more;
            }
            n += 1;
        }
    }

    /// Lets the system evolve for `n_iters` sweeps and records the running
    /// energy and magnetization after each of them, in sweep order.
    pub fn evolve(&mut self, n_iters: usize) -> (records: Vec<(i64, i64)>)
        requires
            old(self).wf(),
        ensures
            final(self).wf(),
            final(self).side_len() == old(self).side_len(),
            records@.len() == n_iters,
            exists|trials: Seq<Trial>|
                {
                    &&& trials.len() == n_iters * (old(self).side_len() * old(self).side_len())
                    &&& all_drawn(trials, old(self).side_len())
                    &&& final(self)@ == #[trigger] run(old(self)@, trials)
                    &&& forall|k: int|
                        0 <= k < n_iters ==> #[trigger] records@[k] == observables(
                            run(
                                old(self)@,
                                trials.take(
                                    (k + 1) * (old(self).side_len() * old(self).side_len()),
                                ),
                            ),
                        )
                },
    {
        let ghost start = self@;
        let ghost side = self.side as int;
        let ghost mut trials = Seq::<Trial>::empty();
        let mut records: Vec<(i64, i64)> = Vec::new();
        let mut n: usize = 0;
        assert(0 * (side * side) == 0);
        while n < n_iters
            invariant
                self.wf(),
                self.side_len() == side,
                n <= n_iters,
                records@.len() == n,
                trials.len() == n * (side * side),
                all_drawn(trials, side),
                self@ == run(start, trials),
                forall|k: int|
                    0 <= k < n ==> #[trigger] records@[k] == observables(
                        run(start, trials.take((k + 1) * (side * side))),
                    ),
            decreases n_iters - n,
        {
            let ghost here = self@;
            let ghost sofar = trials;
            let ghost recorded = records@;
            self.sweep();
            records.push((self.energy, self.magnet));
            proof {
                let more = choose|more: Seq<Trial>|
                    more.len() == side * side && all_drawn(more, side) && self@ == #[trigger] run(
                        here,
                        more,
                    );
                lemma_run_concat(start, sofar, more);
                assert((n + 1) * (side * side) == n * (side * side) + side * side)
                    by (nonlinear_arith);
                trials = sofar + more;
                assert(trials.take((n + 1) * (side * side)) =~= trials);
                assert forall|k: int| 0 <= k < n + 1 implies #[trigger] records@[k] == observables(
                    run(start, trials.take((k + 1) * (side * side))),
                ) by {
                    if k < n {
                        assert((k + 1) * (side * side) <= n * (side * side)) by (nonlinear_arith)
                            requires
                                k + 1 <= n,
                                0 <= side * side,
                        ;
                        assert(0 <= (k + 1) * (side * side)) by (nonlinear_arith)
                            requires
                                0 <= k,
                                0 <= side * side,
                        ;
                        assert(trials.take((k + 1) * (side * side)) =~= sofar.take(
                            (k + 1) * (side * side),
                        ));
                        assert(records@[k] == recorded[k]);
                    }
                }
            }
            n += 1;
        }
        records
    }
}

} // verus!

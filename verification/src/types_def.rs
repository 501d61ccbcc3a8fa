//! The plain types of the model, and the two lattice-shaped tables.

use crate::ising_threaded::{init_cell, neighbours_indices};
use crate::lattice::{flat_index, is_spin, is_square, seeds, torus_neighbours, total_spin};
use crate::random_generator::RandomGenerator;
use ndarray::Array2;
use vstd::prelude::*;

verus! {

/// A spin: `+1` or `-1`.
pub type Spin = i8;

/// A cell of the lattice: row, then column.
pub type Index = (usize, usize);

/// How the grid is filled at construction.
#[derive(Debug, Copy, Clone, PartialEq, Eq, Structural)]
pub enum InitMode {
    /// An independent fair coin per cell.
    Random,
    /// Alternating signs: up where row plus column is even.
    Chess,
    /// Every spin up.
    AllUp,
    /// Every spin down.
    AllDown,
    /// Reserved for a non-uniform random fill; no model can be built with it.
    RandomDist,
}

impl InitMode {
    /// Whether a model can be built with this mode.
    pub open spec fn supported(self) -> bool {
        self != InitMode::RandomDist
    }

    /// Whether a model can be built with this mode.
    pub fn is_supported(self) -> (b: bool)
        ensures
            b == self.supported(),
    {
        match self {
            InitMode::RandomDist => false,
            _ => true,
        }
    }
}

/// One trial flip with its randomness made explicit: the cell that was
/// picked, and the uniform draw as an integer numerator over 2^53.
#[derive(Debug, Copy, Clone, PartialEq, Eq, Structural)]
pub struct Trial {
    pub row: usize,
    pub col: usize,
    pub draw: u64,
}

/// The grid of spins, a two-dimensional `ndarray` array. The verifier does
/// not look inside: what the grid holds is `grid_rows`, and the methods below
/// say what each call into `ndarray` does to it.
#[verifier::external_body]
pub struct Grid {
    cells: Array2<Spin>,
}

/// The rows of a grid, top to bottom, each left to right.
pub uninterp spec fn grid_rows(g: Grid) -> Seq<Seq<Spin>>;

/// The neighbour table, a two-dimensional `ndarray` array of four cells
/// each. The verifier does not look inside: what the table holds is
/// `neighbour_rows`.
#[verifier::external_body]
pub struct Neighbours {
    cells: Array2<[Index; 4]>,
}

/// The rows of a neighbour table; each entry lists its four cells in order.
pub uninterp spec fn neighbour_rows(n: Neighbours) -> Seq<Seq<Seq<Index>>>;

impl Grid {
    /// `Array2::from_shape_fn` over a square shape, with `init_cell` as the
    /// function. The array has `side` rows and columns, and each cell holds
    /// what one call of `init_cell` for that cell returned: a spin that the
    /// mode allows there. The order of the calls is left open. The call
    /// panics if the number of cells overflows `isize`; the bound on the
    /// side excludes that.
    #[verifier::external_body]
    pub(crate) fn seeded(side: usize, mode: InitMode, rng: &mut RandomGenerator) -> (g: Grid)
        requires
            side * side * 64 <= isize::MAX,
            mode.supported(),
        ensures
            is_square(grid_rows(g), side as int),
            forall|i: int, j: int|
                0 <= i < side && 0 <= j < side ==> seeds(mode, i, j, #[trigger] grid_rows(g)[i][j]),
    {
        Grid { cells: Array2::from_shape_fn((side, side), |idx| init_cell(idx, mode, rng)) }
    }

    /// Indexing an array by a pair, `array[(row, column)]`, which panics out
    /// of bounds. Returns the cell.
    #[verifier::external_body]
    pub(crate) fn get(&self, idx: Index) -> (s: Spin)
        requires
            idx.0 < grid_rows(*self).len(),
            idx.1 < grid_rows(*self)[idx.0 as int].len(),
        ensures
            s == grid_rows(*self)[idx.0 as int][idx.1 as int],
    {
        self.cells[idx]
    }

    /// Assignment through mutable indexing, `array[(row, column)] = s`, which
    /// panics out of bounds. The cell holds `s` afterwards; every other cell
    /// and the shape are unchanged.
    #[verifier::external_body]
    pub(crate) fn set(&mut self, idx: Index, s: Spin)
        requires
            idx.0 < grid_rows(*old(self)).len(),
            idx.1 < grid_rows(*old(self))[idx.0 as int].len(),
        ensures
            grid_rows(*final(self)) == grid_rows(*old(self)).update(
                idx.0 as int,
                grid_rows(*old(self))[idx.0 as int].update(idx.1 as int, s),
            ),
    {
        self.cells[idx] = s;
    }

    /// `indexed_iter`, collected into a vector. The cells come in logical
    /// order, the column index varying fastest, each with its own index.
    #[verifier::external_body]
    pub(crate) fn indexed_cells(&self) -> (cells: Vec<(Index, Spin)>)
        requires
            is_square(grid_rows(*self), grid_rows(*self).len() as int),
            grid_rows(*self).len() * grid_rows(*self).len() * 64 <= isize::MAX,
        ensures
            cells@.len() == grid_rows(*self).len() * grid_rows(*self).len(),
            forall|i: int, j: int|
                0 <= i < grid_rows(*self).len() && 0 <= j < grid_rows(*self).len()
                    ==> #[trigger] cells@[flat_index(i, j, grid_rows(*self).len() as int)] == (
                    (i as usize, j as usize),
                    grid_rows(*self)[i][j],
                ),
    {
        self.cells.indexed_iter().map(|(idx, s)| (idx, *s)).collect()
    }

    /// `mapv`, which widens every cell to a 64-bit integer, then `sum`: the
    /// sum of all cells. The cells are spins, so no partial sum leaves the
    /// range of the type.
    #[verifier::external_body]
    pub(crate) fn sum_of_spins(&self) -> (total: i64)
        requires
            is_square(grid_rows(*self), grid_rows(*self).len() as int),
            grid_rows(*self).len() * grid_rows(*self).len() * 64 <= isize::MAX,
            forall|i: int, j: int|
                0 <= i < grid_rows(*self).len() && 0 <= j < grid_rows(*self).len() ==> is_spin(
                    #[trigger] grid_rows(*self)[i][j],
                ),
        ensures
            total == total_spin(grid_rows(*self)),
    {
        self.cells.mapv(|s| s as i64).sum()
    }
}

impl Neighbours {
    /// `Array2::from_shape_fn` over a square shape, with `neighbours_indices`
    /// as the function. The array has `side` rows and columns, and the entry
    /// of each cell is what `neighbours_indices` returns for it: the four
    /// neighbours of that cell on the torus. The bound on the side keeps the
    /// table within `isize::MAX` bytes.
    #[verifier::external_body]
    pub(crate) fn of_torus(side: usize) -> (n: Neighbours)
        requires
            side * side * 64 <= isize::MAX,
        ensures
            neighbour_rows(n).len() == side,
            forall|i: int| 0 <= i < side ==> (#[trigger] neighbour_rows(n)[i]).len() == side,
            forall|i: int, j: int|
                0 <= i < side && 0 <= j < side ==> #[trigger] neighbour_rows(n)[i][j]
                    == torus_neighbours(i, j, side as int),
    {
        Neighbours { cells: Array2::from_shape_fn((side, side), |idx| neighbours_indices(idx, side)) }
    }

    /// Indexing an array by a pair, `array[(row, column)]`, which panics out
    /// of bounds. Returns the entry.
    #[verifier::external_body]
    pub(crate) fn get(&self, idx: Index) -> (entry: [Index; 4])
        requires
            idx.0 < neighbour_rows(*self).len(),
            idx.1 < neighbour_rows(*self)[idx.0 as int].len(),
        ensures
            entry@ == neighbour_rows(*self)[idx.0 as int][idx.1 as int],
    {
        self.cells[idx]
    }
}

} // verus!

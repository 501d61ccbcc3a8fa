//! What holds of the model: the geometry of the torus, the effect of a flip
//! on the bulk observables, and the invariants of a run of trials.

use crate::lattice::{
    after, alignment, alignment_of, all_in_range, before, bond_sum, bonds_along, consistent,
    energy_delta, energy_of, flat_index, flipped, in_range, is_lattice, is_spin, magnet_of,
    neighbour_cell, neighbour_sum, opposite, run, spin_of, step, table_index, total_spin,
    supported_side, valid_state, State,
};
use crate::sums::{
    grid_sum, lemma_grid_sum_add, lemma_grid_sum_bounds, lemma_grid_sum_even,
    lemma_grid_sum_pair, lemma_grid_sum_single,
};
use crate::types_def::{Spin, Trial};
use vstd::prelude::*;

verus! {

/// On a ring, stepping back from 0 lands on the last site and stepping
/// forward from the last site lands on 0; elsewhere a step is minus or plus
/// one.
pub proof fn lemma_ring_step(i: int, side: int)
    requires
        0 <= i < side,
    ensures
        before(i, side) == (if i == 0 { side - 1 } else { i - 1 }),
        after(i, side) == (if i + 1 == side { 0 } else { i + 1 }),
{
    if i == 0 {
        vstd::arithmetic::div_mod::lemma_mod_add_multiples_vanish(-1, side);
        vstd::arithmetic::div_mod::lemma_small_mod((side - 1) as nat, side as nat);
    } else {
        vstd::arithmetic::div_mod::lemma_small_mod((i - 1) as nat, side as nat);
    }
    if i + 1 == side {
        vstd::arithmetic::div_mod::lemma_mod_self_0(side);
    } else {
        vstd::arithmetic::div_mod::lemma_small_mod((i + 1) as nat, side as nat);
    }
}

/// On a lattice of a supported side, the number of cells fits the machine
/// word, and eight times that number fits the 64-bit accumulators.
pub proof fn lemma_cells_fit(side: int)
    requires
        supported_side(side),
    ensures
        1 <= side * side <= usize::MAX,
        side * side * 64 <= isize::MAX,
        8 * (side * side) <= i64::MAX,
{
    assert(1 <= side * side && side * side * 64 == 64 * (side * side)) by (nonlinear_arith)
        requires
            1 <= side,
    ;
}

/// The position of a cell in the row-by-row listing is below the number of
/// cells, and the next position belongs to the next cell of the row, or to
/// the first cell of the next row.
pub proof fn lemma_flat_index_fits(i: int, j: int, side: int)
    requires
        0 <= i < side,
        0 <= j < side,
    ensures
        0 <= i * side <= flat_index(i, j, side) < side * side,
        flat_index(i, j, side) + 1 == (if j + 1 == side {
            flat_index(i + 1, 0, side)
        } else {
            flat_index(i, j + 1, side)
        }),
{
    assert(0 <= i * side && i * side + j < side * side && (i + 1) * side == i * side + side)
        by (nonlinear_arith)
        requires
            0 <= i < side,
            0 <= j < side,
    ;
}

/// Every neighbour of a cell of the lattice is a cell of the lattice.
pub proof fn lemma_neighbour_in_lattice(k: int, a: int, b: int, side: int)
    requires
        0 <= a < side,
        0 <= b < side,
    ensures
        0 <= neighbour_cell(k, a, b, side).0 < side,
        0 <= neighbour_cell(k, a, b, side).1 < side,
{
    lemma_ring_step(a, side);
    lemma_ring_step(b, side);
}

/// On a torus of side two or more, no cell is its own neighbour, and a step
/// in the opposite direction leads back.
pub proof fn lemma_neighbour_returns(k: int, a: int, b: int, side: int)
    requires
        0 <= a < side,
        0 <= b < side,
        2 <= side,
    ensures
        neighbour_cell(k, a, b, side) != (a, b),
        ({
            let c = neighbour_cell(k, a, b, side);
            neighbour_cell(opposite(k), c.0, c.1, side) == (a, b)
        }),
        ({
            let c = neighbour_cell(opposite(k), a, b, side);
            neighbour_cell(k, c.0, c.1, side) == (a, b)
        }),
{
    lemma_ring_step(a, side);
    lemma_ring_step(b, side);
    lemma_ring_step(before(a, side), side);
    lemma_ring_step(after(a, side), side);
    lemma_ring_step(before(b, side), side);
    lemma_ring_step(after(b, side), side);
}

/// Flipping a cell of a lattice negates that cell, leaves every other cell
/// as it was, and gives a lattice again.
pub proof fn lemma_flipped_cells(rows: Seq<Seq<Spin>>, side: int, i: int, j: int)
    requires
        is_lattice(rows, side),
        0 <= i < side,
        0 <= j < side,
    ensures
        is_lattice(flipped(rows, i, j), side),
        flipped(rows, i, j)[i][j] == -rows[i][j],
        forall|a: int, b: int|
            0 <= a < side && 0 <= b < side && !(a == i && b == j) ==> #[trigger] flipped(
                rows,
                i,
                j,
            )[a][b] == rows[a][b],
{
    let next = flipped(rows, i, j);
    assert(is_spin(rows[i][j]));
    assert forall|a: int| 0 <= a < side implies (#[trigger] next[a]).len() == side by {
        assert(rows[a].len() == side);
    }
    assert forall|a: int, b: int| 0 <= a < side && 0 <= b < side implies is_spin(
        #[trigger] next[a][b],
    ) by {
        assert(is_spin(rows[a][b]));
    }
}

/// The local statistic of a cell is one of -4, -2, 0, 2, 4; its slot is one
/// of the five, and the tabulated energy delta of that slot is twice the
/// statistic.
pub proof fn lemma_alignment_values(rows: Seq<Seq<Spin>>, side: int, i: int, j: int)
    requires
        is_lattice(rows, side),
        0 <= i < side,
        0 <= j < side,
    ensures
        -4 <= neighbour_sum(rows, i, j) <= 4,
        neighbour_sum(rows, i, j) % 2 == 0,
        alignment(rows, i, j) == (if rows[i][j] == 1 {
            neighbour_sum(rows, i, j)
        } else {
            -neighbour_sum(rows, i, j)
        }),
        0 <= table_index(alignment(rows, i, j)) <= 4,
        energy_delta(table_index(alignment(rows, i, j))) == 2 * alignment(rows, i, j),
{
    lemma_ring_step(i, side);
    lemma_ring_step(j, side);
    assert(is_spin(rows[i][j]));
    assert(is_spin(rows[before(i, side)][j]));
    assert(is_spin(rows[after(i, side)][j]));
    assert(is_spin(rows[i][before(j, side)]));
    assert(is_spin(rows[i][after(j, side)]));
    let s = rows[i][j] as int;
    let n = neighbour_sum(rows, i, j);
    assert(s * n == (if s == 1 { n } else { -n })) by (nonlinear_arith)
        requires
            s == 1 || s == -1,
    ;
}

/// The product of two spins, one of them negated, is the negated product.
proof fn lemma_negated_product(s: int, x: int)
    ensures
        (-s) * x == -(s * x),
        x * (-s) == -(s * x),
        x * s == s * x,
{
    assert((-s) * x == -(s * x)) by (nonlinear_arith);
    assert(x * (-s) == -(s * x)) by (nonlinear_arith);
    assert(x * s == s * x) by (nonlinear_arith);
}

/// Flipping cell `(i, j)` changes the bonds in direction `k` at two cells
/// only: at the cell itself, and at the cell that has it as its neighbour in
/// that direction. Both bonds change sign.
pub proof fn lemma_flip_bonds_along(rows: Seq<Seq<Spin>>, side: int, i: int, j: int, k: int)
    requires
        is_lattice(rows, side),
        2 <= side,
        0 <= i < side,
        0 <= j < side,
        0 <= k < 4,
    ensures
        grid_sum(bonds_along(flipped(rows, i, j), k), side, side) == grid_sum(
            bonds_along(rows, k),
            side,
            side,
        ) - 2 * (bonds_along(rows, k)(i, j) + bonds_along(rows, opposite(k))(i, j)),
{
    let next = flipped(rows, i, j);
    let f = bonds_along(rows, k);
    let g = bonds_along(next, k);
    let d = |a: int, b: int| g(a, b) - f(a, b);
    let q = neighbour_cell(opposite(k), i, j, side);
    let p = neighbour_cell(k, i, j, side);
    let s = rows[i][j] as int;
    lemma_flipped_cells(rows, side, i, j);
    lemma_neighbour_returns(k, i, j, side);
    lemma_neighbour_returns(opposite(k), i, j, side);
    lemma_neighbour_in_lattice(k, i, j, side);
    lemma_neighbour_in_lattice(opposite(k), i, j, side);
    assert(next.len() == side);
    assert(rows.len() == side);

    assert forall|a: int, b: int| 0 <= a < side && 0 <= b < side implies #[trigger] g(a, b) == f(
        a,
        b,
    ) + d(a, b) by {}
    lemma_grid_sum_add(f, d, g, side, side);

    assert forall|a: int, b: int|
        0 <= a < side && 0 <= b < side && !(a == i && b == j) && !(a == q.0 && b == q.1)
        implies #[trigger] d(a, b) == 0 by {
        let c = neighbour_cell(k, a, b, side);
        lemma_neighbour_in_lattice(k, a, b, side);
        lemma_neighbour_returns(k, a, b, side);
        assert(!(c.0 == i && c.1 == j));
        assert(next[a][b] == rows[a][b]);
        assert(next[c.0][c.1] == rows[c.0][c.1]);
    }
    lemma_grid_sum_pair(d, side, side, i, j, q.0, q.1);

    // At the cell itself the neighbour is untouched and the own spin is negated.
    assert(next[p.0][p.1] == rows[p.0][p.1]);
    lemma_negated_product(s, rows[p.0][p.1] as int);
    assert(d(i, j) == -2 * f(i, j));
    // At the cell before it the own spin is untouched and the neighbour is negated.
    assert(next[q.0][q.1] == rows[q.0][q.1]);
    assert(neighbour_cell(k, q.0, q.1, side) == (i, j));
    lemma_negated_product(s, rows[q.0][q.1] as int);
    assert(d(q.0, q.1) == -2 * bonds_along(rows, opposite(k))(i, j));
}

/// The local statistic of a cell is the sum of its four bonds.
pub proof fn lemma_alignment_is_bonds(rows: Seq<Seq<Spin>>, side: int, i: int, j: int)
    requires
        is_lattice(rows, side),
        0 <= i < side,
        0 <= j < side,
    ensures
        alignment(rows, i, j) == bonds_along(rows, 0)(i, j) + bonds_along(rows, 1)(i, j)
            + bonds_along(rows, 2)(i, j) + bonds_along(rows, 3)(i, j),
{
    let s = rows[i][j] as int;
    let u = rows[before(i, side)][j] as int;
    let d = rows[after(i, side)][j] as int;
    let l = rows[i][before(j, side)] as int;
    let r = rows[i][after(j, side)] as int;
    assert(s * (u + d + l + r) == s * u + s * d + s * l + s * r) by (nonlinear_arith);
}

/// The bond sum of a lattice is the sum of its bonds in the four directions.
pub proof fn lemma_bond_sum_by_direction(rows: Seq<Seq<Spin>>, side: int)
    requires
        is_lattice(rows, side),
    ensures
        bond_sum(rows) == grid_sum(bonds_along(rows, 0), side, side) + grid_sum(
            bonds_along(rows, 1),
            side,
            side,
        ) + grid_sum(bonds_along(rows, 2), side, side) + grid_sum(bonds_along(rows, 3), side, side),
{
    let vertical = |a: int, b: int| bonds_along(rows, 0)(a, b) + bonds_along(rows, 1)(a, b);
    let horizontal = |a: int, b: int| bonds_along(rows, 2)(a, b) + bonds_along(rows, 3)(a, b);
    let all = alignment_of(rows);
    assert forall|a: int, b: int| 0 <= a < side && 0 <= b < side implies #[trigger] all(a, b)
        == vertical(a, b) + horizontal(a, b) by {
        lemma_alignment_is_bonds(rows, side, a, b);
    }
    lemma_grid_sum_add(vertical, horizontal, all, side, side);
    lemma_grid_sum_add(bonds_along(rows, 0), bonds_along(rows, 1), vertical, side, side);
    lemma_grid_sum_add(bonds_along(rows, 2), bonds_along(rows, 3), horizontal, side, side);
}

/// Flipping a cell of a lattice of side two or more lowers the bond sum by
/// four times the local statistic of the cell.
pub proof fn lemma_flip_bond_sum(rows: Seq<Seq<Spin>>, side: int, i: int, j: int)
    requires
        is_lattice(rows, side),
        2 <= side,
        0 <= i < side,
        0 <= j < side,
    ensures
        bond_sum(flipped(rows, i, j)) == bond_sum(rows) - 4 * alignment(rows, i, j),
        energy_of(flipped(rows, i, j)) == energy_of(rows) + 2 * alignment(rows, i, j),
{
    let next = flipped(rows, i, j);
    lemma_flipped_cells(rows, side, i, j);
    lemma_bond_sum_by_direction(rows, side);
    lemma_bond_sum_by_direction(next, side);
    lemma_flip_bonds_along(rows, side, i, j, 0);
    lemma_flip_bonds_along(rows, side, i, j, 1);
    lemma_flip_bonds_along(rows, side, i, j, 2);
    lemma_flip_bonds_along(rows, side, i, j, 3);
    lemma_alignment_is_bonds(rows, side, i, j);
}

/// Flipping a cell of a lattice lowers the total spin by twice the spin that
/// the cell held.
pub proof fn lemma_flip_total_spin(rows: Seq<Seq<Spin>>, side: int, i: int, j: int)
    requires
        is_lattice(rows, side),
        0 <= i < side,
        0 <= j < side,
    ensures
        total_spin(flipped(rows, i, j)) == total_spin(rows) - 2 * rows[i][j],
{
    let next = flipped(rows, i, j);
    let f = spin_of(rows);
    let g = spin_of(next);
    let d = |a: int, b: int| g(a, b) - f(a, b);
    lemma_flipped_cells(rows, side, i, j);
    assert(next.len() == side);
    assert forall|a: int, b: int| 0 <= a < side && 0 <= b < side implies #[trigger] g(a, b) == f(
        a,
        b,
    ) + d(a, b) by {}
    lemma_grid_sum_add(f, d, g, side, side);
    assert forall|a: int, b: int|
        0 <= a < side && 0 <= b < side && !(a == i && b == j) implies #[trigger] d(a, b) == 0 by {
        assert(next[a][b] == rows[a][b]);
    }
    lemma_grid_sum_single(d, side, side, i, j);
}

/// On a lattice the total spin is at most the number of cells in size, and
/// the energy at most twice that.
pub proof fn lemma_observable_bounds(rows: Seq<Seq<Spin>>, side: int)
    requires
        is_lattice(rows, side),
    ensures
        -(side * side) <= magnet_of(rows) <= side * side,
        -4 * (side * side) <= bond_sum(rows) <= 4 * (side * side),
        -2 * (side * side) <= energy_of(rows) <= 2 * (side * side),
{
    let f = spin_of(rows);
    assert forall|a: int, b: int| 0 <= a < side && 0 <= b < side implies -1 <= #[trigger] f(a, b)
        <= 1 by {
        assert(is_spin(rows[a][b]));
    }
    lemma_grid_sum_bounds(f, side, side, -1, 1);
    let g = alignment_of(rows);
    assert forall|a: int, b: int| 0 <= a < side && 0 <= b < side implies -4 <= #[trigger] g(a, b)
        <= 4 by {
        lemma_alignment_values(rows, side, a, b);
    }
    lemma_grid_sum_bounds(g, side, side, -4, 4);
    assert(side * side * -1 == -(side * side)) by (nonlinear_arith);
    assert(side * side * 1 == side * side) by (nonlinear_arith);
    assert(side * side * -4 == -4 * (side * side)) by (nonlinear_arith);
    assert(side * side * 4 == 4 * (side * side)) by (nonlinear_arith);
}

/// The bond sum of a lattice is even, so halving it loses nothing.
pub proof fn lemma_bond_sum_even(rows: Seq<Seq<Spin>>, side: int)
    requires
        is_lattice(rows, side),
    ensures
        bond_sum(rows) % 2 == 0,
        bond_sum(rows) == -2 * energy_of(rows),
{
    let f = alignment_of(rows);
    assert forall|a: int, b: int| 0 <= a < side && 0 <= b < side implies #[trigger] f(a, b) % 2
        == 0 by {
        lemma_alignment_values(rows, side, a, b);
    }
    lemma_grid_sum_even(f, side, side);
}

/// A trial on a valid state gives a valid state: in particular every cell
/// still holds a spin.
pub proof fn lemma_step_keeps_valid(s: State, side: int, t: Trial)
    requires
        valid_state(s, side),
        in_range(t, side),
    ensures
        valid_state(step(s, t), side),
{
    lemma_flipped_cells(s.spins, side, t.row as int, t.col as int);
}

/// A trial keeps the running magnetization equal to the sum of all spins.
pub proof fn lemma_step_keeps_magnet(s: State, side: int, t: Trial)
    requires
        valid_state(s, side),
        in_range(t, side),
        s.magnet == magnet_of(s.spins),
    ensures
        step(s, t).magnet == magnet_of(step(s, t).spins),
{
    lemma_flip_total_spin(s.spins, side, t.row as int, t.col as int);
}

/// On a lattice of side two or more, a trial keeps the running energy equal
/// to the energy recomputed from the grid, and the accumulator does not
/// saturate.
pub proof fn lemma_step_keeps_energy(s: State, side: int, t: Trial)
    requires
        valid_state(s, side),
        2 <= side,
        in_range(t, side),
        s.energy == energy_of(s.spins),
    ensures
        step(s, t).energy == energy_of(step(s, t).spins),
{
    let i = t.row as int;
    let j = t.col as int;
    lemma_flipped_cells(s.spins, side, i, j);
    lemma_flip_bond_sum(s.spins, side, i, j);
    lemma_alignment_values(s.spins, side, i, j);
    lemma_observable_bounds(flipped(s.spins, i, j), side);
    lemma_cells_fit(side);
}

/// Spin invariant: after any sequence of trials on a valid state, every cell
/// of the grid holds `+1` or `-1`, and the state is valid.
pub proof fn lemma_run_keeps_spins(s: State, side: int, trials: Seq<Trial>)
    requires
        valid_state(s, side),
        all_in_range(trials, side),
    ensures
        valid_state(run(s, trials), side),
        is_lattice(run(s, trials).spins, side),
    decreases trials.len(),
{
    if trials.len() > 0 {
        let head = trials.drop_last();
        assert forall|k: int| 0 <= k < head.len() implies in_range(#[trigger] head[k], side) by {
            assert(head[k] == trials[k]);
        }
        lemma_run_keeps_spins(s, side, head);
        lemma_step_keeps_valid(run(s, head), side, trials.last());
    }
}

/// After any sequence of trials, the running magnetization equals the sum of
/// all spins of the resulting grid.
pub proof fn lemma_run_keeps_magnet(s: State, side: int, trials: Seq<Trial>)
    requires
        valid_state(s, side),
        all_in_range(trials, side),
        s.magnet == magnet_of(s.spins),
    ensures
        run(s, trials).magnet == magnet_of(run(s, trials).spins),
    decreases trials.len(),
{
    if trials.len() > 0 {
        let head = trials.drop_last();
        assert forall|k: int| 0 <= k < head.len() implies in_range(#[trigger] head[k], side) by {
            assert(head[k] == trials[k]);
        }
        lemma_run_keeps_spins(s, side, head);
        lemma_run_keeps_magnet(s, side, head);
        lemma_step_keeps_magnet(run(s, head), side, trials.last());
    }
}

/// Consistency of the accumulators: on a lattice of side two or more, after
/// any sequence of trials that starts from consistent totals, the running
/// energy and magnetization equal the values recomputed from the resulting
/// grid.
pub proof fn lemma_run_keeps_totals(s: State, side: int, trials: Seq<Trial>)
    requires
        valid_state(s, side),
        2 <= side,
        all_in_range(trials, side),
        consistent(s),
    ensures
        consistent(run(s, trials)),
    decreases trials.len(),
{
    if trials.len() > 0 {
        let head = trials.drop_last();
        assert forall|k: int| 0 <= k < head.len() implies in_range(#[trigger] head[k], side) by {
            assert(head[k] == trials[k]);
        }
        lemma_run_keeps_spins(s, side, head);
        lemma_run_keeps_totals(s, side, head);
        lemma_step_keeps_magnet(run(s, head), side, trials.last());
        lemma_step_keeps_energy(run(s, head), side, trials.last());
    }
}

/// Running one more trial is a step from where the run had got to.
pub proof fn lemma_run_push(s: State, trials: Seq<Trial>, t: Trial)
    ensures
        run(s, trials.push(t)) == step(run(s, trials), t),
{
    assert(trials.push(t).drop_last() =~= trials);
}

/// Running two sequences one after the other is running their concatenation.
pub proof fn lemma_run_concat(s: State, first: Seq<Trial>, second: Seq<Trial>)
    ensures
        run(s, first + second) == run(run(s, first), second),
    decreases second.len(),
{
    if second.len() == 0 {
        assert(first + second =~= first);
    } else {
        lemma_run_concat(s, first, second.drop_last());
        assert((first + second).drop_last() =~= first + second.drop_last());
    }
}

} // verus!

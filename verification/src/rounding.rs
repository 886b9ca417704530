//! From positions in fractions of a cell to whole cells.

use vstd::prelude::*;
use vstd::arithmetic::div_mod::{
    lemma_div_is_ordered, lemma_fundamental_div_mod, lemma_hoist_over_denominator,
    lemma_mod_bound,
};
use crate::relation::Placement;

verus! {

/// The cell nearest to a position given in `unit`-ths of a cell. A position
/// half-way between two cells belongs to the higher one.
pub open spec fn nearest_cell(position: int, unit: int) -> int {
    (2 * position + unit) / (2 * unit)
}

/// Whether each of `positions` is the cell nearest to the position that
/// `placement` gives the same variable.
pub open spec fn rounds(placement: Placement, positions: Seq<u16>) -> bool {
    &&& placement.unit > 0
    &&& positions.len() == placement.positions.len()
    &&& forall|i: int|
        0 <= i < positions.len() ==> #[trigger] positions[i] == nearest_cell(
            placement.positions[i],
            placement.unit,
        )
}

/// A later position has no earlier nearest cell.
pub proof fn nearest_cell_is_monotonic(earlier: int, later: int, unit: int)
    requires
        unit > 0,
        earlier <= later,
    ensures
        nearest_cell(earlier, unit) <= nearest_cell(later, unit),
{
    lemma_div_is_ordered(2 * earlier + unit, 2 * later + unit, 2 * unit);
}

/// Moving a position by whole cells moves its nearest cell by as many.
pub proof fn nearest_cell_shifts(position: int, cells: int, unit: int)
    requires
        unit > 0,
    ensures
        nearest_cell(position + cells * unit, unit) == nearest_cell(position, unit) + cells,
{
    lemma_hoist_over_denominator(2 * position + unit, cells, (2 * unit) as nat);
    assert(2 * (position + cells * unit) + unit == 2 * position + unit + cells * (2 * unit))
        by (nonlinear_arith);
}

/// The cell nearest to a whole number of cells is that number.
pub proof fn nearest_cell_of_a_cell(cells: int, unit: int)
    requires
        unit > 0,
    ensures
        nearest_cell(cells * unit, unit) == cells,
{
    nearest_cell_shifts(0, cells, unit);
    lemma_fundamental_div_mod(unit, 2 * unit);
    lemma_mod_bound(unit, 2 * unit);
    let quotient = unit / (2 * unit);
    let rest = unit % (2 * unit);
    assert(unit == (2 * unit) * quotient + rest);
    assert(quotient == 0) by (nonlinear_arith)
        requires
            unit > 0,
            unit == (2 * unit) * quotient + rest,
            0 <= rest < 2 * unit,
    ;
}

/// An interval that is `size` fractions of a cell long is, from the cell
/// nearest to its start to the cell nearest to its end, as many cells long
/// as `size` holds whole cells, or one cell more.
pub proof fn sizes_round_within_a_cell(start: int, size: int, unit: int)
    requires
        unit > 0,
        size >= 0,
    ensures
        size / unit <= nearest_cell(start + size, unit) - nearest_cell(start, unit) <= size / unit
            + 1,
        (size / unit) * unit <= size < (size / unit) * unit + unit,
{
    let whole = size / unit;
    let rest = size % unit;
    lemma_fundamental_div_mod(size, unit);
    lemma_mod_bound(size, unit);
    assert(size == whole * unit + rest) by (nonlinear_arith)
        requires
            size == unit * whole + rest,
    ;
    nearest_cell_shifts(start + rest, whole, unit);
    nearest_cell_is_monotonic(start, start + rest, unit);
    nearest_cell_is_monotonic(start + rest, start + unit, unit);
    nearest_cell_shifts(start, 1, unit);
    assert(start + 1 * unit == start + unit) by (nonlinear_arith);
    assert(start + rest + whole * unit == start + size);
}

/// Two intervals of the same size are, in whole cells, equally long or one
/// cell apart.
pub proof fn equal_sizes_round_within_a_cell(first: int, second: int, size: int, unit: int)
    requires
        unit > 0,
        size >= 0,
    ensures
        -1 <= (nearest_cell(first + size, unit) - nearest_cell(first, unit)) - (nearest_cell(
            second + size,
            unit,
        ) - nearest_cell(second, unit)) <= 1,
{
    sizes_round_within_a_cell(first, size, unit);
    sizes_round_within_a_cell(second, size, unit);
}

/// Two intervals whose sizes are to each other as `a` to `b` are, in whole
/// cells, as `a` to `b` up to one cell each.
pub proof fn proportional_sizes_round_within_a_cell(
    first: int,
    first_size: int,
    second: int,
    second_size: int,
    a: int,
    b: int,
    unit: int,
)
    requires
        unit > 0,
        a > 0,
        b > 0,
        first_size >= 0,
        second_size >= 0,
        first_size * b == second_size * a,
    ensures
        -(a + b) < (nearest_cell(first + first_size, unit) - nearest_cell(first, unit)) * b - (
        nearest_cell(second + second_size, unit) - nearest_cell(second, unit)) * a < a + b,
{
    sizes_round_within_a_cell(first, first_size, unit);
    sizes_round_within_a_cell(second, second_size, unit);
    let wide = nearest_cell(first + first_size, unit) - nearest_cell(first, unit);
    let other = nearest_cell(second + second_size, unit) - nearest_cell(second, unit);
    let whole = first_size / unit;
    let rest = second_size / unit;
    assert(first_size - unit < wide * unit <= first_size + unit) by (nonlinear_arith)
        requires
            unit > 0,
            whole <= wide <= whole + 1,
            whole * unit <= first_size < whole * unit + unit,
    ;
    assert(second_size - unit < other * unit <= second_size + unit) by (nonlinear_arith)
        requires
            unit > 0,
            rest <= other <= rest + 1,
            rest * unit <= second_size < rest * unit + unit,
    ;
    assert(-(a + b) < wide * b - other * a < a + b) by (nonlinear_arith)
        requires
            unit > 0,
            a > 0,
            b > 0,
            first_size * b == second_size * a,
            first_size - unit < wide * unit <= first_size + unit,
            second_size - unit < other * unit <= second_size + unit,
    ;
}

} // verus!

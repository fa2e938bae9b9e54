//! Two classic patterns and what a step does to them: the block, which stays
//! as it is, and the blinker, which turns by a quarter with every step.

use vstd::prelude::*;

use crate::cell::Cell;
use crate::grid::Grid;

verus! {

/// Whether `grid` holds a block, two rows of two live cells, with its upper
/// left cell at `(row, col)`, and no other live cell. The block may lie across
/// an edge of the grid.
pub open spec fn is_block(grid: Grid, row: int, col: int) -> bool {
    &&& grid.wf()
    &&& grid.contains(row, col)
    &&& forall|r: int, c: int|
        grid.contains(r, c) ==> (#[trigger] grid.at(r, c) == Cell::Alive <==> (r == row || r
            == grid.below(row)) && (c == col || c == grid.right_of(col)))
}

/// Whether `grid` holds three live cells side by side in row `row`, the middle
/// one in column `col`, and no other live cell.
pub open spec fn is_horizontal_blinker(grid: Grid, row: int, col: int) -> bool {
    &&& grid.wf()
    &&& grid.contains(row, col)
    &&& forall|r: int, c: int|
        grid.contains(r, c) ==> (#[trigger] grid.at(r, c) == Cell::Alive <==> r == row && (c
            == grid.left_of(col) || c == col || c == grid.right_of(col)))
}

/// Whether `grid` holds three live cells one above the other in column `col`,
/// the middle one in row `row`, and no other live cell.
pub open spec fn is_vertical_blinker(grid: Grid, row: int, col: int) -> bool {
    &&& grid.wf()
    &&& grid.contains(row, col)
    &&& forall|r: int, c: int|
        grid.contains(r, c) ==> (#[trigger] grid.at(r, c) == Cell::Alive <==> (r == grid.above(row)
            || r == row || r == grid.below(row)) && c == col)
}

/// A cell is either dead or alive, so two cells that are alive under the same
/// condition are the same.
proof fn lemma_same_when_alive_alike(a: Cell, b: Cell)
    requires
        a == Cell::Alive <==> b == Cell::Alive,
    ensures
        a == b,
{
}

/// Around a block with a margin of dead cells, that is on a grid of at least
/// four rows and four columns, every live cell has exactly three live
/// neighbours and every dead cell at most two.
pub proof fn lemma_block_neighbor_counts(grid: Grid, row: int, col: int, r: int, c: int)
    requires
        is_block(grid, row, col),
        grid.width >= 4,
        grid.height >= 4,
        grid.contains(r, c),
    ensures
        grid.at(r, c) == Cell::Alive ==> grid.live_neighbor_count(r, c) == 3,
        grid.at(r, c) == Cell::Dead ==> grid.live_neighbor_count(r, c) <= 2,
{
    grid.lemma_live_neighbor_count_torus(r, c);
}

/// A block is a still life: on a grid of at least three rows and three
/// columns, a step leaves a grid that holds a block and nothing else as it is.
pub proof fn lemma_block_is_still(grid: Grid, row: int, col: int)
    requires
        is_block(grid, row, col),
        grid.width >= 3,
        grid.height >= 3,
    ensures
        grid.step() == grid,
{
    let next = grid.step();
    assert forall|r: int, c: int| next.contains(r, c) implies #[trigger] next.at(r, c) == grid.at(
        r,
        c,
    ) by {
        grid.lemma_step_at(r, c);
        grid.lemma_live_neighbor_count_torus(r, c);
    }
    next.lemma_equal_by_positions(grid);
}

/// A step turns a horizontal blinker into a vertical one with the same middle
/// cell, on a grid of at least three rows and four columns.
pub proof fn lemma_blinker_stands_up(grid: Grid, row: int, col: int)
    requires
        is_horizontal_blinker(grid, row, col),
        grid.width >= 4,
        grid.height >= 3,
    ensures
        is_vertical_blinker(grid.step(), row, col),
{
    let next = grid.step();
    assert forall|r: int, c: int| next.contains(r, c) implies (#[trigger] next.at(r, c)
        == Cell::Alive <==> (r == next.above(row) || r == row || r == next.below(row)) && c
        == col) by {
        grid.lemma_step_at(r, c);
        grid.lemma_live_neighbor_count_torus(r, c);
    }
}

/// A step turns a vertical blinker into a horizontal one with the same middle
/// cell, on a grid of at least four rows and three columns.
pub proof fn lemma_blinker_lies_down(grid: Grid, row: int, col: int)
    requires
        is_vertical_blinker(grid, row, col),
        grid.width >= 3,
        grid.height >= 4,
    ensures
        is_horizontal_blinker(grid.step(), row, col),
{
    let next = grid.step();
    assert forall|r: int, c: int| next.contains(r, c) implies (#[trigger] next.at(r, c)
        == Cell::Alive <==> r == row && (c == next.left_of(col) || c == col || c
        == next.right_of(col))) by {
        grid.lemma_step_at(r, c);
        grid.lemma_live_neighbor_count_torus(r, c);
    }
}

/// A blinker has period two: on a grid of at least four rows and four columns,
/// one step turns a horizontal blinker into a vertical one, and a second step
/// gives the first grid back.
pub proof fn lemma_blinker_period_two(grid: Grid, row: int, col: int)
    requires
        is_horizontal_blinker(grid, row, col),
        grid.width >= 4,
        grid.height >= 4,
    ensures
        is_vertical_blinker(grid.step(), row, col),
        grid.step().step() == grid,
        grid.after(2) == grid,
{
    let turned = grid.step();
    let back = turned.step();
    lemma_blinker_stands_up(grid, row, col);
    lemma_blinker_lies_down(turned, row, col);
    assert forall|r: int, c: int| back.contains(r, c) implies #[trigger] back.at(r, c) == grid.at(
        r,
        c,
    ) by {
        lemma_same_when_alive_alike(back.at(r, c), grid.at(r, c));
    }
    back.lemma_equal_by_positions(grid);
    assert(grid.after(2) == grid) by {
        reveal_with_fuel(Grid::after, 3);
    }
}

} // verus!

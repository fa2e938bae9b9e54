//! The mathematical model of a universe: a grid of cells on a torus, the count
//! of live neighbours of a cell, and the step from one generation to the next.

use vstd::prelude::*;
use vstd::arithmetic::div_mod::lemma_fundamental_div_mod_converse;

use crate::cell::Cell;

verus! {

/// The number of columns of the initial pattern.
pub const SEED_WIDTH: u32 = 64;

/// The number of rows of the initial pattern.
pub const SEED_HEIGHT: u32 = 64;

/// A grid of `height` rows and `width` columns, stored row by row: the cell in
/// row `r` and column `c` is `cells[r * width + c]`.
pub struct Grid {
    pub width: nat,
    pub height: nat,
    pub cells: Seq<Cell>,
}

impl Grid {
    /// A grid is well formed when it has at least one row and one column and
    /// holds exactly one cell for each position.
    pub open spec fn wf(self) -> bool {
        &&& self.width >= 1
        &&& self.height >= 1
        &&& self.cells.len() == self.width * self.height
    }

    /// Whether `(row, col)` names a position of the grid.
    pub open spec fn contains(self, row: int, col: int) -> bool {
        0 <= row < self.height && 0 <= col < self.width
    }

    /// Where the cell in row `row` and column `col` stands in `cells`.
    pub open spec fn index_of(self, row: int, col: int) -> int {
        row * self.width + col
    }

    /// The cell in row `row` and column `col`.
    pub open spec fn at(self, row: int, col: int) -> Cell {
        self.cells[self.index_of(row, col)]
    }

    /// The row above `row`, which for the first row is the last.
    pub open spec fn above(self, row: int) -> int {
        if row == 0 {
            self.height - 1
        } else {
            row - 1
        }
    }

    /// The row below `row`, which for the last row is the first.
    pub open spec fn below(self, row: int) -> int {
        if row == self.height - 1 {
            0
        } else {
            row + 1
        }
    }

    /// The column to the left of `col`, which for the first column is the last.
    pub open spec fn left_of(self, col: int) -> int {
        if col == 0 {
            self.width - 1
        } else {
            col - 1
        }
    }

    /// The column to the right of `col`, which for the last column is the
    /// first.
    pub open spec fn right_of(self, col: int) -> int {
        if col == self.width - 1 {
            0
        } else {
            col + 1
        }
    }

    /// 1 if the cell that lies `delta_row` rows below and `delta_col` columns
    /// to the right of `(row, col)` is alive, going round the torus, else 0.
    /// The offset `(0, 0)` is the cell itself, which is no neighbour of its
    /// own and counts 0.
    pub open spec fn live_at_offset(self, row: int, col: int, delta_row: int, delta_col: int) -> nat {
        if delta_row == 0 && delta_col == 0 {
            0
        } else {
            self.at((row + delta_row) % (self.height as int), (col + delta_col) % (self.width as int)).live()
        }
    }

    /// The live cells among the three that lie `delta_row` rows below
    /// `(row, col)`, in the column to its left, its own and the one to its
    /// right. On a torus, `width - 1` columns to the right is one to the left.
    pub open spec fn live_in_offset_row(self, row: int, col: int, delta_row: int) -> nat {
        self.live_at_offset(row, col, delta_row, self.width - 1)
            + self.live_at_offset(row, col, delta_row, 0)
            + self.live_at_offset(row, col, delta_row, 1)
    }

    /// The number of live cells among the eight neighbours of `(row, col)`: the
    /// rows above it, its own and the one below, each with three columns, less
    /// the cell itself. On a torus, `height - 1` rows below is one above.
    pub open spec fn live_neighbor_count(self, row: int, col: int) -> nat {
        self.live_in_offset_row(row, col, self.height - 1)
            + self.live_in_offset_row(row, col, 0)
            + self.live_in_offset_row(row, col, 1)
    }

    /// The cell that stands at index `i` of `cells` in the next generation.
    pub open spec fn successor_at(self, i: int) -> Cell {
        self.cells[i].successor(
            self.live_neighbor_count(i / (self.width as int), i % (self.width as int)),
        )
    }

    /// The next generation: a grid of the same shape in which every cell is the
    /// successor of the cell that stood there, by the live neighbours it had in
    /// this generation.
    pub open spec fn step(self) -> Grid {
        Grid {
            width: self.width,
            height: self.height,
            cells: Seq::new(self.cells.len(), |i: int| self.successor_at(i)),
        }
    }

    /// The grid `n` generations on.
    pub open spec fn after(self, n: nat) -> Grid
        decreases n,
    {
        if n == 0 {
            self
        } else {
            self.after((n - 1) as nat).step()
        }
    }

    /// The state of the cell at index `i` of the initial pattern: alive where
    /// `i` is a multiple of 2 or of 7.
    pub open spec fn seed_cell(i: int) -> Cell {
        if i % 2 == 0 || i % 7 == 0 {
            Cell::Alive
        } else {
            Cell::Dead
        }
    }

    /// The initial pattern: `SEED_HEIGHT` rows of `SEED_WIDTH` cells, each as
    /// `seed_cell` says.
    pub open spec fn seed() -> Grid {
        Grid {
            width: SEED_WIDTH as nat,
            height: SEED_HEIGHT as nat,
            cells: Seq::new((SEED_WIDTH * SEED_HEIGHT) as nat, |i: int| Grid::seed_cell(i)),
        }
    }

    /// The text of the first `cols` cells of row `row`: their glyphs, one after
    /// the other.
    pub open spec fn row_text(self, row: int, cols: nat) -> Seq<char>
        decreases cols,
    {
        if cols == 0 {
            Seq::empty()
        } else {
            self.row_text(row, (cols - 1) as nat) + self.at(row, cols - 1).glyph()
        }
    }

    /// The text of the first `rows` rows: each row in full, with a line break
    /// after it.
    pub open spec fn lines(self, rows: nat) -> Seq<char>
        decreases rows,
    {
        if rows == 0 {
            Seq::empty()
        } else {
            self.lines((rows - 1) as nat) + self.row_text(rows - 1, self.width).push('\n')
        }
    }

    /// The grid as text: one line for each row, from the first to the last.
    pub open spec fn render(self) -> Seq<char> {
        self.lines(self.height)
    }

    /// The number of characters in a line of the text: three for each column
    /// and the line break.
    pub open spec fn line_len(self) -> nat {
        3 * self.width + 1
    }

    /// The character at offset `k` of the line of row `row`: the line break
    /// behind the last glyph, and before it the glyphs of the cells of the
    /// row, three characters each.
    pub open spec fn line_char(self, row: int, k: int) -> char {
        if k == 3 * self.width {
            '\n'
        } else {
            self.at(row, k / 3).glyph()[k % 3]
        }
    }

    /// A position of a well-formed grid has its index inside `cells`, and the
    /// index gives the position back.
    pub proof fn lemma_index_of(self, row: int, col: int)
        requires
            self.wf(),
            self.contains(row, col),
        ensures
            0 <= self.index_of(row, col) < self.cells.len(),
            self.index_of(row, col) / (self.width as int) == row,
            self.index_of(row, col) % (self.width as int) == col,
    {
        let w = self.width as int;
        let h = self.height as int;
        assert(0 <= row * w) by (nonlinear_arith)
            requires
                0 <= row,
                0 <= w,
        ;
        assert(row * w + w <= w * h) by (nonlinear_arith)
            requires
                row + 1 <= h,
                0 <= w,
        ;
        lemma_fundamental_div_mod_converse(self.index_of(row, col), w, row, col);
    }

    /// Every index of `cells` is the index of one position of the grid: that
    /// of row `i / width` and column `i % width`.
    pub proof fn lemma_position_of(self, i: int)
        requires
            self.wf(),
            0 <= i < self.cells.len(),
        ensures
            self.contains(i / (self.width as int), i % (self.width as int)),
            self.index_of(i / (self.width as int), i % (self.width as int)) == i,
    {
        let w = self.width as int;
        let h = self.height as int;
        assert(0 <= i % w < w && i == (i / w) * w + i % w && 0 <= i / w < h) by (nonlinear_arith)
            requires
                0 < w,
                0 < h,
                0 <= i < w * h,
        ;
    }

    /// Two well-formed grids of one shape that hold the same cell at every
    /// position are the same grid.
    pub proof fn lemma_equal_by_positions(self, other: Grid)
        requires
            self.wf(),
            other.wf(),
            self.width == other.width,
            self.height == other.height,
            forall|row: int, col: int|
                self.contains(row, col) ==> #[trigger] self.at(row, col) == other.at(row, col),
        ensures
            self == other,
    {
        let w = self.width as int;
        assert forall|i: int| 0 <= i < self.cells.len() implies self.cells[i] == other.cells[i] by {
            self.lemma_position_of(i);
            assert(self.at(i / w, i % w) == other.at(i / w, i % w));
        }
        assert(self.cells =~= other.cells);
    }

    /// The offsets that `live_neighbor_count` uses lead round the torus to
    /// positions of the grid.
    pub proof fn lemma_offset_contained(self, row: int, col: int, delta_row: int, delta_col: int)
        requires
            self.wf(),
            0 <= row + delta_row,
            0 <= col + delta_col,
        ensures
            self.contains(
                (row + delta_row) % (self.height as int),
                (col + delta_col) % (self.width as int),
            ),
    {
        let w = self.width as int;
        let h = self.height as int;
        assert(0 <= (row + delta_row) % h < h) by (nonlinear_arith)
            requires
                0 < h,
        ;
        assert(0 <= (col + delta_col) % w < w) by (nonlinear_arith)
            requires
                0 < w,
        ;
    }

    /// Going round the torus by the offsets `len - 1`, `0` and `1` leads to
    /// the row above, the row itself and the row below, and likewise for the
    /// columns.
    pub proof fn lemma_wrap(self, row: int, col: int)
        requires
            self.wf(),
            self.contains(row, col),
        ensures
            (row + (self.height - 1)) % (self.height as int) == self.above(row),
            (row + 0) % (self.height as int) == row,
            (row + 1) % (self.height as int) == self.below(row),
            (col + (self.width - 1)) % (self.width as int) == self.left_of(col),
            (col + 0) % (self.width as int) == col,
            (col + 1) % (self.width as int) == self.right_of(col),
            self.contains(self.above(row), self.left_of(col)),
            self.contains(self.below(row), self.right_of(col)),
    {
        lemma_wrap_axis(self.height as int, row);
        lemma_wrap_axis(self.width as int, col);
    }

    /// A cell has at most eight live neighbours.
    pub proof fn lemma_live_neighbor_count_bound(self, row: int, col: int)
        ensures
            self.live_neighbor_count(row, col) <= 8,
    {
    }

    /// On a grid with at least two rows and two columns, the live neighbours
    /// of a cell are the live cells among the eight that surround it on the
    /// torus.
    pub proof fn lemma_live_neighbor_count_torus(self, row: int, col: int)
        requires
            self.wf(),
            self.contains(row, col),
            self.width >= 2,
            self.height >= 2,
        ensures
            self.live_neighbor_count(row, col) == self.at(
                self.above(row),
                self.left_of(col),
            ).live() + self.at(self.above(row), col).live() + self.at(
                self.above(row),
                self.right_of(col),
            ).live() + self.at(row, self.left_of(col)).live() + self.at(
                row,
                self.right_of(col),
            ).live() + self.at(self.below(row), self.left_of(col)).live() + self.at(
                self.below(row),
                col,
            ).live() + self.at(self.below(row), self.right_of(col)).live(),
    {
        self.lemma_wrap(row, col);
    }

    /// The grid wraps round at its corners: where the cell in the last row and
    /// last column is alive, the cell in the first row and first column has a
    /// live neighbour.
    pub proof fn lemma_corner_wraps(self)
        requires
            self.wf(),
            self.at(self.height - 1, self.width - 1) == Cell::Alive,
        ensures
            self.live_neighbor_count(0, 0) >= 1,
    {
        self.lemma_wrap(0, 0);
        if self.height == 1 && self.width == 1 {
            assert(self.live_at_offset(0, 0, 1, 1) == 1);
        } else {
            assert(self.live_at_offset(0, 0, self.height - 1, self.width - 1) == 1);
        }
    }

    /// In the next generation, the cell at a position is the successor of the
    /// cell that stands there now.
    pub proof fn lemma_step_at(self, row: int, col: int)
        requires
            self.wf(),
            self.contains(row, col),
        ensures
            self.step().at(row, col) == self.at(row, col).successor(
                self.live_neighbor_count(row, col),
            ),
    {
        self.lemma_index_of(row, col);
    }

    /// The next generation is well formed and has the shape of this one.
    pub proof fn lemma_step_wf(self)
        requires
            self.wf(),
        ensures
            self.step().wf(),
            self.step().width == self.width,
            self.step().height == self.height,
            self.step().cells.len() == self.cells.len(),
    {
    }

    /// However many generations pass, the grid keeps its shape, and holds one
    /// cell for each position.
    pub proof fn lemma_after_wf(self, n: nat)
        requires
            self.wf(),
        ensures
            self.after(n).wf(),
            self.after(n).width == self.width,
            self.after(n).height == self.height,
            self.after(n).cells.len() == self.width * self.height,
        decreases n,
    {
        if n > 0 {
            self.lemma_after_wf((n - 1) as nat);
            self.after((n - 1) as nat).lemma_step_wf();
        }
    }

    /// The generations that follow a grid depend on that grid alone: from
    /// equal grids, equal numbers of steps lead to equal grids.
    pub proof fn lemma_after_determined(self, other: Grid, n: nat)
        requires
            self == other,
        ensures
            self.after(n) == other.after(n),
    {
    }

    /// A live cell with fewer than two live neighbours, and so one that has
    /// none, is dead in the next generation.
    pub proof fn lemma_underpopulation(self, row: int, col: int)
        requires
            self.wf(),
            self.contains(row, col),
            self.at(row, col) == Cell::Alive,
            self.live_neighbor_count(row, col) < 2,
        ensures
            self.step().at(row, col) == Cell::Dead,
    {
        self.lemma_step_at(row, col);
    }

    /// A live cell with two or three live neighbours is alive in the next
    /// generation, and no other live cell is.
    pub proof fn lemma_survival(self, row: int, col: int)
        requires
            self.wf(),
            self.contains(row, col),
            self.at(row, col) == Cell::Alive,
        ensures
            self.step().at(row, col) == Cell::Alive <==> (self.live_neighbor_count(row, col) == 2
                || self.live_neighbor_count(row, col) == 3),
    {
        self.lemma_step_at(row, col);
    }

    /// A dead cell with exactly three live neighbours is alive in the next
    /// generation, and a dead cell with any other number of them stays dead.
    pub proof fn lemma_reproduction(self, row: int, col: int)
        requires
            self.wf(),
            self.contains(row, col),
            self.at(row, col) == Cell::Dead,
        ensures
            self.step().at(row, col) == Cell::Alive <==> self.live_neighbor_count(row, col) == 3,
            self.step().at(row, col) == Cell::Dead <==> self.live_neighbor_count(row, col) != 3,
    {
        self.lemma_step_at(row, col);
    }

    /// The text of the first `cols` cells of a row has three characters for
    /// each of them, those of the glyph of the cell.
    pub proof fn lemma_row_text(self, row: int, cols: nat)
        ensures
            self.row_text(row, cols).len() == 3 * cols,
            forall|k: int|
                0 <= k < 3 * cols ==> #[trigger] self.row_text(row, cols)[k] == self.at(
                    row,
                    k / 3,
                ).glyph()[k % 3],
        decreases cols,
    {
        if cols > 0 {
            self.lemma_row_text(row, (cols - 1) as nat);
        }
    }

    /// The text of the first `rows` rows holds a line of `line_len()`
    /// characters for each of them, and each character is the one that
    /// `line_char` gives for its row and its offset in the line.
    pub proof fn lemma_lines(self, rows: nat)
        ensures
            self.lines(rows).len() == rows * self.line_len(),
            forall|k: int|
                0 <= k < rows * self.line_len() ==> #[trigger] self.lines(rows)[k]
                    == self.line_char(
                        k / (self.line_len() as int),
                        k % (self.line_len() as int),
                    ),
        decreases rows,
    {
        let len = self.line_len() as int;
        if rows > 0 {
            let before = (rows - 1) as nat;
            self.lemma_lines(before);
            self.lemma_row_text(rows - 1, self.width);
            assert(rows * len == before * len + len) by (nonlinear_arith)
                requires
                    rows == before + 1,
            ;
            assert forall|k: int| 0 <= k < rows * len implies #[trigger] self.lines(rows)[k]
                == self.line_char(k / len, k % len) by {
                if k >= before * len {
                    lemma_fundamental_div_mod_converse(k, len, before as int, k - before * len);
                }
            }
        }
    }

    /// The text of a grid has `height` lines of `line_len()` characters, and
    /// its character at index `k` is the one that `line_char` gives for row
    /// `k / line_len()` and offset `k % line_len()`.
    pub proof fn lemma_render(self)
        ensures
            self.render().len() == self.height * self.line_len(),
            forall|k: int|
                0 <= k < self.height * self.line_len() ==> #[trigger] self.render()[k]
                    == self.line_char(
                        k / (self.line_len() as int),
                        k % (self.line_len() as int),
                    ),
    {
        self.lemma_lines(self.height);
    }
}

/// On an axis of `len` positions that closes on itself, the offset `len - 1`
/// leads from `pos` to the position before it, `0` to `pos` itself and `1` to
/// the position after it.
pub proof fn lemma_wrap_axis(len: int, pos: int)
    requires
        0 <= pos < len,
    ensures
        (pos + (len - 1)) % len == (if pos == 0 {
            len - 1
        } else {
            pos - 1
        }),
        (pos + 0) % len == pos,
        (pos + 1) % len == (if pos == len - 1 {
            0
        } else {
            pos + 1
        }),
{
    lemma_fundamental_div_mod_converse(pos, len, 0, pos);
    if pos == 0 {
        lemma_fundamental_div_mod_converse(pos + (len - 1), len, 0, len - 1);
    } else {
        lemma_fundamental_div_mod_converse(pos + (len - 1), len, 1, pos - 1);
    }
    if pos == len - 1 {
        lemma_fundamental_div_mod_converse(pos + 1, len, 1, 0);
    } else {
        lemma_fundamental_div_mod_converse(pos + 1, len, 0, pos + 1);
    }
}

} // verus!

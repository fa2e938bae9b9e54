//! The universe: the grid as it is held in memory, and the operations on it.

use vstd::prelude::*;
use vstd::string::StringExecFns;

use crate::cell::Cell;
use crate::grid::{Grid, SEED_HEIGHT, SEED_WIDTH};

verus! {

/// A grid of cells on a torus, of fixed size.
pub struct Universe {
    width: u32,
    height: u32,
    cells: Vec<Cell>,
}

impl View for Universe {
    type V = Grid;

    closed spec fn view(&self) -> Grid {
        Grid { width: self.width as nat, height: self.height as nat, cells: self.cells@ }
    }
}

impl Universe {
    /// Every universe holds a well-formed grid whose dimensions are those of
    /// its fields.
    #[verifier::type_invariant]
    spec fn inv(self) -> bool {
        self@.wf()
    }

    /// The index in the cell buffer of the cell in row `row` and column
    /// `column`.
    pub fn get_index(&self, row: u32, column: u32) -> (idx: usize)
        requires
            self@.contains(row as int, column as int),
        ensures
            idx == self@.index_of(row as int, column as int),
            idx < self@.cells.len(),
    {
        proof {
            use_type_invariant(self);
            self@.lemma_index_of(row as int, column as int);
            assert(self.cells@.len() == self.cells.len());
            assert(0 <= row * self.width) by (nonlinear_arith);
        }
        row as usize * self.width as usize + column as usize
    }

    /// The number of live cells among the eight neighbours of the cell in row
    /// `row` and column `column`, where the last row is adjacent to the first
    /// and the last column to the first.
    #[verifier::loop_isolation(false)]
    pub fn live_neighbor_count(&self, row: u32, column: u32) -> (count: u8)
        requires
            self@.contains(row as int, column as int),
        ensures
            count == self@.live_neighbor_count(row as int, column as int),
            count <= 8,
    {
        proof {
            use_type_invariant(self);
        }
        let ghost grid = self@;
        let ghost r = row as int;
        let ghost c = column as int;
        let row_offsets: [u32; 3] = [self.height - 1, 0, 1];
        let col_offsets: [u32; 3] = [self.width - 1, 0, 1];
        let mut count: u8 = 0;
        let mut i: usize = 0;
        while i < 3
            invariant
                i <= 3,
                count == (if i > 0 {
                    grid.live_in_offset_row(r, c, grid.height - 1)
                } else {
                    0
                }) + (if i > 1 {
                    grid.live_in_offset_row(r, c, 0)
                } else {
                    0
                }) + (if i > 2 {
                    grid.live_in_offset_row(r, c, 1)
                } else {
                    0
                }),
            decreases 3 - i,
        {
            let delta_row = row_offsets[i];
            let ghost dr = delta_row as int;
            let ghost before = count;
            let mut j: usize = 0;
            while j < 3
                invariant
                    j <= 3,
                    count == before + (if j > 0 {
                        grid.live_at_offset(r, c, dr, grid.width - 1)
                    } else {
                        0
                    }) + (if j > 1 {
                        grid.live_at_offset(r, c, dr, 0)
                    } else {
                        0
                    }) + (if j > 2 {
                        grid.live_at_offset(r, c, dr, 1)
                    } else {
                        0
                    }),
                decreases 3 - j,
            {
                let delta_col = col_offsets[j];
                if !(delta_row == 0 && delta_col == 0) {
                    proof {
                        grid.lemma_offset_contained(r, c, dr, delta_col as int);
                    }
                    let neighbor_row = ((row as u64 + delta_row as u64) % (self.height as u64)) as u32;
                    let neighbor_col = ((column as u64 + delta_col as u64) % (self.width as u64)) as u32;
                    let idx = self.get_index(neighbor_row, neighbor_col);
                    count += self.cells[idx].count();
                }
                j += 1;
            }
            i += 1;
        }
        count
    }

    /// Replaces the grid by its next generation. Every cell of the new grid is
    /// computed from the grid as it was before the call.
    #[verifier::loop_isolation(false)]
    pub fn tick(&mut self)
        ensures
            final(self)@ == old(self)@.step(),
            final(self)@.wf(),
    {
        proof {
            use_type_invariant(&*self);
        }
        let mut next = self.cells.clone();
        let ghost grid = self@;
        let mut row: u32 = 0;
        while row < self.height
            invariant
                grid == self@,
                row <= self.height,
                next.len() == grid.cells.len(),
                forall|i: int| 0 <= i < row * grid.width ==> next[i] == grid.successor_at(i),
            decreases self.height - row,
        {
            let mut column: u32 = 0;
            while column < self.width
                invariant
                    grid == self@,
                    column <= self.width,
                    next.len() == grid.cells.len(),
                    forall|i: int|
                        0 <= i < row * grid.width + column ==> next[i] == grid.successor_at(i),
                decreases self.width - column,
            {
                let idx = self.get_index(row, column);
                let cell = self.cells[idx];
                let live_neighbor = self.live_neighbor_count(row, column);
                let next_cell = cell.next(live_neighbor);
                proof {
                    grid.lemma_index_of(row as int, column as int);
                }
                next[idx] = next_cell;
                column += 1;
            }
            assert(row * grid.width + grid.width == (row + 1) * grid.width) by (nonlinear_arith);
            row += 1;
        }
        assert(next@ =~= grid.step().cells) by {
            assert(grid.height * grid.width == grid.width * grid.height) by (nonlinear_arith);
        }
        self.cells = next;
    }

    /// A universe of 64 rows and 64 columns that holds the initial pattern:
    /// the cell at index `i` of the buffer is alive iff `i` is a multiple of 2
    /// or of 7.
    pub fn new() -> (universe: Universe)
        ensures
            universe@ == Grid::seed(),
            universe@.wf(),
    {
        let width = SEED_WIDTH;
        let height = SEED_HEIGHT;
        let mut cells: Vec<Cell> = Vec::new();
        let mut i: u32 = 0;
        while i < height * width
            invariant
                width == SEED_WIDTH,
                height == SEED_HEIGHT,
                i <= height * width,
                cells@.len() == i,
                forall|k: int| 0 <= k < i ==> cells[k] == Grid::seed_cell(k),
            decreases height * width - i,
        {
            let cell = if i % 2 == 0 || i % 7 == 0 {
                Cell::Alive
            } else {
                Cell::Dead
            };
            cells.push(cell);
            i += 1;
        }
        assert(cells@ =~= Grid::seed().cells);
        Universe { width, height, cells }
    }

    /// A universe of `height` rows and `width` columns that holds `cells`, row
    /// by row. Neither dimension may be 0, and `cells` must hold one cell for
    /// each position: otherwise there is no such universe.
    pub fn from_cells(width: u32, height: u32, cells: Vec<Cell>) -> (out: Option<Universe>)
        ensures
            out is Some <==> width >= 1 && height >= 1 && cells@.len() == width * height,
            out matches Some(universe) ==> universe@ == (Grid {
                width: width as nat,
                height: height as nat,
                cells: cells@,
            }),
    {
        assert(width * height <= 0xffff_ffff * 0xffff_ffff) by (nonlinear_arith)
            requires
                0 <= width <= 0xffff_ffff,
                0 <= height <= 0xffff_ffff,
        ;
        if width == 0 || height == 0 || cells.len() as u64 != width as u64 * height as u64 {
            None
        } else {
            Some(Universe { width, height, cells })
        }
    }

    /// The number of columns.
    pub fn width(&self) -> (width: u32)
        ensures
            width == self@.width,
            width >= 1,
    {
        proof {
            use_type_invariant(self);
        }
        self.width
    }

    /// The number of rows.
    pub fn height(&self) -> (height: u32)
        ensures
            height == self@.height,
            height >= 1,
    {
        proof {
            use_type_invariant(self);
        }
        self.height
    }

    /// The cell buffer, row by row.
    pub fn cells(&self) -> (cells: &[Cell])
        ensures
            cells@ == self@.cells,
            cells@.len() == self@.width * self@.height,
    {
        proof {
            use_type_invariant(self);
        }
        self.cells.as_slice()
    }

    /// The grid as text: one line for each row, and in it `[ ]` for each dead
    /// cell and `[x]` for each live one.
    #[verifier::loop_isolation(false)]
    pub fn render(&self) -> (text: String)
        ensures
            text@ == self@.render(),
    {
        proof {
            use_type_invariant(self);
        }
        let ghost grid = self@;
        let mut text = String::new();
        let mut row: u32 = 0;
        while row < self.height
            invariant
                row <= self.height,
                text@ == grid.lines(row as nat),
            decreases self.height - row,
        {
            let mut column: u32 = 0;
            while column < self.width
                invariant
                    column <= self.width,
                    text@ == grid.lines(row as nat) + grid.row_text(row as int, column as nat),
                decreases self.width - column,
            {
                let idx = self.get_index(row, column);
                let symbol = if self.cells[idx] == Cell::Dead {
                    "[ ]"
                } else {
                    "[x]"
                };
                proof {
                    reveal_strlit("[ ]");
                    reveal_strlit("[x]");
                    assert(symbol@ =~= grid.at(row as int, column as int).glyph());
                }
                text.append(symbol);
                column += 1;
            }
            proof {
                reveal_strlit("\n");
                assert("\n"@ =~= seq!['\n']);
            }
            text.append("\n");
            row += 1;
        }
        text
    }
}

} // verus!

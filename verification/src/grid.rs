use vstd::prelude::*;

verus! {

/// Shown for a live cell: a four-leaf clover.
pub const LIVE_GLYPH: char = '\u{1F340}';

/// Shown for a dead cell.
pub const DEAD_GLYPH: char = ' ';

/// The state of a board as a mathematical value: its dimensions and the
/// liveness of every cell, stored row by row.
pub struct Grid {
    pub width: nat,
    pub height: nat,
    pub cells: Seq<bool>,
}

impl Grid {
    /// Both dimensions are positive and there is exactly one cell per
    /// position.
    pub open spec fn wf(self) -> bool {
        &&& self.width > 0
        &&& self.height > 0
        &&& self.cells.len() == self.width * self.height
    }

    /// `(row, col)` names a position on the board.
    pub open spec fn in_bounds(self, row: int, col: int) -> bool {
        0 <= row < self.height && 0 <= col < self.width
    }

    /// Row-major position of `(row, col)` in `cells`.
    pub open spec fn index_of(self, row: int, col: int) -> int {
        row * self.width + col
    }

    /// Row of the cell stored at `index`.
    pub open spec fn row_of(self, index: int) -> int {
        index / (self.width as int)
    }

    /// Column of the cell stored at `index`.
    pub open spec fn col_of(self, index: int) -> int {
        index % (self.width as int)
    }

    /// The cell at `(row, col)` exists and is alive. Positions off the board
    /// hold no live cell: the edges are hard, nothing wraps around.
    pub open spec fn alive_at(self, row: int, col: int) -> bool {
        self.in_bounds(row, col) && self.cells[self.index_of(row, col)]
    }

    /// One for a live cell at `(row, col)`, zero otherwise.
    pub open spec fn live(self, row: int, col: int) -> int {
        if self.alive_at(row, col) {
            1
        } else {
            0
        }
    }

    /// Live cells among the eight positions that surround `(row, col)`.
    pub open spec fn neighbours_at(self, row: int, col: int) -> int {
        self.live(row - 1, col - 1) + self.live(row - 1, col) + self.live(row - 1, col + 1)
            + self.live(row, col - 1) + self.live(row, col + 1)
            + self.live(row + 1, col - 1) + self.live(row + 1, col) + self.live(row + 1, col + 1)
    }

    /// Live neighbours of the cell stored at `index`.
    pub open spec fn neighbours(self, index: int) -> int {
        self.neighbours_at(self.row_of(index), self.col_of(index))
    }

    /// Every coordinate of `coords`, read as `(row, column)`, lies on the
    /// board.
    pub open spec fn all_in_bounds(self, coords: Seq<(u32, u32)>) -> bool {
        forall|j: int|
            0 <= j < coords.len() ==> self.in_bounds(
                (#[trigger] coords[j]).0 as int,
                coords[j].1 as int,
            )
    }

    /// Some coordinate of `coords` names the cell stored at `index`.
    pub open spec fn marked(self, coords: Seq<(u32, u32)>, index: int) -> bool {
        exists|j: int|
            0 <= j < coords.len() && self.index_of(
                (#[trigger] coords[j]).0 as int,
                coords[j].1 as int,
            ) == index
    }

    /// The board with the cells that `coords` names brought to life and all
    /// others as they were. A coordinate given twice counts once.
    pub open spec fn seeded(self, coords: Seq<(u32, u32)>) -> Grid {
        Grid {
            width: self.width,
            height: self.height,
            cells: Seq::new(self.cells.len(), |i: int| self.cells[i] || self.marked(coords, i)),
        }
    }

    /// How a cell is shown.
    pub open spec fn glyph(alive: bool) -> char {
        if alive {
            LIVE_GLYPH
        } else {
            DEAD_GLYPH
        }
    }

    /// The glyphs of row `row`, one per column from left to right.
    pub open spec fn line(self, row: int) -> Seq<char> {
        Seq::new(self.width, |col: int| Self::glyph(self.cells[self.index_of(row, col)]))
    }

    /// The first `rows` rows as text, each row closed by a line feed.
    pub open spec fn text_upto(self, rows: nat) -> Seq<char>
        decreases rows,
    {
        if rows == 0 {
            Seq::empty()
        } else {
            self.text_upto((rows - 1) as nat) + self.line(rows - 1).push('\n')
        }
    }

    /// The whole board as text: `height` lines of `width` glyphs.
    pub open spec fn text(self) -> Seq<char> {
        self.text_upto(self.height)
    }

    /// Whether a cell is alive in the next generation, given its state and
    /// its number of live neighbours in this one.
    pub open spec fn rule(alive: bool, neighbours: int) -> bool {
        if alive {
            neighbours == 2 || neighbours == 3
        } else {
            neighbours == 3
        }
    }

    /// The next generation: every cell is decided from this generation alone.
    pub open spec fn step(self) -> Grid {
        Grid {
            width: self.width,
            height: self.height,
            cells: Seq::new(
                self.cells.len(),
                |i: int| Self::rule(self.cells[i], self.neighbours(i)),
            ),
        }
    }
}

} // verus!

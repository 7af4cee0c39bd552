use vstd::prelude::*;
use crate::error::BoardError;
use crate::grid::Grid;
use crate::laws::{lemma_index_in_range, lemma_one_more_seed};
use vstd::string::StringExecFns;

verus! {

/// One position of the board.
#[derive(Clone, Copy, Debug, PartialEq, Eq, Structural)]
pub struct Cell {
    pub alive: bool,
}

/// A rectangular board of cells, stored row by row.
#[derive(Debug)]
pub struct Board {
    width: u32,
    height: u32,
    cells: Vec<Cell>,
}

impl View for Board {
    type V = Grid;

    closed spec fn view(&self) -> Grid {
        Grid {
            width: self.width as nat,
            height: self.height as nat,
            cells: self.cells@.map_values(|c: Cell| c.alive),
        }
    }
}

/// The text that shows one cell.
fn glyph_text(alive: bool) -> (shown: &'static str)
    ensures
        shown@ == seq![Grid::glyph(alive)],
{
    proof {
        reveal_strlit("\u{1F340}");
        reveal_strlit(" ");
    }
    if alive {
        "\u{1F340}"
    } else {
        " "
    }
}

impl Board {
    #[verifier::type_invariant]
    spec fn inv(self) -> bool {
        self@.wf()
    }

    /// A board of `width` by `height` cells, all of them dead.
    ///
    /// Neither dimension may be zero. The number of cells has to fit in a
    /// `usize`.
    pub fn new(width: u32, height: u32) -> (made: Result<Board, BoardError>)
        requires
            width * height <= usize::MAX,
        ensures
            width == 0 || height == 0 ==> made == Err::<Board, BoardError>(
                BoardError::InvalidDimension,
            ),
            width > 0 && height > 0 ==> made is Ok,
            made matches Ok(board) ==> {
                &&& board@.wf()
                &&& board@.width == width
                &&& board@.height == height
                &&& board@.cells.len() == width * height
                &&& forall|i: int| 0 <= i < board@.cells.len() ==> !board@.cells[i]
            },
    {
        if width == 0 || height == 0 {
            return Err(BoardError::InvalidDimension);
        }
        let count: usize = (width as usize) * (height as usize);
        let mut cells: Vec<Cell> = Vec::new();
        let mut i: usize = 0;
        while i < count
            invariant
                i <= count,
                cells.len() == i,
                forall|k: int| 0 <= k < i ==> !cells[k].alive,
            decreases count - i,
        {
            cells.push(Cell { alive: false });
            i = i + 1;
        }
        Ok(Board { width, height, cells })
    }

    /// Number of columns.
    pub fn width(&self) -> (width: u32)
        ensures
            width == self@.width,
            self@.wf(),
    {
        proof {
            use_type_invariant(self);
        }
        self.width
    }

    /// Number of rows.
    pub fn height(&self) -> (height: u32)
        ensures
            height == self@.height,
            self@.wf(),
    {
        proof {
            use_type_invariant(self);
        }
        self.height
    }

    /// The cells, row by row from the top and from left to right in each row.
    pub fn cells(&self) -> (cells: &Vec<Cell>)
        ensures
            cells@.len() == self@.cells.len(),
            forall|i: int| 0 <= i < cells@.len() ==> cells@[i].alive == self@.cells[i],
            self@.wf(),
    {
        proof {
            use_type_invariant(self);
        }
        &self.cells
    }

    /// Brings to life the cells that `states` names, each as `(row, column)`.
    ///
    /// The board is changed only if every coordinate is accepted: on an error
    /// it is left as it was found.
    pub fn init_state(&mut self, states: Vec<(u32, u32)>) -> (done: Result<(), BoardError>)
        ensures
            states@.len() > old(self)@.cells.len() ==> done == Err::<(), BoardError>(
                BoardError::TooManySeeds,
            ),
            states@.len() <= old(self)@.cells.len() && !old(self)@.all_in_bounds(states@) ==> done
                == Err::<(), BoardError>(BoardError::IndexOutOfBounds),
            states@.len() <= old(self)@.cells.len() && old(self)@.all_in_bounds(states@)
                ==> done is Ok,
            done is Ok ==> final(self)@ == old(self)@.seeded(states@),
            done is Err ==> final(self)@ == old(self)@,
            final(self)@.wf(),
    {
        proof {
            use_type_invariant(&*self);
        }
        if states.len() > self.cells.len() {
            return Err(BoardError::TooManySeeds);
        }
        let mut seeded: Vec<Cell> = self.cells.clone();
        let mut i: usize = 0;
        while i < states.len()
            invariant
                *self == *old(self),
                self@.wf(),
                i <= states.len() <= self.cells.len(),
                seeded.len() == self.cells.len(),
                self@.all_in_bounds(states@.take(i as int)),
                forall|k: int|
                    0 <= k < seeded.len() ==> (#[trigger] seeded[k]).alive == (self@.cells[k]
                        || self@.marked(states@.take(i as int), k)),
            decreases states.len() - i,
        {
            let state: (u32, u32) = states[i];
            proof {
                assert(states@.take(i + 1) =~= states@.take(i as int).push(state));
                lemma_one_more_seed(self@, states@.take(i as int), state);
            }
            match self.calculate_index(state) {
                Ok(index) => {
                    seeded[index].alive = true;
                },
                Err(error) => {
                    return Err(error);
                },
            }
            i = i + 1;
        }
        assert(states@.take(i as int) =~= states@);
        self.cells = seeded;
        assert(self@.cells =~= old(self)@.seeded(states@).cells);
        Ok(())
    }

    /// Where the cell at `position`, given as `(row, column)`, is stored.
    ///
    /// Row and column are held to the board's height and width one by one, so
    /// no position off the board passes for another cell.
    pub fn calculate_index(&self, position: (u32, u32)) -> (found: Result<usize, BoardError>)
        ensures
            match found {
                Ok(index) => {
                    &&& self@.in_bounds(position.0 as int, position.1 as int)
                    &&& index == self@.index_of(position.0 as int, position.1 as int)
                    &&& index < self@.cells.len()
                },
                Err(error) => {
                    &&& !self@.in_bounds(position.0 as int, position.1 as int)
                    &&& error == BoardError::IndexOutOfBounds
                },
            },
            self@.index_of(position.0 as int, position.1 as int) >= self@.cells.len()
                ==> found is Err,
    {
        proof {
            use_type_invariant(self);
            if self@.in_bounds(position.0 as int, position.1 as int) {
                lemma_index_in_range(self@, position.0 as int, position.1 as int);
            }
        }
        if position.0 >= self.height || position.1 >= self.width {
            return Err(BoardError::IndexOutOfBounds);
        }
        Ok(self.slot(position.0 as usize, position.1 as usize))
    }

    /// Row-major slot of a position that lies on the board.
    fn slot(&self, row: usize, col: usize) -> (index: usize)
        requires
            self@.in_bounds(row as int, col as int),
        ensures
            index == self@.index_of(row as int, col as int),
            index < self@.cells.len(),
    {
        proof {
            use_type_invariant(self);
            lemma_index_in_range(self@, row as int, col as int);
            assert(self@.cells.len() == self.cells.len());
            assert(0 <= row * self.width) by (nonlinear_arith);
        }
        row * (self.width as usize) + col
    }

    /// Whether the cell at a position on the board is alive.
    fn cell_alive(&self, row: usize, col: usize) -> (alive: bool)
        requires
            self@.in_bounds(row as int, col as int),
        ensures
            alive == self@.alive_at(row as int, col as int),
    {
        let index: usize = self.slot(row, col);
        self.cells[index].alive
    }

    /// Advances the board by one generation.
    ///
    /// Every cell is decided from the generation that the call found: the
    /// new generation is built aside and put in place as a whole.
    pub fn tick(&mut self)
        ensures
            final(self)@ == old(self)@.step(),
            final(self)@.wf(),
    {
        proof {
            use_type_invariant(&*self);
        }
        let mut new_board: Vec<Cell> = self.cells.clone();
        let mut i: usize = 0;
        while i < self.cells.len()
            invariant
                *self == *old(self),
                self@.wf(),
                i <= self.cells.len(),
                new_board.len() == self.cells.len(),
                forall|k: int|
                    0 <= k < i ==> new_board[k].alive == Grid::rule(
                        self@.cells[k],
                        self@.neighbours(k),
                    ),
                forall|k: int| i <= k < self.cells.len() ==> new_board[k] == self.cells[k],
            decreases self.cells.len() - i,
        {
            let cell: Cell = self.cells[i];
            let alive_neighbours: i32 = self.get_alive_neighbours(i);

            if alive_neighbours < 2 && cell.alive {
                // die
                new_board[i].alive = false;
            } else if (alive_neighbours == 2 || alive_neighbours == 3) && cell.alive {
                // live
                new_board[i].alive = true;
            } else if alive_neighbours == 3 && !cell.alive {
                // become alive
                new_board[i].alive = true;
            } else if alive_neighbours > 3 && cell.alive {
                // die
                new_board[i].alive = false;
            }
            i = i + 1;
        }
        self.cells = new_board;
        assert(self@.cells =~= old(self)@.step().cells);
    }

    /// The board as text, one line per row from the top, each line holding
    /// one glyph per column and ending in a line feed.
    pub fn render(&self) -> (text: String)
        ensures
            text@ == self@.text(),
    {
        proof {
            use_type_invariant(self);
        }
        let mut text: String = String::new();
        let mut row: u32 = 0;
        while row < self.height
            invariant
                self@.wf(),
                row <= self.height,
                text@ == self@.text_upto(row as nat),
            decreases self.height - row,
        {
            let ghost above = text@;
            let ghost line = self@.line(row as int);
            let mut col: u32 = 0;
            while col < self.width
                invariant
                    self@.wf(),
                    row < self.height,
                    col <= self.width,
                    line == self@.line(row as int),
                    text@ == above + line.take(col as int),
                decreases self.width - col,
            {
                text.append(glyph_text(self.cell_alive(row as usize, col as usize)));
                assert(line.take(col + 1) =~= line.take(col as int).push(line[col as int]));
                col = col + 1;
            }
            proof {
                reveal_strlit("\n");
            }
            text.append("\n");
            assert(text@ =~= above + line.push('\n'));
            row = row + 1;
        }
        text
    }

    /// How many of the cells around the one stored at `index` are alive.
    ///
    /// The eight surrounding positions are taken on the two-dimensional board:
    /// one that falls off an edge counts for nothing, and the last cell of a
    /// row is no neighbour of the first cell of the next. An `index` past the
    /// last cell stands for the position below the board that the row-major
    /// order gives it.
    pub fn get_alive_neighbours(&self, index: usize) -> (count: i32)
        ensures
            count == self@.neighbours(index as int),
            0 <= count <= 8,
    {
        proof {
            use_type_invariant(self);
        }
        let width: usize = self.width as usize;
        let height: usize = self.height as usize;
        let row: usize = index / width;
        let col: usize = index % width;
        let mut count: i32 = 0;
        // top left
        if 0 < row && row <= height && 0 < col {
            if self.cell_alive(row - 1, col - 1) {
                count = count + 1;
            }
        }
        // top
        if 0 < row && row <= height {
            if self.cell_alive(row - 1, col) {
                count = count + 1;
            }
        }
        // top right
        if 0 < row && row <= height && col < width - 1 {
            if self.cell_alive(row - 1, col + 1) {
                count = count + 1;
            }
        }
        // right
        if row < height && col < width - 1 {
            if self.cell_alive(row, col + 1) {
                count = count + 1;
            }
        }
        // bottom right
        if row < height - 1 && col < width - 1 {
            if self.cell_alive(row + 1, col + 1) {
                count = count + 1;
            }
        }
        // bottom
        if row < height - 1 {
            if self.cell_alive(row + 1, col) {
                count = count + 1;
            }
        }
        // bottom left
        if row < height - 1 && 0 < col {
            if self.cell_alive(row + 1, col - 1) {
                count = count + 1;
            }
        }
        // left
        if row < height && 0 < col {
            if self.cell_alive(row, col - 1) {
                count = count + 1;
            }
        }
        count
    }
}

} // verus!

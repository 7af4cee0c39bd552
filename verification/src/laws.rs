//! What holds of every board, stated over [`Grid`] and proved once.

use crate::grid::Grid;
use vstd::arithmetic::div_mod::{
    lemma_div_pos_is_pos, lemma_fundamental_div_mod, lemma_fundamental_div_mod_converse,
    lemma_mod_bound,
};
use vstd::prelude::*;

verus! {

/// One for `true`, zero for `false`.
pub open spec fn count_of(alive: bool) -> int {
    if alive {
        1
    } else {
        0
    }
}

/// `other` touches `(row, col)`: it is at most one step away in each
/// direction and is not `(row, col)` itself.
pub open spec fn adjacent(row: int, col: int, other: (int, int)) -> bool {
    &&& row - 1 <= other.0 <= row + 1
    &&& col - 1 <= other.1 <= col + 1
    &&& other != (row, col)
}

/// The positions around `(row, col)` that lie on the board and hold a live
/// cell.
pub open spec fn live_around(g: Grid, row: int, col: int) -> Set<(int, int)> {
    Set::new(|p: (int, int)| adjacent(row, col, p) && g.alive_at(p.0, p.1))
}

/// `s` with `p` added if the cell at `p` is alive.
spec fn with_live(g: Grid, s: Set<(int, int)>, p: (int, int)) -> Set<(int, int)> {
    if g.alive_at(p.0, p.1) {
        s.insert(p)
    } else {
        s
    }
}

/// Every position on the board has its own slot in `cells`.
pub proof fn lemma_index_in_range(g: Grid, row: int, col: int)
    requires
        g.wf(),
        g.in_bounds(row, col),
    ensures
        0 <= g.index_of(row, col) < g.cells.len(),
{
    let w: int = g.width as int;
    let h: int = g.height as int;
    assert(0 <= row * w && row * w + w <= h * w) by (nonlinear_arith)
        requires
            0 <= row < h,
            0 < w,
    ;
    assert(h * w == w * h) by (nonlinear_arith);
}

/// The slot of a position on the board leads back to that position: no two
/// positions share a slot.
pub proof fn lemma_position_of_slot(g: Grid, row: int, col: int)
    requires
        g.wf(),
        g.in_bounds(row, col),
    ensures
        0 <= g.index_of(row, col) < g.cells.len(),
        g.row_of(g.index_of(row, col)) == row,
        g.col_of(g.index_of(row, col)) == col,
{
    lemma_index_in_range(g, row, col);
    lemma_fundamental_div_mod_converse(g.index_of(row, col), g.width as int, row, col);
}

/// Every slot is the slot of a position on the board.
pub proof fn lemma_slot_of_position(g: Grid, index: int)
    requires
        g.wf(),
        0 <= index < g.cells.len(),
    ensures
        g.in_bounds(g.row_of(index), g.col_of(index)),
        g.index_of(g.row_of(index), g.col_of(index)) == index,
{
    let w: int = g.width as int;
    let h: int = g.height as int;
    let q: int = index / w;
    let r: int = index % w;
    lemma_fundamental_div_mod(index, w);
    lemma_mod_bound(index, w);
    lemma_div_pos_is_pos(index, w);
    assert(q < h && q * w == w * q) by (nonlinear_arith)
        requires
            index == w * q + r,
            0 <= r,
            index < w * h,
            0 < w,
    ;
}

/// The neighbour count of a cell is the number of live cells on the board
/// among the positions that touch it. A cell in the middle has eight such
/// positions; on an edge or in a corner the ones off the board drop out.
pub proof fn lemma_neighbours_are_the_live_cells_around(g: Grid, row: int, col: int)
    ensures
        live_around(g, row, col).finite(),
        g.neighbours_at(row, col) == live_around(g, row, col).len(),
        0 <= g.neighbours_at(row, col) <= 8,
{
    let s0: Set<(int, int)> = Set::empty();
    let s1 = with_live(g, s0, (row - 1, col - 1));
    let s2 = with_live(g, s1, (row - 1, col));
    let s3 = with_live(g, s2, (row - 1, col + 1));
    let s4 = with_live(g, s3, (row, col - 1));
    let s5 = with_live(g, s4, (row, col + 1));
    let s6 = with_live(g, s5, (row + 1, col - 1));
    let s7 = with_live(g, s6, (row + 1, col));
    let s8 = with_live(g, s7, (row + 1, col + 1));
    assert(s1.len() == g.live(row - 1, col - 1));
    assert(s2.len() == s1.len() + g.live(row - 1, col));
    assert(s3.len() == s2.len() + g.live(row - 1, col + 1));
    assert(s4.len() == s3.len() + g.live(row, col - 1));
    assert(s5.len() == s4.len() + g.live(row, col + 1));
    assert(s6.len() == s5.len() + g.live(row + 1, col - 1));
    assert(s7.len() == s6.len() + g.live(row + 1, col));
    assert(s8.len() == s7.len() + g.live(row + 1, col + 1));
    assert(s8 =~= live_around(g, row, col));
}

/// Away from the edges the eight neighbours of the cell in slot `i` are the
/// slots `i - width - 1`, `i - width`, `i - width + 1`, `i - 1`, `i + 1`,
/// `i + width - 1`, `i + width` and `i + width + 1`.
pub proof fn lemma_neighbours_in_the_middle(g: Grid, row: int, col: int)
    requires
        g.wf(),
        0 < row < g.height - 1,
        0 < col < g.width - 1,
    ensures
        ({
            let i: int = g.index_of(row, col);
            let w: int = g.width as int;
            &&& w + 1 <= i < g.cells.len() - w - 1
            &&& g.neighbours(i) == count_of(g.cells[i - w - 1]) + count_of(g.cells[i - w])
                + count_of(g.cells[i - w + 1]) + count_of(g.cells[i - 1]) + count_of(
                g.cells[i + 1],
            ) + count_of(g.cells[i + w - 1]) + count_of(g.cells[i + w]) + count_of(
                g.cells[i + w + 1],
            )
        }),
{
    let w: int = g.width as int;
    lemma_position_of_slot(g, row, col);
    lemma_index_in_range(g, row - 1, col - 1);
    lemma_index_in_range(g, row + 1, col + 1);
    assert((row - 1) * w == row * w - w && (row + 1) * w == row * w + w) by (nonlinear_arith);
}

/// In the top left corner only the three positions to the right and below
/// are counted.
pub proof fn lemma_neighbours_in_the_corner(g: Grid)
    requires
        g.wf(),
        g.width >= 2,
        g.height >= 2,
    ensures
        ({
            let w: int = g.width as int;
            &&& w + 1 < g.cells.len()
            &&& g.neighbours(0) == count_of(g.cells[1]) + count_of(g.cells[w]) + count_of(
                g.cells[w + 1],
            )
        }),
{
    let w: int = g.width as int;
    lemma_position_of_slot(g, 0, 0);
    lemma_index_in_range(g, 1, 1);
    assert(0 * w == 0 && 1 * w == w) by (nonlinear_arith);
}

/// On the top edge, between the corners, only the five positions beside and
/// below are counted.
pub proof fn lemma_neighbours_on_the_edge(g: Grid, col: int)
    requires
        g.wf(),
        g.height >= 2,
        0 < col < g.width - 1,
    ensures
        ({
            let w: int = g.width as int;
            &&& col + w + 1 < g.cells.len()
            &&& g.neighbours(col) == count_of(g.cells[col - 1]) + count_of(g.cells[col + 1])
                + count_of(g.cells[col + w - 1]) + count_of(g.cells[col + w]) + count_of(
                g.cells[col + w + 1],
            )
        }),
{
    let w: int = g.width as int;
    lemma_position_of_slot(g, 0, col);
    lemma_index_in_range(g, 1, col + 1);
    assert(0 * w == 0 && 1 * w == w) by (nonlinear_arith);
}

/// A generation later the board has the same shape.
pub proof fn lemma_step_keeps_the_shape(g: Grid)
    requires
        g.wf(),
    ensures
        g.step().wf(),
        g.step().width == g.width,
        g.step().height == g.height,
        g.step().cells.len() == g.cells.len(),
{
}

/// Each cell of the next generation is decided by the rule from its own
/// state and its neighbour count in the generation before: what becomes of
/// other cells in the same step plays no part.
pub proof fn lemma_step_decides_from_the_generation_before(g: Grid, index: int)
    requires
        g.wf(),
        0 <= index < g.cells.len(),
    ensures
        g.step().cells[index] == Grid::rule(g.cells[index], g.neighbours(index)),
{
}

/// Of two steps in a row the second is decided from the whole outcome of
/// the first, cell by cell, as the first was from the board it found.
pub proof fn lemma_two_steps(g: Grid, index: int)
    requires
        g.wf(),
        0 <= index < g.cells.len(),
    ensures
        g.step().step().wf(),
        g.step().step().cells[index] == Grid::rule(
            g.step().cells[index],
            g.step().neighbours(index),
        ),
        g.step().cells[index] == Grid::rule(g.cells[index], g.neighbours(index)),
{
}

/// The next state of a cell depends only on the cell and on the positions
/// that touch it: two boards of one shape that agree there agree on that cell
/// a generation later, whatever else they hold.
pub proof fn lemma_step_is_local(a: Grid, b: Grid, row: int, col: int)
    requires
        a.wf(),
        b.wf(),
        a.width == b.width,
        a.height == b.height,
        a.in_bounds(row, col),
        a.alive_at(row, col) == b.alive_at(row, col),
        forall|r: int, c: int|
            adjacent(row, col, (r, c)) ==> a.alive_at(r, c) == #[trigger] b.alive_at(r, c),
    ensures
        a.step().alive_at(row, col) == b.step().alive_at(row, col),
{
    lemma_position_of_slot(a, row, col);
    lemma_position_of_slot(b, row, col);
    assert(b.alive_at(row - 1, col - 1) == a.alive_at(row - 1, col - 1));
    assert(b.alive_at(row - 1, col) == a.alive_at(row - 1, col));
    assert(b.alive_at(row - 1, col + 1) == a.alive_at(row - 1, col + 1));
    assert(b.alive_at(row, col - 1) == a.alive_at(row, col - 1));
    assert(b.alive_at(row, col + 1) == a.alive_at(row, col + 1));
    assert(b.alive_at(row + 1, col - 1) == a.alive_at(row + 1, col - 1));
    assert(b.alive_at(row + 1, col) == a.alive_at(row + 1, col));
    assert(b.alive_at(row + 1, col + 1) == a.alive_at(row + 1, col + 1));
}

/// A live cell with fewer than two live neighbours dies. In particular a
/// live cell with no live neighbour at all does.
pub proof fn lemma_underpopulation(g: Grid, index: int)
    requires
        g.wf(),
        0 <= index < g.cells.len(),
        g.cells[index],
        g.neighbours(index) < 2,
    ensures
        !g.step().cells[index],
{
}

/// A live cell with two or three live neighbours stays alive.
pub proof fn lemma_survival(g: Grid, index: int)
    requires
        g.wf(),
        0 <= index < g.cells.len(),
        g.cells[index],
        g.neighbours(index) == 2 || g.neighbours(index) == 3,
    ensures
        g.step().cells[index],
{
}

/// A live cell with more than three live neighbours dies.
pub proof fn lemma_overpopulation(g: Grid, index: int)
    requires
        g.wf(),
        0 <= index < g.cells.len(),
        g.cells[index],
        g.neighbours(index) > 3,
    ensures
        !g.step().cells[index],
{
}

/// A dead cell with exactly three live neighbours comes to life.
pub proof fn lemma_birth(g: Grid, index: int)
    requires
        g.wf(),
        0 <= index < g.cells.len(),
        !g.cells[index],
        g.neighbours(index) == 3,
    ensures
        g.step().cells[index],
{
}

/// A dead cell with any other number of live neighbours stays dead.
pub proof fn lemma_stays_dead(g: Grid, index: int)
    requires
        g.wf(),
        0 <= index < g.cells.len(),
        !g.cells[index],
        g.neighbours(index) != 3,
    ensures
        !g.step().cells[index],
{
}

/// A board without a live cell has none a generation later.
pub proof fn lemma_dead_board_stays_dead(g: Grid)
    requires
        g.wf(),
        forall|i: int| 0 <= i < g.cells.len() ==> !g.cells[i],
    ensures
        g.step() == g,
{
    assert forall|i: int| 0 <= i < g.cells.len() implies !g.step().cells[i] by {
        let around = live_around(g, g.row_of(i), g.col_of(i));
        assert forall|p: (int, int)| !around.contains(p) by {
            if g.in_bounds(p.0, p.1) {
                lemma_index_in_range(g, p.0, p.1);
            }
        }
        assert(around =~= Set::empty());
        lemma_neighbours_are_the_live_cells_around(g, g.row_of(i), g.col_of(i));
    }
    assert(g.step().cells =~= g.cells);
}

/// Seeding with one more coordinate marks the cell that it names and no
/// other, and is accepted if the coordinate lies on the board.
pub proof fn lemma_one_more_seed(g: Grid, coords: Seq<(u32, u32)>, next: (u32, u32))
    ensures
        g.all_in_bounds(coords.push(next)) == (g.all_in_bounds(coords) && g.in_bounds(
            next.0 as int,
            next.1 as int,
        )),
        forall|index: int| #[trigger]
            g.marked(coords.push(next), index) == (g.marked(coords, index) || g.index_of(
                next.0 as int,
                next.1 as int,
            ) == index),
{
    let more = coords.push(next);
    let last: int = coords.len() as int;
    assert(more[last] == next);
    assert forall|j: int| 0 <= j < coords.len() implies more[j] == coords[j] by {}
    if g.all_in_bounds(more) {
        assert forall|j: int| 0 <= j < coords.len() implies g.in_bounds(
            (#[trigger] coords[j]).0 as int,
            coords[j].1 as int,
        ) by {
            assert(more[j] == coords[j]);
        }
    }
    assert forall|index: int| #[trigger]
        g.marked(more, index) == (g.marked(coords, index) || g.index_of(
            next.0 as int,
            next.1 as int,
        ) == index) by {
        if g.marked(coords, index) {
            let j: int = choose|j: int|
                0 <= j < coords.len() && g.index_of(
                    (#[trigger] coords[j]).0 as int,
                    coords[j].1 as int,
                ) == index;
            assert(more[j] == coords[j]);
        }
        if g.marked(more, index) {
            let j: int = choose|j: int|
                0 <= j < more.len() && g.index_of(
                    (#[trigger] more[j]).0 as int,
                    more[j].1 as int,
                ) == index;
            if j < last {
                assert(coords[j] == more[j]);
            }
        }
    }
}

/// Seeding a board with coordinates that all lie on it brings exactly the
/// named cells to life: afterwards a position holds a live cell if and only
/// if it held one before or is among the coordinates.
pub proof fn lemma_seeded_cells(g: Grid, coords: Seq<(u32, u32)>, row: u32, col: u32)
    requires
        g.wf(),
        g.all_in_bounds(coords),
        g.in_bounds(row as int, col as int),
    ensures
        g.seeded(coords).wf(),
        g.seeded(coords).alive_at(row as int, col as int) == (g.alive_at(row as int, col as int)
            || coords.contains((row, col))),
{
    let index: int = g.index_of(row as int, col as int);
    lemma_position_of_slot(g, row as int, col as int);
    if coords.contains((row, col)) {
        let j: int = choose|j: int| 0 <= j < coords.len() && coords[j] == (row, col);
        assert(g.index_of(coords[j].0 as int, coords[j].1 as int) == index);
    }
    if g.marked(coords, index) {
        let j: int = choose|j: int|
            0 <= j < coords.len() && g.index_of(
                (#[trigger] coords[j]).0 as int,
                coords[j].1 as int,
            ) == index;
        lemma_position_of_slot(g, coords[j].0 as int, coords[j].1 as int);
        assert(coords[j] == (row, col));
    }
}

/// Seeding with no coordinates changes nothing.
pub proof fn lemma_seeded_with_nothing(g: Grid)
    requires
        g.wf(),
    ensures
        g.seeded(Seq::empty()) == g,
{
    assert(g.seeded(Seq::empty()).cells =~= g.cells);
}

/// The text of the first `rows` rows holds `width + 1` characters per row:
/// the glyphs of the row from left to right, then a line feed.
pub proof fn lemma_text_upto_layout(g: Grid, rows: nat, row: int, col: int)
    requires
        0 <= row < rows,
        0 <= col < g.width,
    ensures
        g.text_upto(rows).len() == rows * (g.width + 1),
        0 <= row * (g.width + 1) + col < row * (g.width + 1) + g.width < rows * (g.width + 1),
        g.text_upto(rows)[row * (g.width + 1) + col] == Grid::glyph(
            g.cells[g.index_of(row, col)],
        ),
        g.text_upto(rows)[row * (g.width + 1) + g.width] == '\n',
    decreases rows,
{
    let w: int = g.width as int;
    let above: nat = (rows - 1) as nat;
    lemma_text_upto_len(g, above);
    lemma_text_upto_len(g, rows);
    assert(rows * (w + 1) == above * (w + 1) + (w + 1)) by (nonlinear_arith)
        requires
            above == rows - 1,
    ;
    assert(0 <= row * (w + 1) && row * (w + 1) + (w + 1) <= rows * (w + 1)) by (nonlinear_arith)
        requires
            0 <= row < rows,
            0 <= w,
    ;
    if row < above {
        lemma_text_upto_layout(g, above, row, col);
    } else {
        assert(g.line(row)[col] == Grid::glyph(g.cells[g.index_of(row, col)]));
    }
}

/// The text of the first `rows` rows holds `rows * (width + 1)` characters.
pub proof fn lemma_text_upto_len(g: Grid, rows: nat)
    ensures
        g.text_upto(rows).len() == rows * (g.width + 1),
    decreases rows,
{
    let w: int = g.width as int;
    if rows == 0 {
        assert(0 * (w + 1) == 0) by (nonlinear_arith);
    } else {
        let above: nat = (rows - 1) as nat;
        lemma_text_upto_len(g, above);
        assert(rows * (w + 1) == above * (w + 1) + (w + 1)) by (nonlinear_arith)
            requires
                above == rows - 1,
        ;
    }
}

/// The text of a board is `height` lines of `width` glyphs, row by row from
/// the top, each line closed by a line feed.
pub proof fn lemma_text_layout(g: Grid, row: int, col: int)
    requires
        g.in_bounds(row, col),
    ensures
        g.text().len() == g.height * (g.width + 1),
        0 <= row * (g.width + 1) + col < row * (g.width + 1) + g.width < g.text().len(),
        g.text()[row * (g.width + 1) + col] == Grid::glyph(g.cells[g.index_of(row, col)]),
        g.text()[row * (g.width + 1) + g.width] == '\n',
{
    lemma_text_upto_layout(g, g.height, row, col);
}

} // verus!

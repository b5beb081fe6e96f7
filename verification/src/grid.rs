//! The board as a mathematical object, and the rules of the game stated on it.
//!
//! A grid is a sequence of three rows of three marks each. A cell is named by
//! its row and its column, both counted from zero. Eight lines run over the
//! grid: three rows, three columns and two diagonals.

use vstd::prelude::*;
use crate::symbol::Symbol;

verus! {

/// The marks on a board, row by row.
pub type Grid = Seq<Seq<Symbol>>;

/// Whether `row` and `col` name a cell of the board.
pub open spec fn on_board(row: int, col: int) -> bool {
    0 <= row < 3 && 0 <= col < 3
}

/// Whether `grid` has the shape of a board: three rows of three cells.
pub open spec fn is_grid(grid: Grid) -> bool {
    &&& grid.len() == 3
    &&& forall|row: int| 0 <= row < 3 ==> (#[trigger] grid[row]).len() == 3
}

/// The board on which nothing has been played.
pub open spec fn empty_grid() -> Grid {
    Seq::new(3, |row: int| Seq::new(3, |col: int| Symbol::Empty))
}

/// The mark in the cell that `cell` names by row and column.
pub open spec fn mark_at(grid: Grid, cell: (int, int)) -> Symbol {
    grid[cell.0][cell.1]
}

/// Whether the cell at `row` and `col` is still empty.
pub open spec fn is_free(grid: Grid, row: int, col: int) -> bool {
    mark_at(grid, (row, col)) == Symbol::Empty
}

/// The grid after `mark` has been written into the cell at `row` and `col`;
/// every other cell is as it was.
pub open spec fn place(grid: Grid, row: int, col: int, mark: Symbol) -> Grid {
    grid.update(row, grid[row].update(col, mark))
}

/// Whether every cell of the grid holds a mark.
pub open spec fn is_full(grid: Grid) -> bool {
    forall|row: int, col: int| on_board(row, col) ==> !#[trigger] is_free(grid, row, col)
}

/// One of the eight lines of three cells on which a game can be won.
pub enum Line {
    /// The row with the given index.
    Row(int),
    /// The column with the given index.
    Column(int),
    /// The diagonal from the top left to the bottom right.
    Diagonal,
    /// The diagonal from the top right to the bottom left.
    AntiDiagonal,
}

impl Line {
    /// Whether the line lies on the board: a row or column index is below three.
    pub open spec fn valid(self) -> bool {
        match self {
            Line::Row(row) => 0 <= row < 3,
            Line::Column(col) => 0 <= col < 3,
            Line::Diagonal => true,
            Line::AntiDiagonal => true,
        }
    }

    /// The three cells of the line.
    pub open spec fn cells(self) -> Seq<(int, int)> {
        match self {
            Line::Row(row) => seq![(row, 0), (row, 1), (row, 2)],
            Line::Column(col) => seq![(0, col), (1, col), (2, col)],
            Line::Diagonal => seq![(0, 0), (1, 1), (2, 2)],
            Line::AntiDiagonal => seq![(0, 2), (1, 1), (2, 0)],
        }
    }

    /// Whether the cell at `row` and `col` is one of the line's cells.
    pub open spec fn passes_through(self, row: int, col: int) -> bool {
        self.cells().contains((row, col))
    }

    /// Whether all three cells of the line hold `mark`.
    pub open spec fn held_by(self, grid: Grid, mark: Symbol) -> bool {
        forall|i: int| 0 <= i < 3 ==> mark_at(grid, #[trigger] self.cells()[i]) == mark
    }

    /// Whether one player's mark fills the line.
    pub open spec fn complete(self, grid: Grid) -> bool {
        self.held_by(grid, Symbol::X) || self.held_by(grid, Symbol::O)
    }
}

/// Whether `mark` fills one of the eight lines of the grid.
pub open spec fn has_line(grid: Grid, mark: Symbol) -> bool {
    exists|line: Line| #[trigger] line.valid() && line.held_by(grid, mark)
}

/// Whether a complete line runs through the cell at `row` and `col`: the
/// question to ask after a mark has been placed there.
pub open spec fn wins_at(grid: Grid, row: int, col: int) -> bool {
    exists|line: Line| #[trigger] line.valid() && line.passes_through(row, col) && line.complete(grid)
}

/// Whether any line of the grid is complete.
pub open spec fn has_complete_line(grid: Grid) -> bool {
    has_line(grid, Symbol::X) || has_line(grid, Symbol::O)
}

/// A line is held by a mark exactly when each of its three cells holds it.
pub proof fn lemma_held_by_cells(line: Line, grid: Grid, mark: Symbol)
    ensures
        line.held_by(grid, mark) <==> {
            &&& mark_at(grid, line.cells()[0]) == mark
            &&& mark_at(grid, line.cells()[1]) == mark
            &&& mark_at(grid, line.cells()[2]) == mark
        },
{
}

/// The lines through a cell are its row, its column, and each diagonal that
/// the cell lies on.
pub proof fn lemma_lines_through(line: Line, row: int, col: int)
    requires
        on_board(row, col),
        line.valid(),
    ensures
        line.passes_through(row, col) <==> match line {
            Line::Row(r) => r == row,
            Line::Column(c) => c == col,
            Line::Diagonal => row == col,
            Line::AntiDiagonal => row + col == 2,
        },
{
    let cells = line.cells();
    if line.passes_through(row, col) {
        let i = choose|i: int| 0 <= i < cells.len() && cells[i] == (row, col);
        assert(cells[i] == (row, col));
    }
    match line {
        Line::Row(r) => {
            if r == row {
                assert(cells[col] == (row, col));
            }
        },
        Line::Column(c) => {
            if c == col {
                assert(cells[row] == (row, col));
            }
        },
        Line::Diagonal => {
            if row == col {
                assert(cells[row] == (row, col));
            }
        },
        Line::AntiDiagonal => {
            if row + col == 2 {
                assert(cells[row] == (row, col));
            }
        },
    }
}

/// A cell wins exactly when its row, its column, or a diagonal that it lies
/// on is complete: no other line needs to be looked at.
pub proof fn lemma_wins_at_lines(grid: Grid, row: int, col: int)
    requires
        on_board(row, col),
    ensures
        wins_at(grid, row, col) <==> {
            ||| Line::Row(row).complete(grid)
            ||| Line::Column(col).complete(grid)
            ||| row == col && Line::Diagonal.complete(grid)
            ||| row + col == 2 && Line::AntiDiagonal.complete(grid)
        },
{
    lemma_lines_through(Line::Row(row), row, col);
    lemma_lines_through(Line::Column(col), row, col);
    lemma_lines_through(Line::Diagonal, row, col);
    lemma_lines_through(Line::AntiDiagonal, row, col);
    assert(Line::Row(row).valid() && Line::Column(col).valid());
    assert(Line::Diagonal.valid() && Line::AntiDiagonal.valid());
    if wins_at(grid, row, col) {
        let line = choose|line: Line| #[trigger]
            line.valid() && line.passes_through(row, col) && line.complete(grid);
        lemma_lines_through(line, row, col);
    }
}

/// A line that one player's mark fills wins at each cell it passes through,
/// whatever the rest of the grid holds.
pub proof fn lemma_complete_line_wins(grid: Grid, line: Line, mark: Symbol, row: int, col: int)
    requires
        line.valid(),
        mark != Symbol::Empty,
        line.held_by(grid, mark),
        line.passes_through(row, col),
    ensures
        wins_at(grid, row, col),
{
}

/// On a grid without a complete line no cell wins.
pub proof fn lemma_no_line_no_win(grid: Grid, row: int, col: int)
    requires
        !has_complete_line(grid),
    ensures
        !wins_at(grid, row, col),
{
    if wins_at(grid, row, col) {
        let line = choose|line: Line| #[trigger]
            line.valid() && line.passes_through(row, col) && line.complete(grid);
        assert(line.held_by(grid, Symbol::X) || line.held_by(grid, Symbol::O));
    }
}

/// A grid holds a complete line exactly when one of its cells wins.
pub proof fn lemma_complete_line_has_winning_cell(grid: Grid)
    ensures
        has_complete_line(grid) <==> exists|row: int, col: int|
            on_board(row, col) && #[trigger] wins_at(grid, row, col),
{
    if has_complete_line(grid) {
        let line = choose|line: Line| #[trigger]
            line.valid() && (line.held_by(grid, Symbol::X) || line.held_by(grid, Symbol::O));
        let cell = line.cells()[0];
        assert(line.passes_through(cell.0, cell.1));
        assert(on_board(cell.0, cell.1) && wins_at(grid, cell.0, cell.1));
    }
}

/// A cell that wins holds a mark: an empty cell never wins, even where the
/// cells of a line through it are all empty.
pub proof fn lemma_winning_cell_is_marked(grid: Grid, row: int, col: int)
    requires
        wins_at(grid, row, col),
    ensures
        !is_free(grid, row, col),
{
    let line = choose|line: Line| #[trigger]
        line.valid() && line.passes_through(row, col) && line.complete(grid);
    let i = choose|i: int| 0 <= i < line.cells().len() && line.cells()[i] == (row, col);
    assert(line.cells()[i] == (row, col));
}

/// When placing a mark wins at its cell, the line that wins is filled with
/// that mark.
pub proof fn lemma_win_is_by_mark_placed(grid: Grid, row: int, col: int, mark: Symbol)
    requires
        is_grid(grid),
        on_board(row, col),
        wins_at(place(grid, row, col, mark), row, col),
    ensures
        has_line(place(grid, row, col, mark), mark),
{
    let after = place(grid, row, col, mark);
    let line = choose|line: Line| #[trigger]
        line.valid() && line.passes_through(row, col) && line.complete(after);
    let i = choose|i: int| 0 <= i < line.cells().len() && line.cells()[i] == (row, col);
    assert(mark_at(after, line.cells()[i]) == mark);
    assert(line.held_by(after, mark));
}

/// Once a mark has been placed in a cell, the cell is no longer free.
pub proof fn lemma_placed_cell_is_taken(grid: Grid, row: int, col: int, mark: Symbol)
    requires
        is_grid(grid),
        on_board(row, col),
        mark != Symbol::Empty,
    ensures
        !is_free(place(grid, row, col, mark), row, col),
        mark_at(place(grid, row, col, mark), (row, col)) == mark,
{
}

/// Placing a mark changes one cell only: the result is a grid again, and
/// every other cell holds what it held before.
pub proof fn lemma_place_keeps_other_cells(grid: Grid, row: int, col: int, mark: Symbol)
    requires
        is_grid(grid),
        on_board(row, col),
    ensures
        is_grid(place(grid, row, col, mark)),
        forall|r: int, c: int|
            on_board(r, c) && (r, c) != (row, col) ==> #[trigger] mark_at(
                place(grid, row, col, mark),
                (r, c),
            ) == mark_at(grid, (r, c)),
{
}

/// A mark placed in a free cell overwrites nothing: every cell that held a
/// mark before holds the same mark after.
pub proof fn lemma_marks_are_permanent(grid: Grid, row: int, col: int, mark: Symbol)
    requires
        is_grid(grid),
        on_board(row, col),
        is_free(grid, row, col),
    ensures
        forall|r: int, c: int|
            on_board(r, c) && !is_free(grid, r, c) ==> #[trigger] mark_at(
                place(grid, row, col, mark),
                (r, c),
            ) == mark_at(grid, (r, c)),
{
}

} // verus!

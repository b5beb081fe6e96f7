//! The board as text: a header that numbers the columns, then one line for
//! each row, which starts with the row's number.

use vstd::prelude::*;
use vstd::string::StringExecFns;
use crate::game::Game;
use crate::grid::{mark_at, Grid};
use crate::symbol::Symbol;

verus! {

/// The character that shows a cell holding `mark`.
pub open spec fn glyph(mark: Symbol) -> char {
    match mark {
        Symbol::Empty => '_',
        Symbol::X => 'X',
        Symbol::O => 'O',
    }
}

/// The digit that labels a row or a column: rows and columns are shown
/// numbered from one.
pub open spec fn label(index: int) -> char {
    if index == 0 {
        '1'
    } else if index == 1 {
        '2'
    } else {
        '3'
    }
}

/// The first line of the picture: a blank above the row labels, then the
/// labels of the three columns.
pub open spec fn header_text() -> Seq<char> {
    seq![' ', label(0), label(1), label(2), '\n']
}

/// The line that shows one row: its label, its three cells, a line break.
pub open spec fn row_text(grid: Grid, row: int) -> Seq<char> {
    seq![label(row)] + Seq::new(3, |col: int| glyph(mark_at(grid, (row, col)))) + seq!['\n']
}

/// The lines that show the first `count` rows.
pub open spec fn rows_text(grid: Grid, count: int) -> Seq<char>
    decreases count,
{
    if count <= 0 {
        Seq::empty()
    } else {
        rows_text(grid, count - 1) + row_text(grid, count - 1)
    }
}

/// The picture of the whole board.
pub open spec fn board_text(grid: Grid) -> Seq<char> {
    header_text() + rows_text(grid, 3)
}

/// The picture of a board has four lines of five characters each.
pub proof fn lemma_board_text_len(grid: Grid)
    ensures
        board_text(grid).len() == 20,
{
    reveal_with_fuel(rows_text, 4);
}

/// The label of a row as text.
fn label_str(index: usize) -> (text: &'static str)
    requires
        index < 3,
    ensures
        text@ == seq![label(index as int)],
{
    proof {
        reveal_strlit("1");
        reveal_strlit("2");
        reveal_strlit("3");
    }
    let text = if index == 0 {
        "1"
    } else if index == 1 {
        "2"
    } else {
        "3"
    };
    assert(text@ =~= seq![label(index as int)]);
    text
}

/// The character that shows a cell, as text.
fn glyph_str(mark: Symbol) -> (text: &'static str)
    ensures
        text@ == seq![glyph(mark)],
{
    proof {
        reveal_strlit("_");
        reveal_strlit("X");
        reveal_strlit("O");
    }
    let text = match mark {
        Symbol::Empty => "_",
        Symbol::X => "X",
        Symbol::O => "O",
    };
    assert(text@ =~= seq![glyph(mark)]);
    text
}

impl Game {
    /// The picture of the board as text, as [`board_text`] defines it.
    pub fn render(&self) -> (text: String)
        ensures
            text@ == board_text(self@),
    {
        proof {
            reveal_strlit(" 123\n");
        }
        let mut output = String::from_str(" 123\n");
        assert(output@ =~= header_text());
        for x in 0..3usize
            invariant
                output@ == header_text() + rows_text(self@, x as int),
        {
            let ghost before = output@;
            output.append(label_str(x));
            for y in 0..3usize
                invariant
                    x < 3,
                    output@ == before + seq![label(x as int)] + Seq::new(
                        y as nat,
                        |col: int| glyph(mark_at(self@, (x as int, col))),
                    ),
            {
                output.append(glyph_str(self.cell(x, y)));
            }
            output.append("\n");
            proof {
                reveal_strlit("\n");
                assert(output@ =~= before + row_text(self@, x as int));
            }
        }
        output
    }
}

} // verus!

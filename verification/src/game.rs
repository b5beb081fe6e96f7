//! The game in play: a board that is filled move by move.
//!
//! A cell is named by `x`, its row, and `y`, its column, both counted from
//! zero.

use vstd::prelude::*;
use crate::grid::{
    empty_grid, has_line, is_free, is_full, is_grid, lemma_held_by_cells,
    lemma_win_is_by_mark_placed, lemma_wins_at_lines, mark_at, on_board, place, wins_at, Grid,
    Line,
};
use crate::symbol::{Player, Symbol};

verus! {

/// How far a game has come.
#[derive(Clone, Copy, Debug, PartialEq, Eq, Structural)]
pub enum Status {
    /// Nobody has won and there are empty cells left.
    InProgress,
    /// The given player has completed a line.
    Won(Player),
    /// The board is full and nobody has won.
    Drawn,
}

/// Why a move was turned down.
#[derive(Clone, Copy, Debug, PartialEq, Eq, Structural)]
pub enum MoveError {
    /// The game is already won or drawn.
    GameOver,
    /// The row or the column is not on the board.
    OutOfRange,
    /// The cell already holds a mark.
    Occupied,
}

/// A game of tic-tac-toe: the board, and the winner once there is one.
pub struct Game {
    board: [[Symbol; 3]; 3],
    winner: Option<Player>,
}

/// The status of a game with the given board and recorded winner.
pub open spec fn status_of(grid: Grid, winner: Option<Player>) -> Status {
    match winner {
        Some(player) => Status::Won(player),
        None => if is_full(grid) {
            Status::Drawn
        } else {
            Status::InProgress
        },
    }
}

/// What a turn comes to: `player` asks for the cell at `row` and `col` of a
/// game with the given board and recorded winner.
pub open spec fn turn_result(
    grid: Grid,
    winner: Option<Player>,
    row: int,
    col: int,
    player: Player,
) -> Result<Status, MoveError> {
    if status_of(grid, winner) != Status::InProgress {
        Err(MoveError::GameOver)
    } else if !on_board(row, col) {
        Err(MoveError::OutOfRange)
    } else if !is_free(grid, row, col) {
        Err(MoveError::Occupied)
    } else {
        let after = place(grid, row, col, player.mark());
        if wins_at(after, row, col) {
            Ok(Status::Won(player))
        } else if is_full(after) {
            Ok(Status::Drawn)
        } else {
            Ok(Status::InProgress)
        }
    }
}

impl View for Game {
    type V = Grid;

    /// The marks on the board, row by row.
    closed spec fn view(&self) -> Grid {
        Seq::new(3, |row: int| self.board[row]@)
    }
}

impl Game {
    /// A recorded winner holds a complete line on the board.
    #[verifier::type_invariant]
    spec fn winner_has_line(&self) -> bool {
        self.winner matches Some(player) ==> has_line(self@, player.mark())
    }

    /// The winner that the game has recorded, if any.
    pub closed spec fn spec_winner(&self) -> Option<Player> {
        self.winner
    }

    /// How far the game has come.
    pub open spec fn spec_status(&self) -> Status {
        status_of(self@, self.winner())
    }

    /// The board of every game is a grid of three rows of three cells.
    pub proof fn lemma_view_is_grid(self)
        ensures
            is_grid(self@),
    {
    }

    /// What a game answers depends on its board alone: two games with the
    /// same board give the same answers, and so does one game asked twice.
    pub proof fn lemma_answers_depend_on_board(self, other: Game, x: int, y: int)
        requires
            self@ == other@,
        ensures
            wins_at(self@, x, y) == wins_at(other@, x, y),
            is_full(self@) == is_full(other@),
            is_free(self@, x, y) == is_free(other@, x, y),
    {
    }

    /// A new game: the board is empty and nobody has won.
    pub fn new() -> (game: Game)
        ensures
            game@ == empty_grid(),
            game.winner() is None,
    {
        let game = Game { board: [[Symbol::Empty; 3]; 3], winner: None };
        assert(game@ =~~= empty_grid());
        game
    }

    /// The mark in the cell at `x` and `y`.
    pub fn cell(&self, x: usize, y: usize) -> (mark: Symbol)
        requires
            x < 3,
            y < 3,
        ensures
            mark == mark_at(self@, (x as int, y as int)),
    {
        self.board[x][y]
    }

    /// The winner that the game has recorded, if any.
    /// Its mark fills a line of the board.
    #[verifier::when_used_as_spec(spec_winner)]
    pub fn winner(&self) -> (winner: Option<Player>)
        ensures
            winner == self.spec_winner(),
            winner matches Some(player) ==> has_line(self@, player.mark()),
    {
        proof {
            use_type_invariant(self);
        }
        self.winner
    }

    /// How far the game has come: won once a winner is recorded, else drawn
    /// if the board is full, else in progress.
    /// The mark of a player who has won fills a line of the board.
    #[verifier::when_used_as_spec(spec_status)]
    pub fn status(&self) -> (status: Status)
        ensures
            status == self.spec_status(),
            status matches Status::Won(player) ==> has_line(self@, player.mark()),
    {
        proof {
            use_type_invariant(self);
        }
        match self.winner {
            Some(player) => Status::Won(player),
            None => if self.check_for_draw() {
                Status::Drawn
            } else {
                Status::InProgress
            },
        }
    }

    /// Whether a mark may be placed at `last_x` and `last_y`: the cell is
    /// still empty.
    pub fn is_legal_move(&self, last_x: usize, last_y: usize) -> (legal: bool)
        requires
            last_x < 3,
            last_y < 3,
        ensures
            legal == is_free(self@, last_x as int, last_y as int),
    {
        self.board[last_x][last_y] == Symbol::Empty
    }

    /// Writes `sym` into the cell at `x` and `y`, which must be empty. The
    /// other cells stay as they are.
    pub fn make_move(&mut self, x: usize, y: usize, sym: Symbol)
        requires
            x < 3,
            y < 3,
            is_free(old(self)@, x as int, y as int),
            sym != Symbol::Empty,
        ensures
            final(self)@ == place(old(self)@, x as int, y as int, sym),
            final(self).winner() == old(self).winner(),
    {
        proof {
            use_type_invariant(&*self);
            if let Some(player) = self.winner {
                let line = choose|line: Line| #[trigger]
                    line.valid() && line.held_by(self@, player.mark());
                lemma_held_by_cells(line, self@, player.mark());
                lemma_held_by_cells(line, place(self@, x as int, y as int, sym), player.mark());
            }
        }
        let mut board = self.board;
        board[x][y] = sym;
        assert(Seq::new(3, |row: int| board[row]@) =~~= place(self@, x as int, y as int, sym));
        self.board = board;
    }

    /// Whether the mark last placed, at `last_x` and `last_y`, has won the
    /// game: a complete line runs through that cell. Only the lines through
    /// the cell are looked at: its row, its column, and each diagonal that it
    /// lies on. An empty cell never wins. The game is left as it is.
    pub fn check_for_win(&self, last_x: usize, last_y: usize) -> (won: bool)
        requires
            last_x < 3,
            last_y < 3,
        ensures
            won == wins_at(self@, last_x as int, last_y as int),
    {
        proof {
            let grid = self@;
            lemma_wins_at_lines(grid, last_x as int, last_y as int);
            lemma_held_by_cells(Line::Row(last_x as int), grid, Symbol::X);
            lemma_held_by_cells(Line::Row(last_x as int), grid, Symbol::O);
            lemma_held_by_cells(Line::Column(last_y as int), grid, Symbol::X);
            lemma_held_by_cells(Line::Column(last_y as int), grid, Symbol::O);
            lemma_held_by_cells(Line::Diagonal, grid, Symbol::X);
            lemma_held_by_cells(Line::Diagonal, grid, Symbol::O);
            lemma_held_by_cells(Line::AntiDiagonal, grid, Symbol::X);
            lemma_held_by_cells(Line::AntiDiagonal, grid, Symbol::O);
        }
        let mark = self.board[last_x][last_y];
        if mark == Symbol::Empty {
            return false;
        }
        let row = self.board[last_x][0] == mark && self.board[last_x][1] == mark
            && self.board[last_x][2] == mark;
        let column = self.board[0][last_y] == mark && self.board[1][last_y] == mark
            && self.board[2][last_y] == mark;
        let diagonal = last_x == last_y && self.board[0][0] == mark && self.board[1][1] == mark
            && self.board[2][2] == mark;
        let anti_diagonal = last_x + last_y == 2 && self.board[0][2] == mark
            && self.board[1][1] == mark && self.board[2][0] == mark;
        row || column || diagonal || anti_diagonal
    }

    /// Whether the board is full, so that no move is left. Lines are not
    /// looked at: a full board counts as full whether or not it holds a
    /// complete line. The game is left as it is.
    pub fn check_for_draw(&self) -> (full: bool)
        ensures
            full == is_full(self@),
    {
        for x in 0..3usize
            invariant
                forall|row: int, col: int|
                    0 <= row < x && 0 <= col < 3 ==> !#[trigger] is_free(self@, row, col),
        {
            for y in 0..3usize
                invariant
                    x < 3,
                    forall|row: int, col: int|
                        0 <= row < x && 0 <= col < 3 ==> !#[trigger] is_free(self@, row, col),
                    forall|col: int| 0 <= col < y ==> !#[trigger] is_free(self@, x as int, col),
            {
                if self.board[x][y] == Symbol::Empty {
                    assert(is_free(self@, x as int, y as int));
                    return false;
                }
            }
        }
        true
    }

    /// Plays one turn: `player` asks for the cell at `x` and `y`.
    ///
    /// The move is turned down, and the game left as it is, when the game is
    /// over, when the cell is not on the board, or when it is taken. Else the
    /// player's mark is placed, and the game is won if that completes a line
    /// through the cell, drawn if it fills the board without one, and goes on
    /// otherwise. A win is recorded in the game.
    pub fn play(&mut self, x: usize, y: usize, player: Player) -> (outcome: Result<
        Status,
        MoveError,
    >)
        ensures
            outcome == turn_result(old(self)@, old(self).winner(), x as int, y as int, player),
            outcome is Err ==> {
                &&& final(self)@ == old(self)@
                &&& final(self).winner() == old(self).winner()
            },
            outcome matches Ok(status) ==> {
                &&& final(self)@ == place(old(self)@, x as int, y as int, player.mark())
                &&& final(self).status() == status
            },
    {
        if self.status() != Status::InProgress {
            return Err(MoveError::GameOver);
        }
        if x >= 3 || y >= 3 {
            return Err(MoveError::OutOfRange);
        }
        if !self.is_legal_move(x, y) {
            return Err(MoveError::Occupied);
        }
        self.make_move(x, y, player.symbol());
        if self.check_for_win(x, y) {
            proof {
                lemma_win_is_by_mark_placed(old(self)@, x as int, y as int, player.mark());
            }
            self.winner = Some(player);
            Ok(Status::Won(player))
        } else if self.check_for_draw() {
            Ok(Status::Drawn)
        } else {
            Ok(Status::InProgress)
        }
    }
}

} // verus!

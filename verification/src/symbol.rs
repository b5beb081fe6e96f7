//! The marks on the board and the two players that place them.

use vstd::prelude::*;
use vstd::string::StringExecFns;

verus! {

/// What a cell of the board holds: nothing, or the mark of one of the players.
#[derive(Clone, Copy, Debug, PartialEq, Eq, Structural)]
pub enum Symbol {
    Empty,
    X,
    O,
}

impl Symbol {
    /// The name of the mark as text: one letter for a player's mark, nothing
    /// for an empty cell.
    pub open spec fn name(self) -> Seq<char> {
        match self {
            Symbol::Empty => seq![],
            Symbol::X => seq!['X'],
            Symbol::O => seq!['O'],
        }
    }

    /// The name of the mark, as [`Symbol::name`] defines it.
    pub fn to_string(&self) -> (text: String)
        ensures
            text@ == self.name(),
    {
        proof {
            reveal_strlit("");
            reveal_strlit("X");
            reveal_strlit("O");
        }
        match self {
            Symbol::Empty => String::from_str(""),
            Symbol::X => String::from_str("X"),
            Symbol::O => String::from_str("O"),
        }
    }
}

/// One of the two players, named by the mark that the player places.
#[derive(Clone, Copy, Debug, PartialEq, Eq, Structural)]
pub enum Player {
    X,
    O,
}

impl Player {
    /// The mark that the player places.
    pub open spec fn mark(self) -> Symbol {
        match self {
            Player::X => Symbol::X,
            Player::O => Symbol::O,
        }
    }

    /// The player who moves after this one.
    pub open spec fn other(self) -> Player {
        match self {
            Player::X => Player::O,
            Player::O => Player::X,
        }
    }

    /// The mark that the player places.
    pub fn symbol(self) -> (mark: Symbol)
        ensures
            mark == self.mark(),
    {
        match self {
            Player::X => Symbol::X,
            Player::O => Symbol::O,
        }
    }

    /// The player who moves after this one.
    pub fn opponent(self) -> (next: Player)
        ensures
            next == self.other(),
    {
        match self {
            Player::X => Player::O,
            Player::O => Player::X,
        }
    }
}

} // verus!

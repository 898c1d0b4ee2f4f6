//! The two players and how a game can stand.
use crate::grid::{
    empty_grid, is_full, lemma_lines_are_all, lemma_winner_holds_a_line, lemma_winner_is_token,
    line, line_count, valid, winner_of, won_at, Grid,
};
use vstd::prelude::*;

verus! {

/// One of the two sides. `One` moves first.
#[derive(PartialEq, Eq, Debug, Clone, Copy, Structural)]
pub enum Player {
    One,
    Two,
}

/// How a game stands. A held line counts before a full grid.
#[derive(PartialEq, Eq, Debug, Clone, Copy, Structural)]
pub enum Outcome {
    InProgress,
    Won(Player),
    Draw,
}

/// The other side.
pub open spec fn opponent_of(p: Player) -> Player {
    match p {
        Player::One => Player::Two,
        Player::Two => Player::One,
    }
}

/// The value that marks a player's pieces on the grid.
pub open spec fn token_of(p: Player) -> u8 {
    match p {
        Player::One => 1,
        Player::Two => 2,
    }
}

/// The player whose pieces `token` marks, if it marks any.
pub open spec fn player_of(token: u8) -> Option<Player> {
    if token == 1 {
        Some(Player::One)
    } else if token == 2 {
        Some(Player::Two)
    } else {
        None
    }
}

/// Who moves when `count` pieces lie on the grid: `One` on even counts.
pub open spec fn mover_at(count: int) -> Player {
    if count % 2 == 0 {
        Player::One
    } else {
        Player::Two
    }
}

/// How a game on grid `g` stands: won by the winner if there is one, else a
/// draw if the grid is full, else still in progress.
pub open spec fn outcome_of(g: Grid) -> Outcome {
    match winner_of(g) {
        Some(token) => match player_of(token) {
            Some(p) => Outcome::Won(p),
            None => Outcome::InProgress,
        },
        None => if is_full(g) {
            Outcome::Draw
        } else {
            Outcome::InProgress
        },
    }
}

/// On the empty grid nobody has won and the game is in progress.
pub proof fn lemma_empty_grid_open()
    ensures
        winner_of(empty_grid()) is None,
        !is_full(empty_grid()),
        outcome_of(empty_grid()) is InProgress,
{
    lemma_winner_holds_a_line(empty_grid());
    assert(empty_grid()[0][0] == 0);
    assert forall|i: int| 0 <= i < line_count() implies !won_at(empty_grid(), i) by {
        lemma_lines_are_all(line(i), i);
    }
}

/// A held line counts before a full grid: on a valid grid with a winner the
/// game is won by that player, full or not, and it is drawn only where
/// nobody holds a line.
pub proof fn lemma_win_counts_before_draw(g: Grid)
    requires
        valid(g),
    ensures
        winner_of(g) matches Some(token) ==> player_of(token) matches Some(p) && outcome_of(g)
            == Outcome::Won(p),
        outcome_of(g) is Draw <==> winner_of(g) is None && is_full(g),
        outcome_of(g) is InProgress <==> winner_of(g) is None && !is_full(g),
{
    lemma_winner_is_token(g);
}

impl Player {
    pub fn opponent(self) -> (other: Player)
        ensures
            other == opponent_of(self),
            other != self,
            opponent_of(other) == self,
    {
        match self {
            Player::One => Player::Two,
            Player::Two => Player::One,
        }
    }

    pub fn token(self) -> (token: u8)
        ensures
            token == token_of(self),
            player_of(token) == Some(self),
    {
        match self {
            Player::One => 1,
            Player::Two => 2,
        }
    }

    pub fn from_token(token: u8) -> (player: Option<Player>)
        ensures
            player == player_of(token),
            player matches Some(p) ==> token_of(p) == token,
    {
        if token == 1 {
            Some(Player::One)
        } else if token == 2 {
            Some(Player::Two)
        } else {
            None
        }
    }
}

} // verus!

//! A game with its record: the board, and the moves that led to it.
use crate::board::{Board, BoardPlaceError};
use crate::grid::{
    empty_grid, height, is_open, lemma_empty_grid_valid, lemma_full_by_count, lemma_placed_valid,
    pieces, place_error, placed, valid, Grid,
};
use crate::input::{number_in, parse_number};
use crate::player::{mover_at, opponent_of, outcome_of, player_of, token_of, Player};
use rand::seq::IteratorRandom;
use vstd::prelude::*;

verus! {

/// Why a line of local input placed no piece. Either way the player is asked again.
#[derive(PartialEq, Eq, Debug, Clone, Copy, Structural)]
pub enum InputError {
    /// The line holds no number.
    ParseError,
    /// The number names no column, or one that is full.
    InvalidColumn,
}

/// The board and the moves made on it, each a piece and its column, first move first.
pub struct Game {
    pub board: Board,
    pub moves: Vec<(u8, usize)>,
}

/// The grid that a list of moves leads to from the empty grid.
pub open spec fn replay(moves: Seq<(u8, usize)>) -> Grid
    decreases moves.len(),
{
    if moves.len() == 0 {
        empty_grid()
    } else {
        placed(replay(moves.drop_last()), moves.last().1 as int, moves.last().0)
    }
}

/// The `i`-th move was made by the player whose turn it was, and was accepted.
pub open spec fn turn_kept(moves: Seq<(u8, usize)>, i: int) -> bool {
    &&& moves[i].0 == token_of(mover_at(i))
    &&& place_error(replay(moves.take(i)), moves[i].1 as int, moves[i].0) is None
}

/// The players took turns, `One` first, and every move was accepted.
pub open spec fn in_turns(moves: Seq<(u8, usize)>) -> bool {
    forall|i: int| 0 <= i < moves.len() ==> #[trigger] turn_kept(moves, i)
}

/// The game was still in progress before the `i`-th move.
pub open spec fn open_before(moves: Seq<(u8, usize)>, i: int) -> bool {
    outcome_of(replay(moves.take(i))) is InProgress
}

/// No move was made after the game was over.
pub open spec fn stopped_in_time(moves: Seq<(u8, usize)>) -> bool {
    forall|i: int| 0 <= i < moves.len() ==> #[trigger] open_before(moves, i)
}

/// What a line of input leads to on grid `g`: the column that takes the
/// piece, counted from 0, or the reason why none does.
pub open spec fn input_verdict(g: Grid, text: Seq<char>) -> Result<usize, InputError> {
    match number_in(text) {
        None => Err(InputError::ParseError),
        Some(n) => if n > usize::MAX {
            Err(InputError::ParseError)
        } else if n >= 1 && is_open(g, n - 1) {
            Ok((n - 1) as usize)
        } else {
            Err(InputError::InvalidColumn)
        },
    }
}

/// Replaying moves made in turn gives a valid grid with one piece per move.
pub proof fn lemma_replay(moves: Seq<(u8, usize)>)
    ensures
        valid(replay(moves)),
        in_turns(moves) ==> pieces(replay(moves)) == moves.len() <= 42,
    decreases moves.len(),
{
    if moves.len() == 0 {
        lemma_empty_grid_valid();
    } else {
        let rest = moves.drop_last();
        lemma_replay(rest);
        lemma_placed_valid(replay(rest), moves.last().1 as int, moves.last().0);
        if in_turns(moves) {
            assert forall|i: int| 0 <= i < rest.len() implies #[trigger] turn_kept(rest, i) by {
                assert(turn_kept(moves, i));
                assert(rest[i] == moves[i]);
                assert(rest.take(i) =~= moves.take(i));
            }
            assert(turn_kept(moves, moves.len() - 1));
            assert(moves.take(moves.len() - 1) =~= rest);
            lemma_full_by_count(replay(moves));
        }
    }
}

/// One more accepted move by the player whose turn it is keeps the record in order.
pub proof fn lemma_in_turns_push(moves: Seq<(u8, usize)>, col: usize)
    requires
        in_turns(moves),
        place_error(replay(moves), col as int, token_of(mover_at(moves.len() as int))) is None,
    ensures
        in_turns(moves.push((token_of(mover_at(moves.len() as int)), col))),
        replay(moves.push((token_of(mover_at(moves.len() as int)), col))) == placed(
            replay(moves),
            col as int,
            token_of(mover_at(moves.len() as int)),
        ),
        outcome_of(replay(moves)) is InProgress && stopped_in_time(moves) ==> stopped_in_time(
            moves.push((token_of(mover_at(moves.len() as int)), col)),
        ),
{
    let m = (token_of(mover_at(moves.len() as int)), col);
    let next = moves.push(m);
    assert(next.drop_last() =~= moves);
    assert forall|i: int| 0 <= i < next.len() implies #[trigger] turn_kept(next, i) by {
        if i < moves.len() {
            assert(turn_kept(moves, i));
            assert(next[i] == moves[i]);
            assert(next.take(i) =~= moves.take(i));
        } else {
            assert(next.take(i) =~= moves);
        }
    }
    if outcome_of(replay(moves)) is InProgress && stopped_in_time(moves) {
        assert forall|i: int| 0 <= i < next.len() implies #[trigger] open_before(next, i) by {
            if i < moves.len() {
                assert(open_before(moves, i));
                assert(next.take(i) =~= moves.take(i));
            } else {
                assert(next.take(i) =~= moves);
            }
        }
    }
}

/// In a record kept in turn the first piece is the first player's, every
/// piece is that of the player whose turn it was, and of two moves that
/// follow each other the second is the other player's.
pub proof fn lemma_turns_alternate(moves: Seq<(u8, usize)>)
    requires
        in_turns(moves),
    ensures
        moves.len() > 0 ==> moves[0].0 == token_of(Player::One),
        forall|i: int|
            0 <= i < moves.len() ==> player_of((#[trigger] moves[i]).0) == Some(mover_at(i)),
        forall|i: int, j: int|
            0 <= i && j == i + 1 && j < moves.len() ==> player_of((#[trigger] moves[j]).0)
                == Some(opponent_of(mover_at(i))) && (#[trigger] moves[i]).0 != moves[j].0,
{
    if moves.len() > 0 {
        assert(turn_kept(moves, 0));
    }
    assert forall|i: int| 0 <= i < moves.len() implies player_of((#[trigger] moves[i]).0)
        == Some(mover_at(i)) by {
        assert(turn_kept(moves, i));
    }
    assert forall|i: int, j: int| 0 <= i && j == i + 1 && j < moves.len() implies player_of(
        (#[trigger] moves[j]).0,
    ) == Some(opponent_of(mover_at(i))) && (#[trigger] moves[i]).0 != moves[j].0 by {
        assert(turn_kept(moves, i));
        assert(turn_kept(moves, j));
    }
}

impl Game {
    /// The record matches the board: the moves were made in turn, all were
    /// accepted, and replaying them gives the board.
    pub open spec fn wf(&self) -> bool {
        &&& in_turns(self.moves@)
        &&& self.board@ == replay(self.moves@)
    }

    /// Whose turn it is: `One` after an even number of moves.
    pub open spec fn mover(&self) -> Player {
        mover_at(self.moves@.len() as int)
    }

    /// A game in which nothing has been played.
    pub fn new() -> (game: Game)
        ensures
            game.wf(),
            game.moves@.len() == 0,
            game.board@ == empty_grid(),
            game.mover() == Player::One,
    {
        Game { board: Board::new(), moves: Vec::new() }
    }

    /// Whose turn it is.
    pub fn turn(&self) -> (p: Player)
        ensures
            p == self.mover(),
    {
        if self.moves.len() % 2 == 0 {
            Player::One
        } else {
            Player::Two
        }
    }

    /// Places the piece of the player whose turn it is into column `col` and
    /// records the move. A refused placement changes nothing: the turn stays.
    pub fn play(&mut self, col: usize) -> (res: Result<(), BoardPlaceError>)
        requires
            old(self).wf(),
        ensures
            final(self).wf(),
            res == (if is_open(old(self).board@, col as int) {
                Ok::<(), BoardPlaceError>(())
            } else {
                Err::<(), BoardPlaceError>(BoardPlaceError::InvalidColumn)
            }),
            res is Ok ==> {
                &&& final(self).moves@ == old(self).moves@.push(
                    (token_of(old(self).mover()), col),
                )
                &&& final(self).board@ == placed(
                    old(self).board@,
                    col as int,
                    token_of(old(self).mover()),
                )
                &&& final(self).mover() != old(self).mover()
            },
            res is Err ==> final(self).moves@ == old(self).moves@ && final(self).board@ == old(
                self,
            ).board@,
            stopped_in_time(old(self).moves@) && outcome_of(old(self).board@) is InProgress
                ==> stopped_in_time(final(self).moves@),
    {
        let token = self.turn().token();
        let res = self.board.place(col, token);
        if res.is_ok() {
            proof {
                lemma_in_turns_push(self.moves@, col);
            }
            self.moves.push((token, col));
        }
        res
    }

    /// Plays the column that a line of input asks for. The line holds the
    /// column's number counted from 1. A line that places no piece changes
    /// nothing; otherwise the result is the column, counted from 0.
    pub fn play_text(&mut self, text: &str) -> (res: Result<usize, InputError>)
        requires
            old(self).wf(),
        ensures
            final(self).wf(),
            res == input_verdict(old(self).board@, text@),
            res matches Ok(col) ==> {
                &&& col < 7
                &&& final(self).moves@ == old(self).moves@.push(
                    (token_of(old(self).mover()), col),
                )
                &&& final(self).board@ == placed(
                    old(self).board@,
                    col as int,
                    token_of(old(self).mover()),
                )
                &&& final(self).mover() != old(self).mover()
            },
            res is Err ==> final(self).moves@ == old(self).moves@ && final(self).board@ == old(
                self,
            ).board@,
            stopped_in_time(old(self).moves@) && outcome_of(old(self).board@) is InProgress
                ==> stopped_in_time(final(self).moves@),
    {
        match parse_number(text) {
            None => Err(InputError::ParseError),
            Some(number) => {
                if number == 0 {
                    return Err(InputError::InvalidColumn);
                }
                let col: usize = number - 1;
                match self.play(col) {
                    Ok(()) => Ok(col),
                    Err(_) => Err(InputError::InvalidColumn),
                }
            },
        }
    }

    /// Plays a game to its end, each move into a column picked at random
    /// among those that still take a piece. Whatever was picked: the record
    /// is in order, the game is over, and it was not over before the last move.
    pub fn generate() -> (game: Game)
        ensures
            game.wf(),
            !(outcome_of(game.board@) is InProgress),
            stopped_in_time(game.moves@),
    {
        let mut game = Game::new();
        while !game.board.finished()
            invariant
                game.wf(),
                stopped_in_time(game.moves@),
            decreases 42 - game.moves@.len(),
        {
            proof {
                lemma_replay(game.moves@);
            }
            let cols = game.board.available_columns();
            if let Some(col) = choose_column(&cols) {
                let _ = game.play(col);
                proof {
                    lemma_replay(game.moves@);
                }
            }
        }
        game
    }
}

/// `rand::seq::IteratorRandom::choose` on the items of `cols`, drawing from
/// `rand::thread_rng`. Which item comes back is left open; believed of it is
/// only that it is one of `cols`, and that nothing comes back exactly when
/// `cols` is empty.
#[verifier::external_body]
pub(crate) fn choose_column(cols: &Vec<usize>) -> (pick: Option<usize>)
    ensures
        pick is None <==> cols@.len() == 0,
        pick matches Some(col) ==> cols@.contains(col),
{
    cols.iter().choose(&mut rand::thread_rng()).copied()
}

} // verus!

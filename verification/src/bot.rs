//! A game of a person against a machine: what each side's move leads to,
//! and a stand-in choice for the machine.
use crate::board::{Board, BoardPlaceError, WIDTH};
use crate::game::{input_verdict, InputError};
use crate::grid::{
    height, is_full, is_open, lemma_column_height, lemma_full_by_count, placed, Grid,
};
use crate::input::parse_number;
use crate::player::{outcome_of, Outcome};
use vstd::prelude::*;

verus! {

/// Column `c` still takes a piece and no column before it does.
pub open spec fn first_open(g: Grid, c: int) -> bool {
    &&& is_open(g, c)
    &&& forall|d: int| 0 <= d < c ==> !is_open(g, d)
}

/// The column that a move of the machine names, if it names one.
pub open spec fn column_of_action(action: i64) -> Option<usize> {
    if 0 <= action < 7 {
        Some(action as usize)
    } else {
        None
    }
}

/// What a line of the person's input leads to on grid `g`: the grid after
/// it, and how the game then stands or why no piece was placed.
pub open spec fn after_human(g: Grid, text: Seq<char>) -> (Grid, Result<Outcome, InputError>) {
    match input_verdict(g, text) {
        Ok(col) => (placed(g, col as int, 1), Ok(outcome_of(placed(g, col as int, 1)))),
        Err(e) => (g, Err(e)),
    }
}

/// What a move of the machine leads to on grid `g`.
pub open spec fn after_bot(g: Grid, action: i64) -> (Grid, Result<Outcome, BoardPlaceError>) {
    match column_of_action(action) {
        Some(col) if is_open(g, col as int) => (
            placed(g, col as int, 2),
            Ok(outcome_of(placed(g, col as int, 2))),
        ),
        _ => (g, Err(BoardPlaceError::InvalidColumn)),
    }
}

/// The row at which the first column that still takes a piece would
/// receive one; nothing where the board is full.
pub fn best_move(board: &Board) -> (found: Option<usize>)
    ensures
        match found {
            Some(row) => exists|c: int| first_open(board@, c) && row == height(board@, c),
            None => is_full(board@),
        },
{
    if let Some(row) = find_available_column(board) {
        return Some(row);
    }
    None
}

/// Tries the columns from the left and answers with the lowest empty row of
/// the first that has one.
pub fn find_available_column(board: &Board) -> (found: Option<usize>)
    ensures
        match found {
            Some(row) => exists|c: int| first_open(board@, c) && row == height(board@, c),
            None => is_full(board@),
        },
{
    let mut i: usize = 0;
    while i < WIDTH
        invariant
            i <= 7,
            forall|d: int| 0 <= d < i ==> !is_open(board@, d),
        decreases 7 - i,
    {
        if let Some(row) = board.first_available_row_for_column(i) {
            assert(first_open(board@, i as int));
            return Some(row);
        }
        i += 1;
    }
    proof {
        let g = board@;
        use_type_invariant(board);
        lemma_full_by_count(g);
        assert forall|c: int| 0 <= c < 7 implies height(g, c) == 6 by {
            lemma_column_height(g, c);
            assert(!is_open(g, c));
        }
    }
    None
}

/// The person plays the first player's pieces: places one in the column
/// that the line asks for, counted from 1, and says how the game then stands.
pub fn human_turn(board: &mut Board, text: &str) -> (res: Result<Outcome, InputError>)
    ensures
        (final(board)@, res) == after_human(old(board)@, text@),
{
    match parse_number(text) {
        None => Err(InputError::ParseError),
        Some(number) => {
            if number == 0 {
                return Err(InputError::InvalidColumn);
            }
            match board.place(number - 1, 1) {
                Ok(()) => Ok(board.outcome()),
                Err(_) => Err(InputError::InvalidColumn),
            }
        },
    }
}

/// The machine plays the second player's pieces: places one in the column
/// `action`, counted from 0, and says how the game then stands.
pub fn bot_turn(board: &mut Board, action: i64) -> (res: Result<Outcome, BoardPlaceError>)
    ensures
        (final(board)@, res) == after_bot(old(board)@, action),
{
    if action < 0 || action >= 7 {
        return Err(BoardPlaceError::InvalidColumn);
    }
    match board.place(action as usize, 2) {
        Ok(()) => Ok(board.outcome()),
        Err(e) => Err(e),
    }
}

} // verus!

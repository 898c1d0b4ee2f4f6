//! What holds of runs of placements on the grid.
use crate::board::BoardPlaceError;
use crate::grid::{
    first_win, height, is_token, lemma_column_height, lemma_held_line_wins, lemma_line_numbers,
    lemma_lines_are_all, lemma_placed_valid, lemma_winner_holds_a_line, line, line_cell,
    line_count, owner, place_error, placed, valid, winner_of, won_at, Grid,
};
use vstd::prelude::*;

verus! {

/// Every cell of `after` is as in `before` or holds `piece`.
pub open spec fn adds_only(before: Grid, after: Grid, piece: u8) -> bool {
    forall|c: int, r: int|
        0 <= c < 7 && 0 <= r < 6 ==> #[trigger] after[c][r] == before[c][r] || after[c][r]
            == piece
}

/// An accepted placement changes one cell, to the piece placed.
pub proof fn lemma_placed_adds_only(g: Grid, c: int, piece: u8)
    requires
        valid(g),
    ensures
        adds_only(g, placed(g, c, piece), piece),
{
    lemma_placed_valid(g, c, piece);
}

/// A cell that holds a piece keeps it: no placement empties a cell or
/// changes the piece in it.
pub proof fn lemma_pieces_stay(g: Grid, c: int, piece: u8)
    requires
        valid(g),
    ensures
        forall|d: int, r: int|
            0 <= d < 7 && 0 <= r < 6 && g[d][r] != 0 ==> #[trigger] placed(g, c, piece)[d][r]
                == g[d][r],
{
    lemma_placed_valid(g, c, piece);
    if place_error(g, c, piece) is None {
        assert(g[c][height(g, c)] == 0);
    }
}

/// Where nobody had won and only pieces of one player were added, a line
/// held afterwards is held by that player, who is then the winner.
pub proof fn lemma_new_line_wins(before: Grid, after: Grid, piece: u8, i: int)
    requires
        winner_of(before) is None,
        adds_only(before, after, piece),
        0 <= i < line_count(),
        won_at(after, i),
    ensures
        winner_of(after) == Some(piece),
{
    lemma_winner_holds_a_line(before);
    lemma_held_line_wins(after, i);
    let k = choose|k: int| first_win(after, k);
    assert(first_win(after, k));
    let l = line(k);
    lemma_lines_are_all(l, k);
    if owner(after, l) != piece {
        let q = owner(after, l);
        assert(after[l.col][l.row] == q);
        assert(after[l.col + l.dcol][l.row + l.drow] == q);
        assert(after[l.col + 2 * l.dcol][l.row + 2 * l.drow] == q);
        assert(after[l.col + 3 * l.dcol][l.row + 3 * l.drow] == q);
        assert(line_cell(before, l, 0) == q);
        assert(line_cell(before, l, 1) == q);
        assert(line_cell(before, l, 2) == q);
        assert(line_cell(before, l, 3) == q);
        assert(won_at(before, k));
    }
}

/// Six pieces fill an empty column, whoever places them, and the seventh is
/// refused for the column.
pub proof fn lemma_six_fill_a_column(g: Grid, c: int, p: Seq<u8>)
    requires
        valid(g),
        0 <= c < 7,
        height(g, c) == 0,
        p.len() == 7,
        forall|k: int| 0 <= k < 7 ==> is_token(#[trigger] p[k]),
    ensures
        ({
            let g1 = placed(g, c, p[0]);
            let g2 = placed(g1, c, p[1]);
            let g3 = placed(g2, c, p[2]);
            let g4 = placed(g3, c, p[3]);
            let g5 = placed(g4, c, p[4]);
            let g6 = placed(g5, c, p[5]);
            &&& place_error(g, c, p[0]) is None
            &&& place_error(g1, c, p[1]) is None
            &&& place_error(g2, c, p[2]) is None
            &&& place_error(g3, c, p[3]) is None
            &&& place_error(g4, c, p[4]) is None
            &&& place_error(g5, c, p[5]) is None
            &&& height(g6, c) == 6
            &&& forall|r: int| 0 <= r < 6 ==> g6[c][r] == p[r]
            &&& place_error(g6, c, p[6]) == Some(BoardPlaceError::InvalidColumn)
            &&& placed(g6, c, p[6]) == g6
        }),
{
    let g1 = placed(g, c, p[0]);
    let g2 = placed(g1, c, p[1]);
    let g3 = placed(g2, c, p[2]);
    let g4 = placed(g3, c, p[3]);
    let g5 = placed(g4, c, p[4]);
    let g6 = placed(g5, c, p[5]);
    lemma_placed_valid(g, c, p[0]);
    lemma_placed_valid(g1, c, p[1]);
    lemma_placed_valid(g2, c, p[2]);
    lemma_placed_valid(g3, c, p[3]);
    lemma_placed_valid(g4, c, p[4]);
    lemma_placed_valid(g5, c, p[5]);
}

/// A piece that is no player's token is refused as such, whatever the
/// column, and the grid stays as it was.
pub proof fn lemma_bad_piece_is_refused(g: Grid, c: int, piece: u8)
    requires
        !is_token(piece),
    ensures
        place_error(g, c, piece) == Some(BoardPlaceError::InvalidPiece),
        placed(g, c, piece) == g,
{
}

/// The grid after four pieces of one player, dropped into the columns
/// `c0`, `c1`, `c2`, `c3` in turn.
pub open spec fn after_four(g: Grid, piece: u8, c0: int, c1: int, c2: int, c3: int) -> Grid {
    placed(placed(placed(placed(g, c0, piece), c1, piece), c2, piece), c3, piece)
}

/// Four accepted placements of one player where nobody had won: if they
/// leave a line held, that player has won.
proof fn lemma_four_placed(g: Grid, piece: u8, c0: int, c1: int, c2: int, c3: int, i: int)
    requires
        valid(g),
        winner_of(g) is None,
        0 <= i < line_count(),
        won_at(after_four(g, piece, c0, c1, c2, c3), i),
    ensures
        winner_of(after_four(g, piece, c0, c1, c2, c3)) == Some(piece),
{
    let g1 = placed(g, c0, piece);
    let g2 = placed(g1, c1, piece);
    let g3 = placed(g2, c2, piece);
    let g4 = placed(g3, c3, piece);
    lemma_placed_valid(g, c0, piece);
    lemma_placed_valid(g1, c1, piece);
    lemma_placed_valid(g2, c2, piece);
    lemma_placed_adds_only(g, c0, piece);
    lemma_placed_adds_only(g1, c1, piece);
    lemma_placed_adds_only(g2, c2, piece);
    lemma_placed_adds_only(g3, c3, piece);
    assert(adds_only(g, g4, piece)) by {
        assert forall|c: int, r: int| 0 <= c < 7 && 0 <= r < 6 implies #[trigger] g4[c][r]
            == g[c][r] || g4[c][r] == piece by {
            let a = g1[c][r];
            let b = g2[c][r];
            let d = g3[c][r];
        }
    }
    lemma_new_line_wins(g, g4, piece, i);
}

/// Four pieces of one player stacked in one column win, where nobody had
/// won before and the column had room for them.
pub proof fn lemma_four_in_a_column_win(g: Grid, piece: u8, c: int)
    requires
        valid(g),
        winner_of(g) is None,
        is_token(piece),
        0 <= c < 7,
        height(g, c) <= 2,
    ensures
        winner_of(after_four(g, piece, c, c, c, c)) == Some(piece),
{
    let h = height(g, c);
    let g1 = placed(g, c, piece);
    let g2 = placed(g1, c, piece);
    let g3 = placed(g2, c, piece);
    let g4 = placed(g3, c, piece);
    lemma_column_height(g, c);
    lemma_placed_valid(g, c, piece);
    lemma_placed_valid(g1, c, piece);
    lemma_placed_valid(g2, c, piece);
    lemma_placed_valid(g3, c, piece);
    lemma_line_numbers(c, h);
    let i = c * 3 + h;
    assert(g4[c][h] == piece && g4[c][h + 1] == piece && g4[c][h + 2] == piece && g4[c][h + 3]
        == piece);
    assert(owner(g4, line(i)) == piece);
    lemma_four_placed(g, piece, c, c, c, c, i);
}

/// Four pieces of one player dropped side by side into columns of equal
/// height win, where nobody had won before.
pub proof fn lemma_four_in_a_row_win(g: Grid, piece: u8, c: int)
    requires
        valid(g),
        winner_of(g) is None,
        is_token(piece),
        0 <= c <= 3,
        height(g, c) < 6,
        height(g, c + 1) == height(g, c),
        height(g, c + 2) == height(g, c),
        height(g, c + 3) == height(g, c),
    ensures
        winner_of(after_four(g, piece, c, c + 1, c + 2, c + 3)) == Some(piece),
{
    let h = height(g, c);
    let g1 = placed(g, c, piece);
    let g2 = placed(g1, c + 1, piece);
    let g3 = placed(g2, c + 2, piece);
    let g4 = placed(g3, c + 3, piece);
    lemma_column_height(g, c);
    lemma_placed_valid(g, c, piece);
    lemma_placed_valid(g1, c + 1, piece);
    lemma_placed_valid(g2, c + 2, piece);
    lemma_placed_valid(g3, c + 3, piece);
    lemma_line_numbers(c, h);
    let i = 21 + h * 4 + c;
    assert(g4[c][h] == piece && g4[c + 1][h] == piece && g4[c + 2][h] == piece && g4[c + 3][h]
        == piece);
    assert(owner(g4, line(i)) == piece);
    lemma_four_placed(g, piece, c, c + 1, c + 2, c + 3, i);
}

/// Four pieces of one player dropped into four columns side by side, each
/// one piece higher than the one to its left, win along the rising diagonal,
/// where nobody had won before.
pub proof fn lemma_four_on_a_rising_diagonal_win(g: Grid, piece: u8, c: int)
    requires
        valid(g),
        winner_of(g) is None,
        is_token(piece),
        0 <= c <= 3,
        height(g, c) <= 2,
        height(g, c + 1) == height(g, c) + 1,
        height(g, c + 2) == height(g, c) + 2,
        height(g, c + 3) == height(g, c) + 3,
    ensures
        winner_of(after_four(g, piece, c, c + 1, c + 2, c + 3)) == Some(piece),
{
    let h = height(g, c);
    let g1 = placed(g, c, piece);
    let g2 = placed(g1, c + 1, piece);
    let g3 = placed(g2, c + 2, piece);
    let g4 = placed(g3, c + 3, piece);
    lemma_column_height(g, c);
    lemma_placed_valid(g, c, piece);
    lemma_placed_valid(g1, c + 1, piece);
    lemma_placed_valid(g2, c + 2, piece);
    lemma_placed_valid(g3, c + 3, piece);
    lemma_line_numbers(c, h);
    let i = 45 + c * 3 + h;
    assert(g4[c][h] == piece && g4[c + 1][h + 1] == piece && g4[c + 2][h + 2] == piece && g4[c
        + 3][h + 3] == piece);
    assert(owner(g4, line(i)) == piece);
    lemma_four_placed(g, piece, c, c + 1, c + 2, c + 3, i);
}

/// The same along the other diagonal: each column one piece higher than the
/// one to its right.
pub proof fn lemma_four_on_a_falling_diagonal_win(g: Grid, piece: u8, c: int)
    requires
        valid(g),
        winner_of(g) is None,
        is_token(piece),
        3 <= c < 7,
        height(g, c) <= 2,
        height(g, c - 1) == height(g, c) + 1,
        height(g, c - 2) == height(g, c) + 2,
        height(g, c - 3) == height(g, c) + 3,
    ensures
        winner_of(after_four(g, piece, c, c - 1, c - 2, c - 3)) == Some(piece),
{
    let h = height(g, c);
    let g1 = placed(g, c, piece);
    let g2 = placed(g1, c - 1, piece);
    let g3 = placed(g2, c - 2, piece);
    let g4 = placed(g3, c - 3, piece);
    lemma_column_height(g, c);
    lemma_placed_valid(g, c, piece);
    lemma_placed_valid(g1, c - 1, piece);
    lemma_placed_valid(g2, c - 2, piece);
    lemma_placed_valid(g3, c - 3, piece);
    lemma_line_numbers(c, h);
    let i = 57 + (c - 3) * 3 + h;
    assert(g4[c][h] == piece && g4[c - 1][h + 1] == piece && g4[c - 2][h + 2] == piece && g4[c
        - 3][h + 3] == piece);
    assert(owner(g4, line(i)) == piece);
    lemma_four_placed(g, piece, c, c - 1, c - 2, c - 3, i);
}

} // verus!

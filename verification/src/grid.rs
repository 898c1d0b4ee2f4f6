//! The mathematical model of the board: a grid is a sequence of columns,
//! each column a sequence of cells from the bottom row up.
use crate::board::BoardPlaceError;
use vstd::prelude::*;

verus! {

/// Columns of cells; `g[c][r]` is the cell of column `c` at row `r`, row 0 lowest.
/// A cell holds 0 (empty), 1 (first player) or 2 (second player).
pub type Grid = Seq<Seq<u8>>;

/// The two values a player's piece can have.
pub open spec fn is_token(v: u8) -> bool {
    v == 1 || v == 2
}

pub open spec fn occupied(v: u8) -> int {
    if v != 0 {
        1
    } else {
        0
    }
}

/// The number of occupied cells of one column.
pub open spec fn column_height(col: Seq<u8>) -> int {
    occupied(col[0]) + occupied(col[1]) + occupied(col[2]) + occupied(col[3]) + occupied(col[4])
        + occupied(col[5])
}

/// The number of pieces in column `c`, which is also the row the next piece falls to.
pub open spec fn height(g: Grid, c: int) -> int {
    column_height(g[c])
}

/// The number of pieces on the whole grid.
pub open spec fn pieces(g: Grid) -> int {
    height(g, 0) + height(g, 1) + height(g, 2) + height(g, 3) + height(g, 4) + height(g, 5)
        + height(g, 6)
}

/// Seven columns of six cells.
pub open spec fn shaped(g: Grid) -> bool {
    &&& g.len() == 7
    &&& forall|c: int| 0 <= c < 7 ==> (#[trigger] g[c]).len() == 6
}

/// A grid that play can reach: in every column the pieces sit at the bottom
/// without a gap, and every cell above them is empty.
pub open spec fn valid(g: Grid) -> bool {
    &&& shaped(g)
    &&& forall|c: int, r: int|
        0 <= c < 7 && 0 <= r < 6 ==> if r < height(g, c) {
            is_token(#[trigger] g[c][r])
        } else {
            g[c][r] == 0
        }
}

pub open spec fn empty_grid() -> Grid {
    Seq::new(7, |c: int| Seq::new(6, |r: int| 0u8))
}

/// Every cell holds a piece.
pub open spec fn is_full(g: Grid) -> bool {
    forall|c: int, r: int| 0 <= c < 7 && 0 <= r < 6 ==> #[trigger] g[c][r] != 0
}

/// The grid with `piece` written into the lowest empty cell of column `c`.
pub open spec fn drop_into(g: Grid, c: int, piece: u8) -> Grid {
    g.update(c, g[c].update(height(g, c), piece))
}

/// Why a placement is refused, if it is. The piece is judged before the column.
pub open spec fn place_error(g: Grid, c: int, piece: u8) -> Option<BoardPlaceError> {
    if !is_token(piece) {
        Some(BoardPlaceError::InvalidPiece)
    } else if !(0 <= c < 7) || height(g, c) >= 6 {
        Some(BoardPlaceError::InvalidColumn)
    } else {
        None
    }
}

/// The grid after an attempt to place `piece` in column `c`: a refused
/// placement leaves the grid as it was.
pub open spec fn placed(g: Grid, c: int, piece: u8) -> Grid {
    if place_error(g, c, piece) is None {
        drop_into(g, c, piece)
    } else {
        g
    }
}

/// Whether column `c` exists and still takes a piece.
pub open spec fn is_open(g: Grid, c: int) -> bool {
    0 <= c < 7 && height(g, c) < 6
}

pub proof fn lemma_empty_grid_valid()
    ensures
        valid(empty_grid()),
        pieces(empty_grid()) == 0,
        forall|c: int| 0 <= c < 7 ==> height(empty_grid(), c) == 0,
{
}

/// A placement keeps the grid valid; an accepted one raises the column by one
/// and leaves every other cell alone.
pub proof fn lemma_placed_valid(g: Grid, c: int, piece: u8)
    requires
        valid(g),
    ensures
        valid(placed(g, c, piece)),
        place_error(g, c, piece) is None ==> {
            &&& height(placed(g, c, piece), c) == height(g, c) + 1
            &&& pieces(placed(g, c, piece)) == pieces(g) + 1
            &&& placed(g, c, piece)[c][height(g, c)] == piece
            &&& forall|d: int| 0 <= d < 7 && d != c ==> placed(g, c, piece)[d] == g[d]
            &&& forall|r: int|
                0 <= r < 6 && r != height(g, c) ==> placed(g, c, piece)[c][r] == g[c][r]
        },
{
    if place_error(g, c, piece) is None {
        let h = height(g, c);
        let n = placed(g, c, piece);
        assert(g[c][h] == 0);
        assert(n[c] == g[c].update(h, piece));
        assert(height(n, c) == h + 1);
        assert forall|d: int, r: int| 0 <= d < 7 && 0 <= r < 6 implies if r < height(n, d) {
            is_token(#[trigger] n[d][r])
        } else {
            n[d][r] == 0
        } by {
            if d != c {
                assert(n[d] == g[d]);
            }
            let x = g[d][r];
        }
    }
}

/// In a valid grid a column's height is between 0 and 6, and it is 6 exactly
/// when no cell of the column is empty.
pub proof fn lemma_column_height(g: Grid, c: int)
    requires
        valid(g),
        0 <= c < 7,
    ensures
        0 <= height(g, c) <= 6,
        height(g, c) == 6 <==> forall|r: int| 0 <= r < 6 ==> #[trigger] g[c][r] != 0,
{
    let col = g[c];
    assert(col[0] == g[c][0] && col[1] == g[c][1] && col[2] == g[c][2] && col[3] == g[c][3]
        && col[4] == g[c][4] && col[5] == g[c][5]);
    if height(g, c) < 6 {
        assert(g[c][height(g, c)] == 0);
    }
}

/// A valid grid is full exactly when it holds 42 pieces, and exactly when
/// every column has reached the top.
pub proof fn lemma_full_by_count(g: Grid)
    requires
        valid(g),
    ensures
        0 <= pieces(g) <= 42,
        is_full(g) <==> pieces(g) == 42,
        is_full(g) <==> forall|c: int| 0 <= c < 7 ==> height(g, c) == 6,
        forall|c: int| 0 <= c < 7 ==> 0 <= #[trigger] height(g, c) <= 6,
{
    lemma_column_height(g, 0);
    lemma_column_height(g, 1);
    lemma_column_height(g, 2);
    lemma_column_height(g, 3);
    lemma_column_height(g, 4);
    lemma_column_height(g, 5);
    lemma_column_height(g, 6);
    let tops = forall|c: int| 0 <= c < 7 ==> height(g, c) == 6;
    if is_full(g) {
        assert forall|c: int| 0 <= c < 7 implies height(g, c) == 6 by {
            lemma_column_height(g, c);
        }
    }
    if tops {
        assert forall|c: int, r: int| 0 <= c < 7 && 0 <= r < 6 implies #[trigger] g[c][r]
            != 0 by {
            lemma_column_height(g, c);
        }
        assert(height(g, 0) == 6 && height(g, 6) == 6);
    }
    if pieces(g) == 42 {
        assert(height(g, 0) == 6 && height(g, 1) == 6 && height(g, 2) == 6 && height(g, 3) == 6
            && height(g, 4) == 6 && height(g, 5) == 6 && height(g, 6) == 6);
    }
}

/// Four cells in a row: the first at (`col`, `row`), each next one `dcol`
/// columns and `drow` rows further.
pub struct Line {
    pub col: int,
    pub row: int,
    pub dcol: int,
    pub drow: int,
}

/// How many lines of four fit on the grid.
pub open spec fn line_count() -> int {
    69
}

/// The lines of four in the order in which a win is looked for: first the 21
/// vertical ones, column by column and upwards; then the 24 horizontal ones,
/// row by row and rightwards; then the 12 that rise to the right and the 12
/// that rise to the left, each column by column and upwards.
pub open spec fn line(i: int) -> Line {
    if i < 21 {
        Line { col: i / 3, row: i % 3, dcol: 0, drow: 1 }
    } else if i < 45 {
        Line { col: (i - 21) % 4, row: (i - 21) / 4, dcol: 1, drow: 0 }
    } else if i < 57 {
        Line { col: (i - 45) / 3, row: (i - 45) % 3, dcol: 1, drow: 1 }
    } else {
        Line { col: 3 + (i - 57) / 3, row: (i - 57) % 3, dcol: -1, drow: 1 }
    }
}

/// The `k`-th cell of a line, `k` from 0 to 3.
pub open spec fn line_cell(g: Grid, l: Line, k: int) -> u8 {
    g[l.col + k * l.dcol][l.row + k * l.drow]
}

/// The piece that holds all four cells of a line, or 0 if none does.
pub open spec fn owner(g: Grid, l: Line) -> u8 {
    let v = line_cell(g, l, 0);
    if v != 0 && line_cell(g, l, 1) == v && line_cell(g, l, 2) == v && line_cell(g, l, 3) == v {
        v
    } else {
        0
    }
}

/// Whether the `i`-th line is held by one piece.
pub open spec fn won_at(g: Grid, i: int) -> bool {
    owner(g, line(i)) != 0
}

/// Whether the `i`-th line is the first held line among those numbered `lo` and up.
pub open spec fn first_win_from(g: Grid, lo: int, i: int) -> bool {
    &&& lo <= i < line_count()
    &&& won_at(g, i)
    &&& forall|j: int| lo <= j < i ==> !won_at(g, j)
}

/// Whether the `i`-th line is the first held line of all.
pub open spec fn first_win(g: Grid, i: int) -> bool {
    first_win_from(g, 0, i)
}

/// The piece that holds the first held line, if any line is held.
pub open spec fn winner_of(g: Grid) -> Option<u8> {
    if exists|i: int| first_win(g, i) {
        Some(owner(g, line(choose|i: int| first_win(g, i))))
    } else {
        None
    }
}

/// What a search of the lines `lo..hi` reports: the owner of the first held
/// line among them, or nothing if none of them is held.
pub open spec fn found_in(g: Grid, lo: int, hi: int, found: Option<u8>) -> bool {
    match found {
        Some(p) => exists|i: int|
            i < hi && #[trigger] first_win_from(g, lo, i) && owner(g, line(i)) == p,
        None => forall|j: int| lo <= j < hi ==> !won_at(g, j),
    }
}

/// A line lies on the grid and runs in one of the four directions.
pub open spec fn on_grid(l: Line) -> bool {
    &&& (l.dcol == 0 && l.drow == 1) || (l.dcol == 1 && l.drow == 0) || (l.dcol == 1 && l.drow == 1)
        || (l.dcol == -1 && l.drow == 1)
    &&& 0 <= l.col < 7
    &&& 0 <= l.col + 3 * l.dcol < 7
    &&& 0 <= l.row < 6
    &&& 0 <= l.row + 3 * l.drow < 6
}

/// The number under which a line on the grid is looked at.
pub open spec fn line_index(l: Line) -> int {
    if l.dcol == 0 {
        l.col * 3 + l.row
    } else if l.drow == 0 {
        21 + l.row * 4 + l.col
    } else if l.dcol == 1 {
        45 + l.col * 3 + l.row
    } else {
        57 + (l.col - 3) * 3 + l.row
    }
}

/// The numbered lines are exactly the lines of four on the grid.
pub proof fn lemma_lines_are_all(l: Line, i: int)
    ensures
        on_grid(l) ==> 0 <= line_index(l) < line_count() && line(line_index(l)) == l,
        0 <= i < line_count() ==> on_grid(line(i)) && line_index(line(i)) == i,
{
}

/// Where each line of four stands in the order of the search.
pub proof fn lemma_line_numbers(c: int, r: int)
    ensures
        0 <= c < 7 && 0 <= r < 3 ==> line(c * 3 + r) == (Line { col: c, row: r, dcol: 0, drow: 1 }),
        0 <= c < 4 && 0 <= r < 6 ==> line(21 + r * 4 + c) == (Line {
            col: c,
            row: r,
            dcol: 1,
            drow: 0,
        }),
        0 <= c < 4 && 0 <= r < 3 ==> line(45 + c * 3 + r) == (Line {
            col: c,
            row: r,
            dcol: 1,
            drow: 1,
        }),
        3 <= c < 7 && 0 <= r < 3 ==> line(57 + (c - 3) * 3 + r) == (Line {
            col: c,
            row: r,
            dcol: -1,
            drow: 1,
        }),
{
}

/// The first held line decides the winner.
pub proof fn lemma_winner_at(g: Grid, i: int)
    requires
        first_win(g, i),
    ensures
        winner_of(g) == Some(owner(g, line(i))),
{
    let k = choose|k: int| first_win(g, k);
    assert(first_win(g, k));
    if k < i {
        assert(won_at(g, k));
    }
    if i < k {
        assert(won_at(g, i));
    }
}

/// A held line makes a winner.
pub proof fn lemma_held_line_wins(g: Grid, i: int)
    requires
        0 <= i < line_count(),
        won_at(g, i),
    ensures
        winner_of(g) is Some,
{
    lemma_some_first_win(g, 0, i);
    let k = choose|k: int| 0 <= k <= i && first_win_from(g, 0, k);
    assert(first_win(g, k));
}

/// There is a winner exactly when some line of four on the grid is held by
/// one piece, and the winner holds such a line.
pub proof fn lemma_winner_holds_a_line(g: Grid)
    ensures
        winner_of(g) is Some <==> exists|l: Line| on_grid(l) && #[trigger] owner(g, l) != 0,
        winner_of(g) matches Some(p) ==> p != 0 && exists|l: Line|
            on_grid(l) && #[trigger] owner(g, l) == p,
        winner_of(g) is None <==> forall|i: int| 0 <= i < line_count() ==> !won_at(g, i),
{
    if winner_of(g) is Some {
        let k = choose|k: int| first_win(g, k);
        assert(first_win(g, k));
        lemma_lines_are_all(line(k), k);
        assert(on_grid(line(k)) && owner(g, line(k)) != 0);
        assert(won_at(g, k));
    }
    if exists|l: Line| on_grid(l) && #[trigger] owner(g, l) != 0 {
        let l = choose|l: Line| on_grid(l) && #[trigger] owner(g, l) != 0;
        lemma_lines_are_all(l, 0);
        let i = line_index(l);
        assert(won_at(g, i));
        lemma_held_line_wins(g, i);
    }
    if !(forall|i: int| 0 <= i < line_count() ==> !won_at(g, i)) {
        let i = choose|i: int| 0 <= i < line_count() && won_at(g, i);
        lemma_held_line_wins(g, i);
    }
}

/// If a line numbered `lo` or more is held, one of them is the first.
pub proof fn lemma_some_first_win(g: Grid, lo: int, i: int)
    requires
        lo <= i < line_count(),
        won_at(g, i),
    ensures
        exists|k: int| lo <= k <= i && first_win_from(g, lo, k),
    decreases i - lo,
{
    if exists|j: int| lo <= j < i && won_at(g, j) {
        let j = choose|j: int| lo <= j < i && won_at(g, j);
        lemma_some_first_win(g, lo, j);
    } else {
        assert(first_win_from(g, lo, i));
    }
}

/// What a search found among the first lines stands when more lines follow.
pub proof fn lemma_found_early(g: Grid, lo: int, mid: int, hi: int, found: Option<u8>)
    requires
        mid <= hi,
        found is Some,
        found_in(g, lo, mid, found),
    ensures
        found_in(g, lo, hi, found),
{
    let i = choose|i: int|
        i < mid && #[trigger] first_win_from(g, lo, i) && owner(g, line(i)) == found->0;
    assert(i < hi && first_win_from(g, lo, i));
}

/// Where the first lines hold nothing, a search of the lines after them
/// speaks for both ranges.
pub proof fn lemma_found_late(g: Grid, lo: int, mid: int, hi: int, found: Option<u8>)
    requires
        lo <= mid,
        found_in(g, lo, mid, None),
        found_in(g, mid, hi, found),
    ensures
        found_in(g, lo, hi, found),
{
    if found is Some {
        let i = choose|i: int|
            i < hi && #[trigger] first_win_from(g, mid, i) && owner(g, line(i)) == found->0;
        assert(first_win_from(g, lo, i));
    }
}

/// A search of all the lines reports the winner.
pub proof fn lemma_found_is_winner(g: Grid, found: Option<u8>)
    requires
        found_in(g, 0, line_count(), found),
    ensures
        found == winner_of(g),
{
    match found {
        Some(p) => {
            let i = choose|i: int|
                i < line_count() && #[trigger] first_win_from(g, 0, i) && owner(g, line(i)) == p;
            lemma_winner_at(g, i);
        },
        None => {
            if exists|i: int| first_win(g, i) {
                let i = choose|i: int| first_win(g, i);
                assert(won_at(g, i));
            }
        },
    }
}

/// On a valid grid a line is held by a player's token or by nothing, so a
/// winner is always one of the two players.
pub proof fn lemma_winner_is_token(g: Grid)
    requires
        valid(g),
    ensures
        winner_of(g) matches Some(p) ==> is_token(p),
        forall|i: int|
            0 <= i < line_count() ==> owner(g, #[trigger] line(i)) == 0 || is_token(
                owner(g, line(i)),
            ),
{
    assert forall|i: int| 0 <= i < line_count() implies owner(g, #[trigger] line(i)) == 0
        || is_token(owner(g, line(i))) by {
        lemma_lines_are_all(line(i), i);
        let l = line(i);
        let v = g[l.col][l.row];
        assert(v == line_cell(g, l, 0));
    }
    if winner_of(g) is Some {
        let k = choose|k: int| first_win(g, k);
        assert(first_win(g, k));
        assert(owner(g, line(k)) != 0);
    }
}

} // verus!

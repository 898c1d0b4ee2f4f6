//! The board engine: placement under gravity and the queries on the grid.
use crate::grid::{
    drop_into, empty_grid, first_win_from, found_in, height, is_full, is_open, is_token,
    lemma_column_height, lemma_empty_grid_valid, lemma_found_early, lemma_found_is_winner,
    lemma_found_late, lemma_full_by_count, lemma_line_numbers, lemma_placed_valid,
    lemma_winner_is_token, line, owner, pieces, place_error, placed, valid, winner_of, won_at,
    Grid,
};
use crate::player::{outcome_of, Outcome, Player};
use vstd::prelude::*;

verus! {

pub const WIDTH: usize = 7;

pub const HEIGHT: usize = 6;

/// Why `Board::place` refused a piece.
#[derive(PartialEq, Eq, Debug, Clone, Copy, Structural)]
pub enum BoardPlaceError {
    /// The column does not exist or is filled to the top.
    InvalidColumn,
    /// The piece is not the token of either player.
    InvalidPiece,
}

/// Seven columns of six cells; a piece falls to the lowest empty cell of its column.
#[derive(Debug, Clone, Copy)]
pub struct Board {
    slots: [[u8; HEIGHT]; WIDTH],
}

impl Board {
    pub closed spec fn view(&self) -> Grid {
        grid_of(self.slots)
    }

    /// Holds of every board there is.
    #[verifier::type_invariant]
    pub open spec fn inv(&self) -> bool {
        valid(self@)
    }

    /// Every board that exists is a valid grid.
    pub fn new() -> (board: Board)
        ensures
            board@ == empty_grid(),
            valid(board@),
    {
        let board = Board { slots: [[0; HEIGHT]; WIDTH] };
        proof {
            assert(board@ =~~= empty_grid());
            lemma_empty_grid_valid();
        }
        board
    }

    /// The cells as they are stored: one array per column, bottom row first.
    pub fn slots(&self) -> (cells: [[u8; HEIGHT]; WIDTH])
        ensures
            valid(self@),
            forall|c: int, r: int| 0 <= c < 7 && 0 <= r < 6 ==> cells[c][r] == self@[c][r],
    {
        proof {
            use_type_invariant(self);
        }
        self.slots
    }

    /// The lowest empty row of a column, if the column exists and has one.
    pub fn first_available_row_for_column(&self, col: usize) -> (row: Option<usize>)
        ensures
            valid(self@),
            row == if col < 7 && height(self@, col as int) < 6 {
                Some(height(self@, col as int) as usize)
            } else {
                None
            },
    {
        proof {
            use_type_invariant(self);
        }
        if col >= WIDTH {
            return None;
        }
        let mut row: usize = 0;
        while row < HEIGHT
            invariant
                col < 7,
                row <= 6,
                valid(self@),
                forall|r: int| 0 <= r < row ==> self@[col as int][r] != 0,
            decreases 6 - row,
        {
            if self.slots[col][row] == 0 {
                proof {
                    let g = self@;
                    let c = col as int;
                    assert(g[c][row as int] == 0);
                    assert(height(g, c) <= row) by {
                        if height(g, c) > row {
                            assert(is_token(g[c][row as int]));
                        }
                    }
                    assert(height(g, c) >= row) by {
                        if height(g, c) < row {
                            assert(g[c][height(g, c)] == 0);
                        }
                    }
                }
                return Some(row);
            }
            row += 1;
        }
        proof {
            let g = self@;
            let c = col as int;
            assert(g[c][0] != 0 && g[c][1] != 0 && g[c][2] != 0 && g[c][3] != 0 && g[c][4] != 0
                && g[c][5] != 0);
        }
        None
    }

    /// Drops `piece` into column `col`. The piece is judged first, then the
    /// column; a refused placement changes nothing.
    pub fn place(&mut self, col: usize, piece: u8) -> (res: Result<(), BoardPlaceError>)
        ensures
            res == match place_error(old(self)@, col as int, piece) {
                Some(e) => Err::<(), BoardPlaceError>(e),
                None => Ok(()),
            },
            final(self)@ == placed(old(self)@, col as int, piece),
            !is_token(piece) ==> res == Err::<(), BoardPlaceError>(BoardPlaceError::InvalidPiece)
                && final(self)@ == old(self)@,
            res is Err ==> final(self)@ == old(self)@,
            valid(old(self)@),
            valid(final(self)@),
    {
        proof {
            use_type_invariant(&*self);
            lemma_placed_valid(self@, col as int, piece);
        }
        if piece < 1 || piece > 2 {
            return Err(BoardPlaceError::InvalidPiece);
        }
        match self.first_available_row_for_column(col) {
            Some(row) => {
                let ghost before = self@;
                let mut slots = self.slots;
                slots[col][row] = piece;
                proof {
                    let after = drop_into(before, col as int, piece);
                    assert forall|c: int| 0 <= c < 7 implies #[trigger] grid_of(slots)[c]
                        =~= after[c] by {}
                    assert(grid_of(slots) =~= after);
                }
                self.slots = slots;
                Ok(())
            },
            None => Err(BoardPlaceError::InvalidColumn),
        }
    }

    /// The player who holds four cells in a row, if one does: upwards in a
    /// column, rightwards in a row, or along either diagonal. Where several
    /// lines are held, the first in the order of the search decides.
    pub fn winner(&self) -> (found: Option<u8>)
        ensures
            found == winner_of(self@),
    {
        let ghost g = self@;
        let upwards = self.winner_in_columns();
        if upwards.is_some() {
            proof {
                lemma_found_early(g, 0, 21, 69, upwards);
                lemma_found_is_winner(g, upwards);
            }
            return upwards;
        }
        let rightwards = self.winner_in_rows();
        proof {
            lemma_found_late(g, 0, 21, 45, rightwards);
        }
        if rightwards.is_some() {
            proof {
                lemma_found_early(g, 0, 45, 69, rightwards);
                lemma_found_is_winner(g, rightwards);
            }
            return rightwards;
        }
        let rising = self.winner_on_rising_diagonals();
        proof {
            lemma_found_late(g, 0, 45, 57, rising);
        }
        if rising.is_some() {
            proof {
                lemma_found_early(g, 0, 57, 69, rising);
                lemma_found_is_winner(g, rising);
            }
            return rising;
        }
        let falling = self.winner_on_falling_diagonals();
        proof {
            lemma_found_late(g, 0, 57, 69, falling);
            lemma_found_is_winner(g, falling);
        }
        falling
    }

    /// Walks each column upwards and keeps the start of the run of equal
    /// pieces that ends at the current cell; an empty cell ends the run.
    fn winner_in_columns(&self) -> (found: Option<u8>)
        ensures
            found_in(self@, 0, 21, found),
    {
        let ghost g = self@;
        let mut col: usize = 0;
        while col < WIDTH
            invariant
                col <= 7,
                g == self@,
                forall|j: int| 0 <= j < col * 3 ==> !won_at(g, j),
            decreases 7 - col,
        {
            let mut pos: usize = 0;
            let mut piece: u8 = 0;
            let mut row: usize = 0;
            while row < HEIGHT
                invariant
                    col < 7,
                    row <= 6,
                    g == self@,
                    forall|j: int| 0 <= j < col * 3 ==> !won_at(g, j),
                    forall|j: int| col * 3 <= j < col * 3 + row - 3 ==> !won_at(g, j),
                    piece == 0 ==> row == 0 || g[col as int][row - 1] == 0,
                    piece != 0 ==> pos < row && row - pos <= 3,
                    piece != 0 ==> forall|r: int| pos <= r < row ==> g[col as int][r] == piece,
                    piece != 0 ==> pos == 0 || g[col as int][pos - 1] != piece,
                decreases 6 - row,
            {
                let v = self.slots[col][row];
                assert(v == g[col as int][row as int]);
                if v == 0 {
                    piece = 0;
                } else {
                    if piece != v {
                        pos = row;
                        piece = v;
                    }
                    if row - pos >= 3 {
                        proof {
                            let i = col * 3 + row - 3;
                            lemma_line_numbers(col as int, row - 3);
                            assert(g[col as int][row - 3] == piece);
                            assert(g[col as int][row - 2] == piece);
                            assert(g[col as int][row - 1] == piece);
                            assert(owner(g, line(i)) == piece);
                            assert(first_win_from(g, 0, i));
                        }
                        return Some(piece);
                    }
                }
                proof {
                    if row >= 3 {
                        let i = col * 3 + row - 3;
                        lemma_line_numbers(col as int, row - 3);
                        if piece != 0 {
                            assert(g[col as int][pos - 1] != piece);
                            assert(g[col as int][row as int] == piece);
                        }
                        assert(!won_at(g, i));
                    }
                }
                row += 1;
            }
            col += 1;
        }
        None
    }

    /// Walks each row rightwards in the same way.
    fn winner_in_rows(&self) -> (found: Option<u8>)
        ensures
            found_in(self@, 21, 45, found),
    {
        let ghost g = self@;
        let mut row: usize = 0;
        while row < HEIGHT
            invariant
                row <= 6,
                g == self@,
                forall|j: int| 21 <= j < 21 + row * 4 ==> !won_at(g, j),
            decreases 6 - row,
        {
            let mut pos: usize = 0;
            let mut piece: u8 = 0;
            let mut col: usize = 0;
            while col < WIDTH
                invariant
                    row < 6,
                    col <= 7,
                    g == self@,
                    forall|j: int| 21 <= j < 21 + row * 4 ==> !won_at(g, j),
                    forall|j: int| 21 + row * 4 <= j < 21 + row * 4 + col - 3 ==> !won_at(g, j),
                    piece == 0 ==> col == 0 || g[col - 1][row as int] == 0,
                    piece != 0 ==> pos < col && col - pos <= 3,
                    piece != 0 ==> forall|c: int| pos <= c < col ==> g[c][row as int] == piece,
                    piece != 0 ==> pos == 0 || g[pos - 1][row as int] != piece,
                decreases 7 - col,
            {
                let v = self.slots[col][row];
                assert(v == g[col as int][row as int]);
                if v == 0 {
                    piece = 0;
                } else {
                    if piece != v {
                        pos = col;
                        piece = v;
                    }
                    if col - pos >= 3 {
                        proof {
                            let i = 21 + row * 4 + col - 3;
                            lemma_line_numbers(col - 3, row as int);
                            assert(g[col - 3][row as int] == piece);
                            assert(g[col - 2][row as int] == piece);
                            assert(g[col - 1][row as int] == piece);
                            assert(owner(g, line(i)) == piece);
                            assert(first_win_from(g, 21, i));
                        }
                        return Some(piece);
                    }
                }
                proof {
                    if col >= 3 {
                        let i = 21 + row * 4 + col - 3;
                        lemma_line_numbers(col - 3, row as int);
                        if piece != 0 {
                            assert(g[pos - 1][row as int] != piece);
                            assert(g[col as int][row as int] == piece);
                        }
                        assert(!won_at(g, i));
                    }
                }
                col += 1;
            }
            row += 1;
        }
        None
    }

    /// Tries each cell from which a diagonal of four can rise to the right.
    fn winner_on_rising_diagonals(&self) -> (found: Option<u8>)
        ensures
            found_in(self@, 45, 57, found),
    {
        let ghost g = self@;
        let mut col: usize = 0;
        while col < WIDTH - 3
            invariant
                col <= 4,
                g == self@,
                forall|j: int| 45 <= j < 45 + col * 3 ==> !won_at(g, j),
            decreases 4 - col,
        {
            let mut row: usize = 0;
            while row < HEIGHT - 3
                invariant
                    col < 4,
                    row <= 3,
                    g == self@,
                    forall|j: int| 45 <= j < 45 + col * 3 + row ==> !won_at(g, j),
                decreases 3 - row,
            {
                let piece = self.slots[col][row];
                proof {
                    lemma_line_numbers(col as int, row as int);
                    assert(piece == g[col as int][row as int]);
                    assert(self.slots[col + 1][row + 1] == g[col + 1][row + 1]);
                    assert(self.slots[col + 2][row + 2] == g[col + 2][row + 2]);
                    assert(self.slots[col + 3][row + 3] == g[col + 3][row + 3]);
                }
                if piece != 0 && self.slots[col + 1][row + 1] == piece && self.slots[col + 2][row
                    + 2] == piece && self.slots[col + 3][row + 3] == piece {
                    proof {
                        let i = 45 + col * 3 + row;
                        assert(owner(g, line(i)) == piece);
                        assert(first_win_from(g, 45, i));
                    }
                    return Some(piece);
                }
                assert(!won_at(g, 45 + col * 3 + row));
                row += 1;
            }
            col += 1;
        }
        None
    }

    /// Tries each cell from which a diagonal of four can rise to the left.
    fn winner_on_falling_diagonals(&self) -> (found: Option<u8>)
        ensures
            found_in(self@, 57, 69, found),
    {
        let ghost g = self@;
        let mut col: usize = WIDTH - 4;
        while col < WIDTH
            invariant
                3 <= col <= 7,
                g == self@,
                forall|j: int| 57 <= j < 57 + (col - 3) * 3 ==> !won_at(g, j),
            decreases 7 - col,
        {
            let mut row: usize = 0;
            while row < HEIGHT - 3
                invariant
                    3 <= col < 7,
                    row <= 3,
                    g == self@,
                    forall|j: int| 57 <= j < 57 + (col - 3) * 3 + row ==> !won_at(g, j),
                decreases 3 - row,
            {
                let piece = self.slots[col][row];
                proof {
                    lemma_line_numbers(col as int, row as int);
                    assert(piece == g[col as int][row as int]);
                    assert(self.slots[col - 1][row + 1] == g[col - 1][row + 1]);
                    assert(self.slots[col - 2][row + 2] == g[col - 2][row + 2]);
                    assert(self.slots[col - 3][row + 3] == g[col - 3][row + 3]);
                }
                if piece != 0 && self.slots[col - 1][row + 1] == piece && self.slots[col - 2][row
                    + 2] == piece && self.slots[col - 3][row + 3] == piece {
                    proof {
                        let i = 57 + (col - 3) * 3 + row;
                        assert(owner(g, line(i)) == piece);
                        assert(first_win_from(g, 57, i));
                    }
                    return Some(piece);
                }
                assert(!won_at(g, 57 + (col - 3) * 3 + row));
                row += 1;
            }
            col += 1;
        }
        None
    }

    /// How the game on this board stands. A held line counts before a full
    /// board: a board that is both full and won is won.
    pub fn outcome(&self) -> (o: Outcome)
        ensures
            o == outcome_of(self@),
            winner_of(self@) is Some ==> o is Won,
            (o is Draw) == (winner_of(self@) is None && is_full(self@)),
    {
        proof {
            use_type_invariant(self);
            lemma_winner_is_token(self@);
        }
        match self.winner() {
            Some(token) => match Player::from_token(token) {
                Some(p) => Outcome::Won(p),
                None => Outcome::InProgress,
            },
            None => if self.full() {
                Outcome::Draw
            } else {
                Outcome::InProgress
            },
        }
    }

    /// Whether the game is over: won or drawn.
    pub fn finished(&self) -> (done: bool)
        ensures
            done == (winner_of(self@) is Some || is_full(self@)),
            done == !(outcome_of(self@) is InProgress),
    {
        match self.outcome() {
            Outcome::InProgress => false,
            _ => true,
        }
    }

    /// The columns that still take a piece, in ascending order.
    pub fn available_columns(&self) -> (cols: Vec<usize>)
        ensures
            forall|c: usize| cols@.contains(c) <==> is_open(self@, c as int),
            forall|i: int, j: int| 0 <= i < j < cols@.len() ==> cols@[i] < cols@[j],
            cols@.len() == 0 <==> is_full(self@),
    {
        proof {
            use_type_invariant(self);
            lemma_full_by_count(self@);
        }
        let ghost g = self@;
        let mut cols: Vec<usize> = Vec::new();
        let mut col: usize = 0;
        while col < WIDTH
            invariant
                col <= 7,
                g == self@,
                valid(g),
                forall|i: int|
                    0 <= i < cols@.len() ==> cols@[i] < col && is_open(g, cols@[i] as int),
                forall|c: int| 0 <= c < col && is_open(g, c) ==> cols@.contains(c as usize),
                forall|i: int, j: int| 0 <= i < j < cols@.len() ==> cols@[i] < cols@[j],
            decreases 7 - col,
        {
            let ghost before = cols@;
            if self.first_available_row_for_column(col).is_some() {
                cols.push(col);
                assert(cols@[before.len() as int] == col);
            }
            proof {
                assert forall|c: int| 0 <= c < col + 1 && is_open(g, c) implies cols@.contains(
                    c as usize,
                ) by {
                    if c < col {
                        assert(before.contains(c as usize));
                        let i = choose|i: int| 0 <= i < before.len() && before[i] == c as usize;
                        assert(cols@[i] == c as usize);
                    } else {
                        assert(cols@[before.len() as int] == c as usize);
                    }
                }
            }
            col += 1;
        }
        proof {
            assert forall|c: usize| cols@.contains(c) <==> is_open(g, c as int) by {
                if cols@.contains(c) {
                    let i = choose|i: int| 0 <= i < cols@.len() && cols@[i] == c;
                    assert(is_open(g, cols@[i] as int));
                }
                if is_open(g, c as int) {
                    assert(cols@.contains((c as int) as usize));
                }
            }
            if cols@.len() == 0 {
                assert forall|c: int| 0 <= c < 7 implies height(g, c) == 6 by {
                    lemma_column_height(g, c);
                    if is_open(g, c) {
                        assert(cols@.contains(c as usize));
                    }
                }
            } else {
                assert(is_open(g, cols@[0] as int));
            }
        }
        cols
    }

    /// The cells in one row of 42: the cell of column `c` and row `r` stands
    /// at `c * 6 + r`.
    pub fn flatten(&self) -> (cells: Vec<u8>)
        ensures
            cells@.len() == 42,
            forall|c: int, r: int| 0 <= c < 7 && 0 <= r < 6 ==> cells@[c * 6 + r] == self@[c][r],
    {
        let ghost g = self@;
        let mut cells: Vec<u8> = Vec::new();
        let mut col: usize = 0;
        while col < WIDTH
            invariant
                col <= 7,
                g == self@,
                cells@.len() == col * 6,
                forall|c: int, r: int| 0 <= c < col && 0 <= r < 6 ==> cells@[c * 6 + r] == g[c][r],
            decreases 7 - col,
        {
            let mut row: usize = 0;
            while row < HEIGHT
                invariant
                    col < 7,
                    row <= 6,
                    g == self@,
                    cells@.len() == col * 6 + row,
                    forall|c: int, r: int|
                        0 <= c < col && 0 <= r < 6 ==> cells@[c * 6 + r] == g[c][r],
                    forall|r: int| 0 <= r < row ==> cells@[col * 6 + r] == g[col as int][r],
                decreases 6 - row,
            {
                cells.push(self.slots[col][row]);
                row += 1;
            }
            col += 1;
        }
        cells
    }

    /// Whether every cell holds a piece.
    pub fn full(&self) -> (b: bool)
        ensures
            b == is_full(self@),
            b == (pieces(self@) == 42),
    {
        proof {
            use_type_invariant(self);
            lemma_full_by_count(self@);
        }
        let mut col: usize = 0;
        while col < WIDTH
            invariant
                col <= 7,
                forall|c: int, r: int| 0 <= c < col && 0 <= r < 6 ==> #[trigger] self@[c][r] != 0,
            decreases 7 - col,
        {
            let mut row: usize = 0;
            while row < HEIGHT
                invariant
                    col < 7,
                    row <= 6,
                    forall|c: int, r: int|
                        0 <= c < col && 0 <= r < 6 ==> #[trigger] self@[c][r] != 0,
                    forall|r: int| 0 <= r < row ==> #[trigger] self@[col as int][r] != 0,
                decreases 6 - row,
            {
                if self.slots[col][row] == 0 {
                    assert(self@[col as int][row as int] == 0);
                    return false;
                }
                row += 1;
            }
            col += 1;
        }
        true
    }

    /// The glyph that shows a cell.
    pub fn rune_for_piece(piece: u8) -> (glyph: char)
        ensures
            glyph == glyph_of(piece),
    {
        if piece == 1 {
            'X'
        } else if piece == 2 {
            'O'
        } else {
            '.'
        }
    }
}

spec fn grid_of(slots: [[u8; HEIGHT]; WIDTH]) -> Grid {
    Seq::new(7, |c: int| Seq::new(6, |r: int| slots[c][r]))
}

/// `X` for the first player, `O` for the second, `.` for anything else.
pub open spec fn glyph_of(piece: u8) -> char {
    if piece == 1 {
        'X'
    } else if piece == 2 {
        'O'
    } else {
        '.'
    }
}

} // verus!

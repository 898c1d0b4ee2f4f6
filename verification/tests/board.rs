use connect_four::board::{Board, BoardPlaceError, HEIGHT, WIDTH};
use connect_four::player::{Outcome, Player};

fn setup_board() -> Board {
    Board::new()
}

#[test]
fn test_board_creation() {
    let board = setup_board();
    assert_eq!(board.slots(), [[0; HEIGHT]; WIDTH]);
}

#[test]
fn test_returns_none_for_out_of_bound_column() {
    let board = setup_board();
    assert!(board.first_available_row_for_column(WIDTH + 1).is_none());
}

#[test]
fn test_returns_none_for_full_column() {
    let mut board = setup_board();
    for _ in 0..HEIGHT {
        assert!(board.place(0, 1).is_ok());
    }
    assert!(board.first_available_row_for_column(0).is_none());
}

#[test]
fn test_returns_some_for_good_column() {
    let mut board = setup_board();
    assert_eq!(board.first_available_row_for_column(0).unwrap(), 0);
    assert!(board.place(0, 1).is_ok());
    assert_eq!(board.first_available_row_for_column(0).unwrap(), 1);
}

#[test]
fn test_returns_err_for_invalid_piece_placement() {
    let mut board = setup_board();
    assert_eq!(board.place(0, 0), Err(BoardPlaceError::InvalidPiece));
    assert_eq!(board.place(0, 3), Err(BoardPlaceError::InvalidPiece));
}

#[test]
fn test_returns_winner_with_simple_column() {
    let mut board = setup_board();
    for _ in 0..=3 {
        assert!(board.winner().is_none());
        let _ = board.place(0, 1);
    }
    assert_eq!(board.winner().unwrap(), 1);
}

#[test]
fn test_returns_winner_with_interspersed_column() {
    let mut board = setup_board();
    let _ = board.place(0, 1);
    let _ = board.place(0, 2);
    let _ = board.place(1, 2);
    for _ in 0..=3 {
        assert!(board.winner().is_none());
        let _ = board.place(1, 1);
    }
    assert_eq!(board.winner().unwrap(), 1);
}

#[test]
fn test_returns_winner_with_simple_row() {
    let mut board = setup_board();
    for i in 0..=3 {
        assert!(board.winner().is_none());
        let _ = board.place(i, 1);
    }
    assert_eq!(board.winner().unwrap(), 1);
}

#[test]
fn test_returns_winner_with_interspersed_row() {
    let mut board = setup_board();
    let _ = board.place(0, 1);
    let _ = board.place(1, 2);
    let _ = board.place(2, 2);
    let _ = board.place(3, 2);
    let _ = board.place(4, 1);
    let _ = board.place(0, 2);
    for i in 1..=4 {
        assert!(board.winner().is_none());
        let _ = board.place(i, 1);
    }
    assert_eq!(board.winner().unwrap(), 1);
}

#[test]
fn returns_winner_with_positive_diagonal() {
    let mut board = setup_board();
    for i in 1..4 {
        for _ in 0..i {
            let _ = board.place(i, 2);
        }
    }

    for i in 0..4 {
        assert!(board.winner().is_none());
        let _ = board.place(i, 1);
    }
    assert_eq!(board.winner().unwrap(), 1);
}

#[test]
fn returns_winner_with_negative_diagonal() {
    let mut board = setup_board();
    for i in 1..4 {
        for _ in 0..i {
            let _ = board.place(WIDTH - i - 1, 2);
        }
    }

    for i in 1..=4 {
        assert!(board.winner().is_none());
        let _ = board.place(WIDTH - i, 1);
    }
    assert_eq!(board.winner().unwrap(), 1);
}

#[test]
fn test_full_returns_true_when_full() {
    let mut board = setup_board();
    for col in 0..WIDTH {
        for _ in 0..HEIGHT {
            assert!(!board.full());
            let _ = board.place(col, 1);
        }
    }
    assert!(board.full());
}

#[test]
fn six_pieces_fill_every_column_and_the_seventh_is_refused() {
    for col in 0..WIDTH {
        let mut board = setup_board();
        for row in 0..HEIGHT {
            assert_eq!(board.first_available_row_for_column(col), Some(row));
            let piece: u8 = if row % 2 == 0 { 1 } else { 2 };
            assert_eq!(board.place(col, piece), Ok(()));
        }
        let before = board.slots();
        assert_eq!(board.place(col, 1), Err(BoardPlaceError::InvalidColumn));
        assert_eq!(board.place(col, 2), Err(BoardPlaceError::InvalidColumn));
        assert_eq!(board.slots(), before);
        assert_eq!(before[col], [1, 2, 1, 2, 1, 2]);
    }
}

#[test]
fn a_column_past_the_edge_is_refused() {
    let mut board = setup_board();
    assert_eq!(board.place(WIDTH, 1), Err(BoardPlaceError::InvalidColumn));
    assert_eq!(board.place(usize::MAX, 2), Err(BoardPlaceError::InvalidColumn));
    assert_eq!(board.slots(), [[0; HEIGHT]; WIDTH]);
}

#[test]
fn a_piece_of_no_player_is_refused_and_changes_nothing() {
    let mut board = setup_board();
    let _ = board.place(2, 1);
    let before = board.slots();
    for piece in [0u8, 3, 4, 127, 255] {
        for col in 0..WIDTH + 3 {
            assert_eq!(board.place(col, piece), Err(BoardPlaceError::InvalidPiece));
        }
    }
    assert_eq!(board.slots(), before);
}

#[test]
fn the_piece_is_judged_before_the_column() {
    let mut board = setup_board();
    assert_eq!(board.place(99, 0), Err(BoardPlaceError::InvalidPiece));
    assert_eq!(board.place(99, 1), Err(BoardPlaceError::InvalidColumn));
}

#[test]
fn a_piece_falls_to_the_lowest_empty_row() {
    let mut board = setup_board();
    assert_eq!(board.place(3, 1), Ok(()));
    assert_eq!(board.place(3, 2), Ok(()));
    assert_eq!(board.place(5, 2), Ok(()));
    let cells = board.slots();
    assert_eq!(cells[3], [1, 2, 0, 0, 0, 0]);
    assert_eq!(cells[5], [2, 0, 0, 0, 0, 0]);
    assert_eq!(cells[0], [0; HEIGHT]);
}

#[test]
fn four_in_a_column_win_at_the_top_edge() {
    for col in [0usize, WIDTH - 1] {
        let mut board = setup_board();
        let _ = board.place(col, 1);
        let _ = board.place(col, 1);
        for _ in 0..4 {
            assert_eq!(board.winner(), None);
            let _ = board.place(col, 2);
        }
        assert_eq!(board.winner(), Some(2));
        assert!(board.first_available_row_for_column(col).is_none());
    }
}

#[test]
fn four_in_a_row_win_at_the_right_edge() {
    let mut board = setup_board();
    for col in 3..WIDTH {
        assert_eq!(board.winner(), None);
        let _ = board.place(col, 2);
    }
    assert_eq!(board.winner(), Some(2));
}

#[test]
fn four_in_the_top_row_win() {
    let mut board = setup_board();
    for col in 0..4 {
        for row in 0..HEIGHT - 1 {
            let piece: u8 = if (row / 2 + col) % 2 == 0 { 1 } else { 2 };
            let _ = board.place(col, piece);
        }
    }
    assert_eq!(board.winner(), None);
    for col in 0..4 {
        assert_eq!(board.winner(), None);
        let _ = board.place(col, 1);
    }
    assert_eq!(board.winner(), Some(1));
}

#[test]
fn a_rising_diagonal_wins_in_the_top_right_corner() {
    let mut board = setup_board();
    // below the diagonal the columns 3 to 6 hold 2, 3, 4, 5 pieces that form no line
    let fill: [[u8; 5]; 4] = [[2, 1, 0, 0, 0], [1, 2, 1, 0, 0], [2, 1, 2, 2, 0], [1, 2, 1, 1, 2]];
    for (i, col) in (3..WIDTH).enumerate() {
        for row in 0..i + 2 {
            let _ = board.place(col, fill[i][row]);
        }
    }
    assert_eq!(board.winner(), None);
    for col in 3..WIDTH {
        assert_eq!(board.winner(), None);
        let _ = board.place(col, 1);
    }
    assert_eq!(board.slots()[6][5], 1);
    assert_eq!(board.slots()[3][2], 1);
    assert_eq!(board.winner(), Some(1));
}

#[test]
fn a_falling_diagonal_wins_in_the_top_left_corner() {
    let mut board = setup_board();
    let fill: [[u8; 5]; 4] = [[1, 2, 1, 1, 2], [2, 1, 2, 2, 0], [1, 2, 1, 0, 0], [2, 1, 0, 0, 0]];
    for col in 0..4 {
        for row in 0..5 - col {
            let _ = board.place(col, fill[col][row]);
        }
    }
    assert_eq!(board.winner(), None);
    for col in 0..4 {
        assert_eq!(board.winner(), None);
        let _ = board.place(col, 2);
    }
    assert_eq!(board.slots()[0][5], 2);
    assert_eq!(board.slots()[3][2], 2);
    assert_eq!(board.winner(), Some(2));
}

#[test]
fn three_in_a_row_do_not_win() {
    let mut board = setup_board();
    for col in 0..3 {
        let _ = board.place(col, 1);
    }
    assert_eq!(board.winner(), None);
    assert_eq!(board.outcome(), Outcome::InProgress);
    assert!(!board.finished());
}

#[test]
fn a_gap_breaks_a_run() {
    let mut board = setup_board();
    let _ = board.place(0, 1);
    let _ = board.place(1, 1);
    let _ = board.place(3, 1);
    let _ = board.place(4, 1);
    assert_eq!(board.winner(), None);
    let _ = board.place(2, 2);
    assert_eq!(board.winner(), None);
}

#[test]
fn the_first_line_in_the_order_of_the_search_decides() {
    // a column of the second player and a row of the first: columns are looked at first
    let mut board = setup_board();
    for col in 0..3 {
        let _ = board.place(col, 1);
    }
    for _ in 0..4 {
        let _ = board.place(6, 2);
    }
    let _ = board.place(3, 1);
    assert_eq!(board.winner(), Some(2));
}

#[test]
fn scenario_four_in_the_bottom_row() {
    let mut board = setup_board();
    for col in [0usize, 1, 2, 3] {
        assert_eq!(board.winner(), None);
        assert_eq!(board.place(col, 1), Ok(()));
    }
    assert_eq!(board.winner(), Some(1));
    assert_eq!(board.outcome(), Outcome::Won(Player::One));
}

#[test]
fn scenario_rising_diagonal_over_stacked_pieces() {
    let mut board = setup_board();
    let _ = board.place(1, 2);
    let _ = board.place(2, 2);
    let _ = board.place(2, 2);
    for _ in 0..3 {
        assert_eq!(board.place(3, 2), Ok(()));
    }
    for col in [0usize, 1, 2, 3] {
        assert_eq!(board.winner(), None);
        assert_eq!(board.place(col, 1), Ok(()));
    }
    let cells = board.slots();
    assert_eq!((cells[0][0], cells[1][1], cells[2][2], cells[3][3]), (1, 1, 1, 1));
    assert_eq!(board.winner(), Some(1));
}

#[test]
fn a_stack_in_one_column_alone_carries_no_diagonal() {
    let mut board = setup_board();
    for _ in 0..3 {
        let _ = board.place(3, 2);
    }
    for col in [0usize, 1, 2, 3] {
        let _ = board.place(col, 1);
    }
    let cells = board.slots();
    assert_eq!((cells[0][0], cells[1][0], cells[2][0], cells[3][3]), (1, 1, 1, 1));
    assert_eq!(board.winner(), None);
}

#[test]
fn full_is_true_only_with_all_42_cells_taken() {
    let mut board = setup_board();
    let mut placed: usize = 0;
    for col in 0..WIDTH {
        for row in 0..HEIGHT {
            assert!(!board.full());
            assert_eq!(board.flatten().iter().filter(|v| **v != 0).count(), placed);
            let piece: u8 = if (col / 2 + row) % 2 == 0 { 1 } else { 2 };
            let _ = board.place(col, piece);
            placed += 1;
        }
    }
    assert_eq!(placed, 42);
    assert!(board.full());
    assert_eq!(board.winner(), None);
    assert_eq!(board.outcome(), Outcome::Draw);
    assert!(board.finished());
    assert!(board.available_columns().is_empty());
}

#[test]
fn a_full_board_with_a_line_is_won_not_drawn() {
    let mut board = setup_board();
    for col in 0..WIDTH {
        for _ in 0..HEIGHT {
            let _ = board.place(col, 2);
        }
    }
    assert!(board.full());
    assert_eq!(board.winner(), Some(2));
    assert_eq!(board.outcome(), Outcome::Won(Player::Two));
    assert!(board.finished());
}

#[test]
fn available_columns_are_those_with_room_in_order() {
    let mut board = setup_board();
    assert_eq!(board.available_columns(), vec![0, 1, 2, 3, 4, 5, 6]);
    for row in 0..HEIGHT {
        let piece: u8 = if row % 2 == 0 { 1 } else { 2 };
        let _ = board.place(0, piece);
        let _ = board.place(4, piece);
    }
    let _ = board.place(6, 1);
    assert_eq!(board.available_columns(), vec![1, 2, 3, 5, 6]);
}

#[test]
fn flatten_puts_each_column_after_the_one_before() {
    let mut board = setup_board();
    let _ = board.place(0, 1);
    let _ = board.place(0, 2);
    let _ = board.place(6, 2);
    let cells = board.flatten();
    assert_eq!(cells.len(), 42);
    assert_eq!(cells[0], 1);
    assert_eq!(cells[1], 2);
    assert_eq!(cells[2], 0);
    assert_eq!(cells[6 * 6], 2);
    assert_eq!(cells.iter().filter(|v| **v != 0).count(), 3);
}

#[test]
fn each_cell_has_its_glyph() {
    assert_eq!(Board::rune_for_piece(0), '.');
    assert_eq!(Board::rune_for_piece(1), 'X');
    assert_eq!(Board::rune_for_piece(2), 'O');
    assert_eq!(Board::rune_for_piece(3), '.');
    assert_eq!(Board::rune_for_piece(255), '.');
}

#[test]
fn players_and_tokens_match() {
    assert_eq!(Player::One.token(), 1);
    assert_eq!(Player::Two.token(), 2);
    assert_eq!(Player::One.opponent(), Player::Two);
    assert_eq!(Player::Two.opponent(), Player::One);
    assert_eq!(Player::from_token(1), Some(Player::One));
    assert_eq!(Player::from_token(2), Some(Player::Two));
    assert_eq!(Player::from_token(0), None);
    assert_eq!(Player::from_token(3), None);
}

use connect_four::board::{Board, BoardPlaceError, HEIGHT, WIDTH};
use connect_four::bot::{best_move, bot_turn, find_available_column, human_turn};
use connect_four::env::Env;
use connect_four::game::{Game, InputError};
use connect_four::input::{is_white_space, parse_number};
use connect_four::player::{Outcome, Player};

#[test]
fn numbers_are_read_with_space_around_and_a_plus_before() {
    assert_eq!(parse_number("3"), Some(3));
    assert_eq!(parse_number("  7\n"), Some(7));
    assert_eq!(parse_number("\t+12\r\n"), Some(12));
    assert_eq!(parse_number("007"), Some(7));
    assert_eq!(parse_number("0"), Some(0));
    assert_eq!(parse_number("\u{a0}4\u{3000}"), Some(4));
    assert_eq!(parse_number("18446744073709551615"), "18446744073709551615".parse::<usize>().ok());
}

#[test]
fn what_is_no_number_is_not_read() {
    for text in ["", " ", "+", "-3", "3 4", "3a", "a3", "++3", "3+", "٣", "3.5", "1e3"] {
        assert_eq!(parse_number(text), None);
    }
    assert_eq!(parse_number("340282366920938463463374607431768211456"), None);
}

#[test]
fn numbers_are_read_as_the_standard_library_reads_them() {
    let texts = [
        "1", " 22 ", "+5", "-5", "", "x", "000", "18446744073709551616", "4294967296", "\n6\n",
        "6 6",
    ];
    for text in texts {
        assert_eq!(parse_number(text), text.trim().parse::<usize>().ok());
    }
}

#[test]
fn white_space_is_what_the_standard_library_trims() {
    for code in 0u32..0x3100 {
        if let Some(c) = char::from_u32(code) {
            assert_eq!(is_white_space(c), c.is_whitespace());
        }
    }
}

#[test]
fn a_new_game_is_empty_and_the_first_player_moves() {
    let game = Game::new();
    assert!(game.moves.is_empty());
    assert_eq!(game.board.slots(), [[0; HEIGHT]; WIDTH]);
    assert_eq!(game.turn(), Player::One);
}

#[test]
fn moves_are_recorded_and_the_players_take_turns() {
    let mut game = Game::new();
    for (n, col) in [3usize, 3, 4, 0, 6].iter().enumerate() {
        let mover = if n % 2 == 0 { Player::One } else { Player::Two };
        assert_eq!(game.turn(), mover);
        assert_eq!(game.play(*col), Ok(()));
    }
    assert_eq!(game.moves, vec![(1, 3), (2, 3), (1, 4), (2, 0), (1, 6)]);
    assert_eq!(game.board.slots()[3], [1, 2, 0, 0, 0, 0]);
}

#[test]
fn a_refused_move_leaves_the_turn_where_it_was() {
    let mut game = Game::new();
    assert_eq!(game.play(2), Ok(()));
    assert_eq!(game.turn(), Player::Two);
    assert_eq!(game.play(7), Err(BoardPlaceError::InvalidColumn));
    assert_eq!(game.play_text("x"), Err(InputError::ParseError));
    assert_eq!(game.play_text("0"), Err(InputError::InvalidColumn));
    assert_eq!(game.play_text("8"), Err(InputError::InvalidColumn));
    assert_eq!(game.turn(), Player::Two);
    assert_eq!(game.moves, vec![(1, 2)]);
    assert_eq!(game.play_text(" 3 "), Ok(2));
    assert_eq!(game.moves, vec![(1, 2), (2, 2)]);
    assert_eq!(game.turn(), Player::One);
}

#[test]
fn a_generated_game_is_over_and_its_record_replays_to_its_board() {
    for _ in 0..50 {
        let game = Game::generate();
        assert!(game.board.finished());
        assert!(game.moves.len() >= 7 && game.moves.len() <= 42);
        let mut board = Board::new();
        for (n, (piece, col)) in game.moves.iter().enumerate() {
            assert!(!board.finished());
            assert_eq!(*piece, if n % 2 == 0 { 1 } else { 2 });
            assert!(*col < WIDTH);
            assert_eq!(board.place(*col, *piece), Ok(()));
        }
        assert_eq!(board.slots(), game.board.slots());
    }
}

#[test]
fn generated_games_differ() {
    let first = Game::generate().moves;
    let mut differs = false;
    for _ in 0..20 {
        if Game::generate().moves != first {
            differs = true;
        }
    }
    assert!(differs);
}

#[test]
fn best_move_is_the_lowest_empty_row_of_the_first_column_with_room() {
    let mut board = Board::new();
    assert_eq!(best_move(&board), Some(0));
    let _ = board.place(0, 1);
    let _ = board.place(0, 2);
    assert_eq!(best_move(&board), Some(2));
    assert_eq!(find_available_column(&board), Some(2));
    for _ in 0..4 {
        let _ = board.place(0, 1);
    }
    assert_eq!(best_move(&board), Some(0));
    let _ = board.place(1, 2);
    assert_eq!(best_move(&board), Some(1));
}

#[test]
fn best_move_finds_nothing_on_a_full_board() {
    let mut board = Board::new();
    for col in 0..WIDTH {
        for _ in 0..HEIGHT {
            let _ = board.place(col, 1);
        }
    }
    assert_eq!(best_move(&board), None);
    assert_eq!(find_available_column(&board), None);
}

#[test]
fn the_person_plays_the_first_pieces_and_the_machine_the_second() {
    let mut board = Board::new();
    assert_eq!(human_turn(&mut board, "1"), Ok(Outcome::InProgress));
    assert_eq!(bot_turn(&mut board, 0), Ok(Outcome::InProgress));
    assert_eq!(board.slots()[0], [1, 2, 0, 0, 0, 0]);
    assert_eq!(human_turn(&mut board, "zero"), Err(InputError::ParseError));
    assert_eq!(human_turn(&mut board, "0"), Err(InputError::InvalidColumn));
    assert_eq!(bot_turn(&mut board, -1), Err(BoardPlaceError::InvalidColumn));
    assert_eq!(bot_turn(&mut board, 7), Err(BoardPlaceError::InvalidColumn));
    assert_eq!(bot_turn(&mut board, i64::MIN), Err(BoardPlaceError::InvalidColumn));
    assert_eq!(board.slots()[0], [1, 2, 0, 0, 0, 0]);
    for col in ["2", "3"] {
        assert_eq!(human_turn(&mut board, col), Ok(Outcome::InProgress));
    }
    assert_eq!(human_turn(&mut board, "4"), Ok(Outcome::Won(Player::One)));
}

#[test]
fn the_machine_can_win() {
    let mut board = Board::new();
    for _ in 0..3 {
        assert_eq!(bot_turn(&mut board, 6), Ok(Outcome::InProgress));
    }
    assert_eq!(bot_turn(&mut board, 6), Ok(Outcome::Won(Player::Two)));
}

#[test]
fn an_episode_starts_with_one_piece_of_the_first_player() {
    for _ in 0..30 {
        let mut env = Env::new();
        let obs = env.reset();
        assert_eq!(obs.len(), 42);
        assert_eq!(obs.iter().filter(|v| **v == 1).count(), 1);
        assert_eq!(obs.iter().filter(|v| **v == 0).count(), 41);
        let at = obs.iter().position(|v| *v == 1).unwrap();
        assert_eq!(at % 6, 0);
    }
}

#[test]
fn an_episode_can_start_with_a_given_move() {
    let mut env = Env::new();
    let obs = env.reset_with(2);
    assert_eq!(obs[2 * 6], 1);
    assert_eq!(obs.iter().filter(|v| **v != 0).count(), 1);
    let obs = env.reset_with(9);
    assert_eq!(obs, vec![0; 42]);
}

#[test]
fn a_refused_action_costs_five_and_an_accepted_one_costs_one() {
    let mut env = Env::new();
    let step = env.step_with(-1, Some(0));
    assert_eq!((step.reward, step.is_done, step.action), (-5, false, -1));
    assert_eq!(step.obs, vec![0; 42]);
    let step = env.step_with(7, Some(0));
    assert_eq!((step.reward, step.is_done), (-5, false));
    let step = env.step_with(3, Some(0));
    assert_eq!((step.reward, step.is_done, step.action), (-1, false, 3));
    assert_eq!(step.obs[3 * 6], 2);
    assert_eq!(step.obs[0], 1);
    let step = env.step_with(3, None);
    assert_eq!((step.reward, step.is_done), (-1, false));
    assert_eq!(step.obs.iter().filter(|v| **v != 0).count(), 3);
}

#[test]
fn a_win_of_the_machine_earns_a_hundred_and_ends_the_episode() {
    let mut env = Env::new();
    for _ in 0..3 {
        let step = env.step_with(6, Some(0));
        assert_eq!((step.reward, step.is_done), (-1, false));
    }
    let step = env.step_with(6, Some(1));
    assert_eq!((step.reward, step.is_done), (99, true));
    assert_eq!(step.obs[0..6], [1, 1, 1, 0, 0, 0]);
    assert_eq!(step.obs[6], 0);
    let step = env.step_with(9, Some(1));
    assert_eq!((step.reward, step.is_done), (95, false));
}

#[test]
fn a_win_of_the_opponent_costs_a_hundred() {
    let mut env = Env::new();
    let _ = env.reset_with(0);
    for _ in 0..2 {
        let step = env.step_with(6, Some(0));
        assert_eq!((step.reward, step.is_done), (-1, false));
    }
    let step = env.step_with(5, Some(0));
    assert_eq!((step.reward, step.is_done), (-101, false));
    let step = env.step_with(8, None);
    assert_eq!((step.reward, step.is_done), (-105, false));
}

#[test]
fn a_step_with_a_random_reply_adds_one_piece_of_each_player() {
    for _ in 0..30 {
        let mut env = Env::new();
        let _ = env.reset();
        let step = env.step(3);
        assert_eq!((step.reward, step.is_done, step.action), (-1, false, 3));
        assert_eq!(step.obs.iter().filter(|v| **v == 1).count(), 2);
        assert_eq!(step.obs.iter().filter(|v| **v == 2).count(), 1);
    }
}

#[test]
fn the_spaces_have_their_sizes() {
    let env = Env::new();
    assert_eq!(env.action_space(), 7);
    assert_eq!(env.observation_space(), (0..42).collect::<Vec<i64>>());
}

#[test]
fn a_step_can_be_copied_with_another_observation() {
    let mut env = Env::new();
    let step = env.step_with(2, Some(4));
    let copy = step.copy_with_obs(&vec![0; 42]);
    assert_eq!(copy.obs, vec![0; 42]);
    assert_eq!((copy.action, copy.reward, copy.is_done), (step.action, step.reward, step.is_done));
}

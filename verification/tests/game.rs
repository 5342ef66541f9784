use tic_tac_toe::board::{EndResult, Player};
use tic_tac_toe::game::{
    read_answer, read_entry, replay_choice, Game, Replay, TurnResult, GAME_CELLS, GAME_WIDTH,
};

fn cells(game: &Game) -> Vec<Option<Player>> {
    game.board().contents().to_vec()
}

#[test]
fn a_game_starts_empty_with_the_first_player() {
    for first in [Player::X, Player::O] {
        let game = Game::new(first);
        assert_eq!(game.turn(), first);
        assert_eq!(game.board().width(), GAME_WIDTH);
        assert_eq!(cells(&game), vec![None; 9]);
    }
}

#[test]
fn the_game_is_three_by_three() {
    assert_eq!(GAME_WIDTH, 3);
    assert_eq!(GAME_CELLS, 9);
}

#[test]
fn an_entry_that_is_no_number_is_invalid() {
    let mut game = Game::new(Player::X);
    assert_eq!(game.enter(None), TurnResult::InvalidEntry);
    assert_eq!(game.turn(), Player::X);
    assert_eq!(cells(&game), vec![None; 9]);
}

#[test]
fn entries_outside_one_to_nine_are_invalid() {
    let mut game = Game::new(Player::O);
    for entry in [0u64, 10, 11, 100, u64::MAX] {
        assert_eq!(game.enter(Some(entry)), TurnResult::InvalidEntry);
        assert_eq!(game.turn(), Player::O);
        assert_eq!(cells(&game), vec![None; 9]);
    }
}

#[test]
fn entries_count_the_cells_from_one() {
    for entry in 1..=9u64 {
        let mut game = Game::new(Player::X);
        assert_eq!(game.enter(Some(entry)), TurnResult::NextTurn(Player::O));
        let mut expected = vec![None; 9];
        expected[(entry - 1) as usize] = Some(Player::X);
        assert_eq!(cells(&game), expected);
        assert_eq!(game.turn(), Player::O);
    }
}

#[test]
fn a_taken_cell_keeps_the_turn() {
    let mut game = Game::new(Player::X);
    assert_eq!(game.enter(Some(5)), TurnResult::NextTurn(Player::O));
    let before = cells(&game);
    assert_eq!(game.enter(Some(5)), TurnResult::CellTaken);
    assert_eq!(game.turn(), Player::O);
    assert_eq!(cells(&game), before);
    assert_eq!(game.enter(Some(6)), TurnResult::NextTurn(Player::X));
    assert_eq!(game.board().contents()[5], Some(Player::O));
}

#[test]
fn the_players_take_turns_until_one_wins() {
    let mut game = Game::new(Player::X);
    assert_eq!(game.enter(Some(1)), TurnResult::NextTurn(Player::O));
    assert_eq!(game.enter(Some(4)), TurnResult::NextTurn(Player::X));
    assert_eq!(game.enter(Some(2)), TurnResult::NextTurn(Player::O));
    assert_eq!(game.enter(Some(5)), TurnResult::NextTurn(Player::X));
    assert_eq!(game.enter(Some(3)), TurnResult::Ended(EndResult::Win(Player::X)));
    assert_eq!(game.turn(), Player::X);
}

#[test]
fn the_second_player_can_win() {
    let mut game = Game::new(Player::X);
    for entry in [1u64, 3, 2, 5, 9] {
        assert!(matches!(game.enter(Some(entry)), TurnResult::NextTurn(_)));
    }
    assert_eq!(game.turn(), Player::O);
    assert_eq!(game.enter(Some(7)), TurnResult::Ended(EndResult::Win(Player::O)));
}

#[test]
fn a_full_board_without_a_line_ends_in_a_tie() {
    // X O X / O X O / O X O, entered in turn with O first.
    let mut game = Game::new(Player::O);
    let entries = [2u64, 1, 4, 3, 6, 5, 7, 8];
    for entry in entries {
        assert!(matches!(game.enter(Some(entry)), TurnResult::NextTurn(_)));
    }
    assert_eq!(game.turn(), Player::O);
    assert_eq!(game.enter(Some(9)), TurnResult::Ended(EndResult::Tie));
    let expected: Vec<Option<Player>> = "XOXOXOOXO"
        .chars()
        .map(|cell| if cell == 'X' { Some(Player::X) } else { Some(Player::O) })
        .collect();
    assert_eq!(cells(&game), expected);
}

#[test]
fn a_line_holds_its_number() {
    assert_eq!(read_entry("5"), Some(5));
    assert_eq!(read_entry("0"), Some(0));
    assert_eq!(read_entry("12"), Some(12));
    assert_eq!(read_entry("+7"), Some(7));
    assert_eq!(read_entry("007"), Some(7));
    assert_eq!(read_entry("18446744073709551615"), Some(u64::MAX));
}

#[test]
fn blanks_around_a_number_are_set_aside() {
    assert_eq!(read_entry(" 5"), Some(5));
    assert_eq!(read_entry("5 "), Some(5));
    assert_eq!(read_entry("  \t 9 \r\n"), Some(9));
    assert_eq!(read_entry("\u{a0}3\u{3000}"), Some(3));
}

#[test]
fn a_line_without_a_number_holds_none() {
    for line in
        ["", " ", "x", "5x", "x5", "1 2", "-1", "-0", "+", "1_0", "1.0", "0x1", "\u{ff15}"]
    {
        assert_eq!(read_entry(line), None);
    }
    assert_eq!(read_entry("18446744073709551616"), None);
    assert_eq!(read_entry("99999999999999999999999999"), None);
}

#[test]
fn a_typed_line_places_a_piece() {
    let mut game = Game::new(Player::X);
    assert_eq!(game.enter_line(" 5 "), TurnResult::NextTurn(Player::O));
    assert_eq!(game.board().contents()[4], Some(Player::X));
    assert_eq!(game.enter_line("5"), TurnResult::CellTaken);
    assert_eq!(game.enter_line("+1\n"), TurnResult::NextTurn(Player::X));
    assert_eq!(game.board().contents()[0], Some(Player::O));
    assert_eq!(game.turn(), Player::X);
}

#[test]
fn a_typed_line_that_names_no_cell_is_invalid() {
    let mut game = Game::new(Player::O);
    for line in ["", "0", "10", "five", "5 5", "-5", "4.0", "99999999999999999999999999"] {
        assert_eq!(game.enter_line(line), TurnResult::InvalidEntry);
        assert_eq!(game.turn(), Player::O);
        assert_eq!(cells(&game), vec![None; 9]);
    }
}

#[test]
fn typed_lines_play_a_game() {
    let mut game = Game::new(Player::O);
    let lines = ["1", "2", "5", "3", "oops", "5", "9"];
    let results = [
        TurnResult::NextTurn(Player::X),
        TurnResult::NextTurn(Player::O),
        TurnResult::NextTurn(Player::X),
        TurnResult::NextTurn(Player::O),
        TurnResult::InvalidEntry,
        TurnResult::CellTaken,
        TurnResult::Ended(EndResult::Win(Player::O)),
    ];
    for (line, expected) in lines.iter().zip(results.iter()) {
        assert_eq!(game.enter_line(line), *expected);
    }
}

#[test]
fn the_letters_y_and_n_answer_the_question() {
    assert_eq!(read_answer("Y"), Replay::Again);
    assert_eq!(read_answer("N"), Replay::Stop);
    assert_eq!(replay_choice("Y"), Replay::Again);
    assert_eq!(replay_choice("N"), Replay::Stop);
}

#[test]
fn other_answers_are_unclear() {
    for answer in ["", "y", "n", "YES", "NO", "YN", "YY", "1", "\u{ff39}"] {
        assert_eq!(read_answer(answer), Replay::Unclear);
        assert_eq!(replay_choice(answer), Replay::Unclear);
    }
}

#[test]
fn an_answer_is_taken_as_it_stands() {
    for answer in [" Y", "Y ", "N\n", "\tN"] {
        assert_eq!(read_answer(answer), Replay::Unclear);
    }
}

#[test]
fn blanks_around_an_answer_are_set_aside() {
    assert_eq!(replay_choice(" Y"), Replay::Again);
    assert_eq!(replay_choice("Y \r\n"), Replay::Again);
    assert_eq!(replay_choice("\tN "), Replay::Stop);
    assert_eq!(replay_choice(" Y N "), Replay::Unclear);
    assert_eq!(replay_choice("   "), Replay::Unclear);
}

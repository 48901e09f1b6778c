use connect_four::game::GameState;
use connect_four::outcome::{ErrorKind, GameEnd};
use connect_four::player::Player;

fn table(n: usize) -> Vec<Player> {
    let mut players = Vec::new();
    for i in 0..n {
        players.push(Player::new(format!("P{}", i + 1), format!("\u{001b}[3{}m", i + 1)));
    }
    players
}

fn cells(gm: &GameState) -> Vec<Vec<Option<usize>>> {
    let mut all = Vec::new();
    for c in 0..gm.board_width() {
        let mut column = Vec::new();
        for r in 0..gm.board_height() {
            column.push(gm.cell(c, r));
        }
        all.push(column);
    }
    all
}

#[test]
fn new_board_is_empty() {
    for (w, h) in [(4usize, 4usize), (7, 6), (6, 4), (4, 9), (12, 5)] {
        let gm = GameState::new(w, h);
        assert_eq!(gm.board_width(), w);
        assert_eq!(gm.board_height(), h);
        assert_eq!(gm.move_count(), 0);
        assert_eq!(gm.current_player, 0);
        assert_eq!(gm.winner, GameEnd::Ongoing);
        assert_eq!(cells(&gm), vec![vec![None; h]; w]);
    }
}

#[test]
fn first_piece_lands_on_the_floor() {
    let players = table(2);
    let mut gm = GameState::new(7, 6);
    assert_eq!(gm.put_dot_in(3, &players), Ok(()));
    let mut expected = vec![vec![None; 6]; 7];
    expected[2][5] = Some(0);
    assert_eq!(cells(&gm), expected);
    assert_eq!(gm.move_count(), 1);
    assert_eq!(gm.current_player, 1);
    assert_eq!(gm.winner, GameEnd::Ongoing);
}

#[test]
fn pieces_stack_from_the_bottom() {
    let players = table(2);
    let mut gm = GameState::new(7, 6);
    for _ in 0..3 {
        assert_eq!(gm.put_dot_in(3, &players), Ok(()));
    }
    let mut expected = vec![vec![None; 6]; 7];
    expected[2][5] = Some(0);
    expected[2][4] = Some(1);
    expected[2][3] = Some(0);
    assert_eq!(cells(&gm), expected);
    assert_eq!(gm.move_count(), 3);
}

#[test]
fn each_drop_adds_one_piece_to_its_column() {
    let players = table(3);
    let mut gm = GameState::new(5, 4);
    for n in 1..=4usize {
        assert_eq!(gm.put_dot_in(5, &players), Ok(()));
        let column = &cells(&gm)[4];
        assert_eq!(column.iter().filter(|cell| cell.is_some()).count(), n);
        assert_eq!(column[4 - n], Some((n - 1) % 3));
        for r in 0..4 - n {
            assert_eq!(column[r], None);
        }
    }
}

#[test]
fn first_and_last_column_are_on_the_board() {
    let players = table(2);
    let mut gm = GameState::new(6, 4);
    assert_eq!(gm.put_dot_in(1, &players), Ok(()));
    assert_eq!(gm.put_dot_in(6, &players), Ok(()));
    assert_eq!(gm.cell(0, 3), Some(0));
    assert_eq!(gm.cell(5, 3), Some(1));
    assert_eq!(gm.move_count(), 2);
}

#[test]
fn full_column_is_refused() {
    let players = table(2);
    let mut gm = GameState::new(4, 4);
    for _ in 0..4 {
        assert_eq!(gm.put_dot_in(2, &players), Ok(()));
    }
    let before = cells(&gm);
    assert_eq!(gm.put_dot_in(2, &players), Err(ErrorKind::ColumnFull));
    assert_eq!(cells(&gm), before);
    assert_eq!(gm.move_count(), 4);
    assert_eq!(gm.current_player, 0);
    assert_eq!(gm.winner, GameEnd::Ongoing);
    assert_eq!(gm.put_dot_in(3, &players), Ok(()));
    assert_eq!(gm.move_count(), 5);
}

#[test]
fn column_zero_is_refused() {
    let players = table(2);
    let mut gm = GameState::new(4, 4);
    assert_eq!(gm.put_dot_in(1, &players), Ok(()));
    let before = cells(&gm);
    assert_eq!(gm.put_dot_in(0, &players), Err(ErrorKind::ColumnOutOfRange));
    assert_eq!(cells(&gm), before);
    assert_eq!(gm.move_count(), 1);
    assert_eq!(gm.current_player, 1);
}

#[test]
fn column_beyond_the_width_is_refused() {
    let players = table(2);
    let mut gm = GameState::new(5, 4);
    assert_eq!(gm.put_dot_in(2, &players), Ok(()));
    let before = cells(&gm);
    for c in [6usize, 7, 255, usize::MAX] {
        assert_eq!(gm.put_dot_in(c, &players), Err(ErrorKind::ColumnOutOfRange));
        assert_eq!(cells(&gm), before);
        assert_eq!(gm.move_count(), 1);
        assert_eq!(gm.current_player, 1);
        assert_eq!(gm.winner, GameEnd::Ongoing);
    }
}

#[test]
fn turn_comes_round_after_every_player_has_moved() {
    for n in 2..=8usize {
        let players = table(n);
        let mut gm = GameState::new(8, 8);
        for round in 0..3 {
            for i in 0..n {
                assert_eq!(gm.current_player, i);
                assert_eq!(gm.put_dot_in(1 + i, &players), Ok(()));
            }
            assert_eq!(gm.current_player, 0);
            assert_eq!(gm.move_count() as usize, (round + 1) * n);
        }
    }
}

#[test]
fn turn_comes_round_from_any_seat() {
    let players = table(3);
    let mut gm = GameState::new(4, 4);
    assert_eq!(gm.put_dot_in(1, &players), Ok(()));
    assert_eq!(gm.current_player, 1);
    for c in [2usize, 3, 4] {
        assert_eq!(gm.put_dot_in(c, &players), Ok(()));
    }
    assert_eq!(gm.current_player, 1);
}

#[test]
fn refused_moves_do_not_pass_the_turn() {
    let players = table(3);
    let mut gm = GameState::new(4, 4);
    assert_eq!(gm.put_dot_in(4, &players), Ok(()));
    assert_eq!(gm.put_dot_in(9, &players), Err(ErrorKind::ColumnOutOfRange));
    assert_eq!(gm.put_dot_in(0, &players), Err(ErrorKind::ColumnOutOfRange));
    assert_eq!(gm.current_player, 1);
    assert_eq!(gm.put_dot_in(4, &players), Ok(()));
    assert_eq!(gm.cell(3, 2), Some(1));
    assert_eq!(gm.current_player, 2);
}

#[test]
fn error_messages() {
    assert_eq!(ErrorKind::ColumnOutOfRange.message(), "Column index out of bounds");
    assert_eq!(ErrorKind::ColumnFull.message(), "Column is full");
}

#[test]
fn player_token_is_colour_piece_reset() {
    let p = Player::new("Ann".to_string(), "\u{001b}[34m".to_string());
    assert_eq!(p.name, "Ann");
    assert_eq!(p.color(), "\u{001b}[34mO\u{001b}[0m");
    let plain = Player::new(String::new(), String::new());
    assert_eq!(plain.name, "");
    assert_eq!(plain.color(), "O\u{001b}[0m");
}

#[test]
fn empty_player_is_red() {
    let p = Player::empty();
    assert_eq!(p.name, "{empty}");
    assert_eq!(p.color(), "\u{001b}[31mO\u{001b}[0m");
    assert_eq!(p, Player::new("{empty}".to_string(), "\u{001b}[31m".to_string()));
}

#[test]
fn visualize_left_marks_a_falling_diagonal() {
    let gm = GameState::new(7, 6);
    let vis = gm.visualize_left(2, 1);
    let mut expected = vec![vec![None; 6]; 7];
    expected[2][1] = Some(0);
    expected[3][2] = Some(0);
    expected[4][3] = Some(0);
    expected[5][4] = Some(0);
    assert_eq!(cells(&vis), expected);
    assert_eq!(vis.move_count(), 0);
    assert_eq!(vis.current_player, 0);
    assert_eq!(vis.winner, GameEnd::Ongoing);
    assert_eq!(cells(&gm), vec![vec![None; 6]; 7]);
}

#[test]
fn visualize_right_marks_a_rising_diagonal() {
    let gm = GameState::new(5, 4);
    let vis = gm.visualize_right(4, 0);
    let mut expected = vec![vec![None; 4]; 5];
    expected[4][0] = Some(0);
    expected[3][1] = Some(0);
    expected[2][2] = Some(0);
    expected[1][3] = Some(0);
    assert_eq!(cells(&vis), expected);
    assert_eq!(vis.board_width(), 5);
    assert_eq!(vis.board_height(), 4);
}

use connect_four::game::GameState;
use connect_four::outcome::GameEnd;
use connect_four::player::Player;

fn two() -> Vec<Player> {
    vec![
        Player::new("A".to_string(), "\u{001b}[31m".to_string()),
        Player::new("B".to_string(), "\u{001b}[34m".to_string()),
    ]
}

/// Plays the columns in turn, searching the board after each move, and
/// expects the game to stay open until the last of them.
fn play(gm: &mut GameState, players: &Vec<Player>, columns: &[usize]) {
    for (i, c) in columns.iter().enumerate() {
        assert_eq!(gm.put_dot_in(*c, players), Ok(()));
        gm.set_winner();
        if i + 1 < columns.len() {
            assert_eq!(gm.winner, GameEnd::Ongoing, "after move {}", i + 1);
        }
    }
}

#[test]
fn empty_board_is_ongoing() {
    let mut gm = GameState::new(7, 6);
    gm.set_winner();
    assert_eq!(gm.winner, GameEnd::Ongoing);
}

#[test]
fn four_stacked_pieces_win() {
    let players = two();
    let mut gm = GameState::new(6, 4);
    play(&mut gm, &players, &[1, 6, 1, 6, 1, 6, 1]);
    assert_eq!(gm.winner, GameEnd::Win(0));
    for r in 0..4 {
        assert_eq!(gm.cell(0, r), Some(0));
    }
    assert_eq!(gm.move_count(), 7);
}

#[test]
fn three_stacked_pieces_do_not_win() {
    let players = two();
    let mut gm = GameState::new(6, 4);
    play(&mut gm, &players, &[1, 6, 1, 6, 1, 6]);
    assert_eq!(gm.winner, GameEnd::Ongoing);
}

#[test]
fn four_pieces_side_by_side_win() {
    let players = two();
    let mut gm = GameState::new(7, 6);
    play(&mut gm, &players, &[1, 1, 2, 2, 3, 3, 4]);
    assert_eq!(gm.winner, GameEnd::Win(0));
    for c in 0..4 {
        assert_eq!(gm.cell(c, 5), Some(0));
    }
}

#[test]
fn four_pieces_in_the_bottom_row_win_for_the_second_player() {
    let players = two();
    let mut gm = GameState::new(7, 6);
    play(&mut gm, &players, &[7, 4, 5, 3, 5, 4, 7, 5, 4, 1, 4, 7, 3, 2]);
    assert_eq!(gm.winner, GameEnd::Win(1));
    for c in 0..4 {
        assert_eq!(gm.cell(c, 5), Some(1));
    }
}

#[test]
fn falling_diagonal_wins() {
    let players = two();
    let mut gm = GameState::new(7, 6);
    play(&mut gm, &players, &[5, 3, 2, 3, 3, 7, 7, 4, 5, 5, 6, 4, 4, 7, 3]);
    assert_eq!(gm.winner, GameEnd::Win(0));
    for i in 0..4 {
        assert_eq!(gm.cell(2 + i, 2 + i), Some(0));
    }
}

#[test]
fn rising_diagonal_wins() {
    let players = two();
    let mut gm = GameState::new(7, 6);
    play(&mut gm, &players, &[2, 6, 7, 1, 6, 1, 5, 5, 1, 6, 5, 4, 7, 7, 1, 7]);
    assert_eq!(gm.winner, GameEnd::Win(1));
    for i in 0..4 {
        assert_eq!(gm.cell(6 - i, 2 + i), Some(1));
    }
}

#[test]
fn rising_diagonal_that_ends_in_the_fourth_column_wins() {
    let players = two();
    let mut gm = GameState::new(5, 5);
    play(&mut gm, &players, &[3, 3, 3, 2, 5, 4, 5, 3, 3, 4, 2, 4, 1, 2, 4]);
    assert_eq!(gm.winner, GameEnd::Win(0));
    for i in 0..4 {
        assert_eq!(gm.cell(3 - i, 1 + i), Some(0));
    }
}

#[test]
fn falling_diagonal_on_a_wide_board_wins() {
    let players = two();
    let mut gm = GameState::new(10, 4);
    play(&mut gm, &players, &[7, 5, 4, 5, 5, 8, 6, 7, 3, 7, 6, 6, 3, 5]);
    assert_eq!(gm.winner, GameEnd::Win(1));
    for i in 0..4 {
        assert_eq!(gm.cell(4 + i, i), Some(1));
    }
}

#[test]
fn rising_diagonal_on_a_wide_board_wins() {
    let players = two();
    let mut gm = GameState::new(10, 4);
    play(&mut gm, &players, &[9, 7, 9, 6, 4, 7, 7, 5, 7, 6, 6, 2, 5]);
    assert_eq!(gm.winner, GameEnd::Win(0));
    for i in 0..4 {
        assert_eq!(gm.cell(6 - i, i), Some(0));
    }
}

#[test]
fn diagonal_wins_with_three_players() {
    let players = vec![
        Player::new("A".to_string(), "\u{001b}[31m".to_string()),
        Player::new("B".to_string(), "\u{001b}[34m".to_string()),
        Player::new("C".to_string(), "\u{001b}[32m".to_string()),
    ];
    let mut gm = GameState::new(7, 6);
    play(&mut gm, &players, &[2, 5, 5, 4, 2, 3, 1, 4, 2, 3, 2, 1, 6, 3]);
    assert_eq!(gm.winner, GameEnd::Win(1));
    for i in 0..4 {
        assert_eq!(gm.cell(1 + i, 2 + i), Some(1));
    }
}

#[test]
fn wide_board_is_searched_to_the_end() {
    let players = two();
    let mut gm = GameState::new(12, 4);
    play(&mut gm, &players, &[3, 4, 4, 5, 6, 5, 5, 6, 7, 6, 8, 9, 9, 10, 11, 10, 10, 11, 12, 11]);
    assert_eq!(gm.winner, GameEnd::Ongoing);
    assert_eq!(gm.move_count(), 20);
}

#[test]
fn full_board_without_a_run_is_drawn() {
    let players = two();
    let mut gm = GameState::new(4, 4);
    play(&mut gm, &players, &[4, 3, 2, 1, 3, 1, 1, 1, 4, 4, 2, 3, 4, 2, 3, 2]);
    assert_eq!(gm.winner, GameEnd::Draw);
    assert_eq!(gm.move_count(), 16);
    for c in 0..4 {
        for r in 0..4 {
            assert!(gm.cell(c, r).is_some());
        }
    }
}

#[test]
fn board_one_move_short_of_full_is_ongoing() {
    let players = two();
    let mut gm = GameState::new(4, 4);
    play(&mut gm, &players, &[4, 3, 2, 1, 3, 1, 1, 1, 4, 4, 2, 3, 4, 2, 3]);
    assert_eq!(gm.winner, GameEnd::Ongoing);
    assert_eq!(gm.move_count(), 15);
}

#[test]
fn run_completed_by_the_last_move_beats_the_draw() {
    let players = two();
    let mut gm = GameState::new(4, 4);
    play(&mut gm, &players, &[3, 1, 1, 4, 2, 2, 1, 3, 1, 3, 2, 4, 3, 4, 2, 4]);
    assert_eq!(gm.move_count(), 16);
    assert_eq!(gm.winner, GameEnd::Win(1));
}

#[test]
fn later_column_overrides_earlier_one() {
    let players = two();
    let mut gm = GameState::new(5, 4);
    play(&mut gm, &players, &[1, 2, 1, 2, 1, 2, 1]);
    assert_eq!(gm.winner, GameEnd::Win(0));
    assert_eq!(gm.put_dot_in(2, &players), Ok(()));
    gm.set_winner();
    assert_eq!(gm.winner, GameEnd::Win(1));
}

#[test]
fn earlier_column_does_not_override_later_one() {
    let players = two();
    let mut gm = GameState::new(5, 4);
    play(&mut gm, &players, &[2, 1, 2, 1, 2, 1, 2]);
    assert_eq!(gm.winner, GameEnd::Win(0));
    assert_eq!(gm.put_dot_in(1, &players), Ok(()));
    gm.set_winner();
    assert_eq!(gm.winner, GameEnd::Win(0));
}

#[test]
fn row_overrides_column() {
    let players = two();
    let mut gm = GameState::new(8, 4);
    // A stacks four pieces in the last column while B lays three in the
    // bottom row; B then completes the row.
    play(&mut gm, &players, &[8, 1, 8, 2, 8, 3, 8]);
    assert_eq!(gm.winner, GameEnd::Win(0));
    assert_eq!(gm.put_dot_in(4, &players), Ok(()));
    gm.set_winner();
    assert_eq!(gm.winner, GameEnd::Win(1));
}

#[test]
fn searching_twice_changes_nothing() {
    let players = two();
    for columns in [
        vec![1usize, 6, 1, 6, 1, 6, 1],
        vec![1, 6, 1, 6],
        vec![],
    ] {
        let mut gm = GameState::new(6, 4);
        for c in &columns {
            assert_eq!(gm.put_dot_in(*c, &players), Ok(()));
        }
        gm.set_winner();
        let first = gm.winner;
        gm.set_winner();
        assert_eq!(gm.winner, first);
        assert_eq!(gm.move_count() as usize, columns.len());
    }
    let mut full = GameState::new(4, 4);
    for c in [4usize, 3, 2, 1, 3, 1, 1, 1, 4, 4, 2, 3, 4, 2, 3, 2] {
        assert_eq!(full.put_dot_in(c, &players), Ok(()));
    }
    full.set_winner();
    assert_eq!(full.winner, GameEnd::Draw);
    full.set_winner();
    assert_eq!(full.winner, GameEnd::Draw);
}

#[test]
fn search_starts_from_scratch() {
    let mut gm = GameState::new(4, 4);
    gm.winner = GameEnd::Win(5);
    gm.set_winner();
    assert_eq!(gm.winner, GameEnd::Ongoing);
    gm.winner = GameEnd::Draw;
    gm.set_winner();
    assert_eq!(gm.winner, GameEnd::Ongoing);
}

#[test]
fn search_leaves_board_and_turn_alone() {
    let players = two();
    let mut gm = GameState::new(4, 4);
    assert_eq!(gm.put_dot_in(2, &players), Ok(()));
    gm.set_winner();
    assert_eq!(gm.cell(1, 3), Some(0));
    assert_eq!(gm.cell(1, 2), None);
    assert_eq!(gm.current_player, 1);
    assert_eq!(gm.move_count(), 1);
}

#[test]
fn marked_diagonals_are_found() {
    let gm = GameState::new(7, 6);
    let mut left = gm.visualize_left(3, 2);
    left.set_winner();
    assert_eq!(left.winner, GameEnd::Win(0));
    let mut right = gm.visualize_right(3, 2);
    right.set_winner();
    assert_eq!(right.winner, GameEnd::Win(0));
}

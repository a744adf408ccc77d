use luffarschack::win_check::check_win_condition;
use luffarschack::Player;

#[test]
fn win_check_row_win() {
    let board = vec![
        vec![Some(Player::Circle), Some(Player::Circle), Some(Player::Circle)],
        vec![None, None, None],
        vec![None, None, None],
    ];
    assert!(check_win_condition(&board, Player::Circle, 3));
}

#[test]
fn win_check_column_win() {
    let board = vec![
        vec![Some(Player::Circle), None, None],
        vec![Some(Player::Circle), None, None],
        vec![Some(Player::Circle), None, None],
    ];
    assert!(check_win_condition(&board, Player::Circle, 3));
}

#[test]
fn win_check_diagonal_win() {
    let board = vec![
        vec![Some(Player::Circle), None, None],
        vec![None, Some(Player::Circle), None],
        vec![None, None, Some(Player::Circle)],
    ];
    assert!(check_win_condition(&board, Player::Circle, 3));
}

#[test]
fn win_check_diagonal_win2() {
    let board = vec![
        vec![None, None, Some(Player::Circle)],
        vec![None, Some(Player::Circle), None],
        vec![Some(Player::Circle), None, None],
    ];
    assert!(check_win_condition(&board, Player::Circle, 3));
}

#[test]
fn diagonal_win_3x4() {
    let board = vec![
        vec![None, Some(Player::Circle), None, None],
        vec![None, None, Some(Player::Circle), None],
        vec![None, None, None, Some(Player::Circle)],
    ];
    assert!(check_win_condition(&board, Player::Circle, 3));
}

#[test]
fn empty_board_has_no_win() {
    let board = vec![vec![None, None, None], vec![None, None, None], vec![None, None, None]];
    assert!(!check_win_condition(&board, Player::Circle, 3));
    assert!(!check_win_condition(&board, Player::Cross, 3));
}

#[test]
fn run_with_gap_does_not_win() {
    let board = vec![
        vec![Some(Player::Cross), Some(Player::Cross), None, Some(Player::Cross)],
        vec![None, None, None, None],
        vec![None, None, None, None],
    ];
    assert!(!check_win_condition(&board, Player::Cross, 3));
}

#[test]
fn other_players_run_does_not_win() {
    let board = vec![
        vec![Some(Player::Circle), Some(Player::Circle), Some(Player::Circle)],
        vec![None, None, None],
        vec![None, None, None],
    ];
    assert!(!check_win_condition(&board, Player::Cross, 3));
}

#[test]
fn backward_diagonal_win_on_tall_board() {
    let board = vec![
        vec![None, None, None],
        vec![None, None, Some(Player::Cross)],
        vec![None, Some(Player::Cross), None],
        vec![Some(Player::Cross), None, None],
    ];
    assert!(check_win_condition(&board, Player::Cross, 3));
}

#[test]
fn longer_run_than_required_wins() {
    let board = vec![
        vec![None, None, None, None],
        vec![
            Some(Player::Cross),
            Some(Player::Cross),
            Some(Player::Cross),
            Some(Player::Cross),
        ],
        vec![None, None, None, None],
        vec![None, None, None, None],
    ];
    assert!(check_win_condition(&board, Player::Cross, 3));
}

#[test]
fn required_run_longer_than_board_never_wins() {
    let board = vec![
        vec![Some(Player::Cross), Some(Player::Cross)],
        vec![Some(Player::Cross), Some(Player::Cross)],
    ];
    assert!(!check_win_condition(&board, Player::Cross, 3));
}

#[test]
fn diagonal_must_not_wrap_around_the_edge() {
    // three marks on a down-right diagonal that re-enters from the left edge:
    // a bounded diagonal scan must not count them as one run
    let board = vec![
        vec![None, None, Some(Player::Cross)],
        vec![Some(Player::Cross), None, None],
        vec![None, Some(Player::Cross), None],
    ];
    assert!(!check_win_condition(&board, Player::Cross, 3));
}

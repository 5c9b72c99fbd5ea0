use connect_four::game::{check_arr, DropError, Game, Outcome};
use connect_four::grid::{Cell, Player};

/// Play a sequence of 1-based column choices, requiring every move
/// but the last to continue the game, and return the last outcome.
fn play_seq(g: &mut Game, seq: &[usize]) -> Result<Outcome, DropError> {
    for (k, col) in seq.iter().enumerate() {
        let out = g.play(col - 1);
        if k + 1 < seq.len() {
            assert_eq!(out, Ok(Outcome::Continue), "move {} should continue", k + 1);
        } else {
            return out;
        }
    }
    unreachable!("empty sequence");
}

#[test]
fn test_new() {
    let board = Game::new();
    let normal = Game {
        count: vec![6; 7],
        board: vec![vec![Cell::Empty; 7]; 6],
        player: Player::B,
        moves: 0,
    };
    assert_eq!(board.display_board(), normal.display_board());
}

#[test]
fn new_game_starts_with_player_a_on_move_one() {
    let g = Game::new();
    assert_eq!(g.player, Player::A);
    assert_eq!(g.moves, 1);
    for r in 0..6 {
        for c in 0..7 {
            assert_eq!(g.cell_at(r, c), Cell::Empty);
        }
    }
}

#[test]
fn drop_lands_on_lowest_empty_row() {
    let mut g = Game::new();
    assert_eq!(g.play(3), Ok(Outcome::Continue));
    assert_eq!(g.cell_at(5, 3), Cell::DiscA);
    for r in 0..5 {
        assert_eq!(g.cell_at(r, 3), Cell::Empty);
    }
    assert_eq!(g.play(3), Ok(Outcome::Continue));
    assert_eq!(g.cell_at(4, 3), Cell::DiscB);
    for r in 0..4 {
        assert_eq!(g.cell_at(r, 3), Cell::Empty);
    }
}

#[test]
fn fifth_disc_accepted_sixth_accepted_then_column_full() {
    let mut g = Game::new();
    for _ in 0..5 {
        assert_eq!(g.play(0), Ok(Outcome::Continue));
    }
    // five discs: one more still fits
    assert_eq!(g.play(0), Ok(Outcome::Continue));
    // now the column is full
    assert_eq!(g.play(0), Err(DropError::ColumnFull));
}

#[test]
fn column_full_rejection_advances_nothing() {
    let mut g = Game::new();
    let out = play_seq(&mut g, &[1, 1, 1, 1, 1, 1]);
    assert_eq!(out, Ok(Outcome::Continue));
    let player_before = g.player;
    let moves_before = g.moves;
    assert_eq!(g.play(0), Err(DropError::ColumnFull));
    assert_eq!(g.player, player_before);
    assert_eq!(g.moves, moves_before);
    // the re-prompted player may then choose another column
    assert_eq!(g.play(1), Ok(Outcome::Continue));
}

#[test]
fn vertical_win_for_a() {
    let mut g = Game::new();
    let out = play_seq(&mut g, &[1, 2, 1, 2, 1, 2, 1]);
    assert_eq!(out, Ok(Outcome::Win(Player::A)));
    for r in 2..6 {
        assert_eq!(g.cell_at(r, 0), Cell::DiscA);
    }
}

#[test]
fn horizontal_win_for_a() {
    let mut g = Game::new();
    let out = play_seq(&mut g, &[1, 1, 2, 2, 3, 3, 4]);
    assert_eq!(out, Ok(Outcome::Win(Player::A)));
    for c in 0..4 {
        assert_eq!(g.cell_at(5, c), Cell::DiscA);
    }
}

#[test]
fn diagonal_win_for_a() {
    let mut g = Game::new();
    let out = play_seq(&mut g, &[1, 2, 2, 3, 4, 3, 3, 7, 4, 4, 4]);
    assert_eq!(out, Ok(Outcome::Win(Player::A)));
    assert_eq!(g.cell_at(5, 0), Cell::DiscA);
    assert_eq!(g.cell_at(4, 1), Cell::DiscA);
    assert_eq!(g.cell_at(3, 2), Cell::DiscA);
    assert_eq!(g.cell_at(2, 3), Cell::DiscA);
}

#[test]
fn win_detected_with_anchor_in_the_interior() {
    // row 6 holds A's discs in columns 1, 2 and 4; the disc closing
    // the line lands between them, not at an end
    let mut g = Game::new();
    let out = play_seq(&mut g, &[1, 1, 2, 2, 4, 4, 3]);
    assert_eq!(out, Ok(Outcome::Win(Player::A)));
}

#[test]
fn win_detected_with_anchor_at_other_interior_cell() {
    let mut g = Game::new();
    let out = play_seq(&mut g, &[4, 4, 2, 2, 1, 1, 3]);
    assert_eq!(out, Ok(Outcome::Win(Player::A)));
}

#[test]
fn diagonal_win_detected_with_anchor_in_the_interior() {
    // the eleventh disc completes the "\" diagonal through rows 3..6
    // from a cell strictly inside the line of four
    let mut g = Game::new();
    let out = play_seq(&mut g, &[3, 4, 5, 3, 6, 3, 3, 4, 4, 4, 5]);
    assert_eq!(out, Ok(Outcome::Win(Player::A)));
    for i in 0..4 {
        assert_eq!(g.cell_at(2 + i, 2 + i), Cell::DiscA);
    }
}

#[test]
fn full_board_without_line_is_a_tie() {
    let mut g = Game::new();
    let seq = [
        1, 2, 3, 4, 5, 6, 7, 1, 2, 3, 4, 5, 6, 7, 2, 3, 4, 5, 6, 7, 1, 1, 2, 3, 4, 5, 6, 7, 1, 2,
        3, 4, 5, 6, 7, 2, 3, 4, 5, 6, 7, 1,
    ];
    let out = play_seq(&mut g, &seq);
    assert_eq!(out, Ok(Outcome::Tie));
    assert_eq!(g.moves, 42);
    for c in 0..7 {
        assert_eq!(g.count[c], 0);
    }
}

#[test]
fn line_completed_by_move_42_is_a_win_not_a_tie() {
    let mut g = Game::new();
    let seq = [
        7, 7, 2, 2, 4, 6, 6, 5, 5, 5, 6, 3, 2, 3, 3, 6, 4, 6, 1, 6, 3, 4, 1, 4, 5, 7, 1, 2, 2, 7,
        3, 2, 7, 3, 5, 1, 1, 4, 5, 1, 7, 4,
    ];
    let out = play_seq(&mut g, &seq);
    // the 42nd disc completes a horizontal line in the top row
    assert_eq!(out, Ok(Outcome::Win(Player::B)));
    for c in 0..4 {
        assert_eq!(g.cell_at(0, c), Cell::DiscB);
    }
}

#[test]
fn move_counter_counts_placed_discs() {
    let mut g = Game::new();
    assert_eq!(g.moves, 1);
    assert_eq!(g.play(0), Ok(Outcome::Continue));
    assert_eq!(g.moves, 2);
    assert_eq!(g.play(1), Ok(Outcome::Continue));
    assert_eq!(g.moves, 3);
    for _ in 0..4 {
        g.play(0).unwrap();
    }
    assert_eq!(g.moves, 7);
    assert_eq!(g.play(0), Ok(Outcome::Continue));
    assert_eq!(g.moves, 8);
    // a rejected move leaves the counter alone
    assert_eq!(g.play(0), Err(DropError::ColumnFull));
    assert_eq!(g.moves, 8);
}

#[test]
fn check_tie_reflects_move_counter() {
    let mut g = Game::new();
    assert!(!g.check_tie());
    g.moves = 41;
    assert!(!g.check_tie());
    g.moves = 42;
    assert!(g.check_tie());
}

#[test]
fn check_arr_requires_all_four_equal() {
    assert!(check_arr(
        [Cell::DiscA, Cell::DiscA, Cell::DiscA, Cell::DiscA],
        Cell::DiscA
    ));
    assert!(!check_arr(
        [Cell::DiscA, Cell::DiscA, Cell::DiscB, Cell::DiscA],
        Cell::DiscA
    ));
    assert!(!check_arr(
        [Cell::Empty, Cell::Empty, Cell::Empty, Cell::Empty],
        Cell::DiscB
    ));
}

#[test]
fn ray_checks_see_a_bottom_row_line() {
    let mut board = vec![vec![Cell::Empty; 7]; 6];
    for c in 0..4 {
        board[5][c] = Cell::DiscA;
    }
    let g = Game {
        count: vec![5, 5, 5, 5, 6, 6, 6],
        board,
        player: Player::A,
        moves: 5,
    };
    assert!(g.check_left(3, 5));
    assert!(g.check_right(0, 5));
    assert!(!g.check_left(2, 5));
    assert!(!g.check_right(1, 5));
    assert!(!g.check_vert(0, 5));
    assert!(!g.check_down(0, 0));
}

#[test]
fn ray_checks_see_a_column_line() {
    let mut board = vec![vec![Cell::Empty; 7]; 6];
    for r in 2..6 {
        board[r][2] = Cell::DiscB;
    }
    let g = Game {
        count: vec![6, 6, 2, 6, 6, 6, 6],
        board,
        player: Player::B,
        moves: 9,
    };
    assert!(g.check_vert(2, 5));
    assert!(g.check_down(2, 2));
    assert!(!g.check_vert(2, 4));
    assert!(!g.check_left(2, 5));
}

#[test]
fn ray_checks_see_diagonal_lines() {
    let mut board = vec![vec![Cell::Empty; 7]; 6];
    // a "\" line from (2,1) down to (5,4)
    for i in 0..4 {
        board[2 + i][1 + i] = Cell::DiscA;
    }
    let g = Game {
        count: vec![6, 2, 3, 4, 5, 6, 6],
        board,
        player: Player::A,
        moves: 9,
    };
    assert!(g.check_down_right(1, 2));
    let mut board2 = vec![vec![Cell::Empty; 7]; 6];
    // a "/" line from (5,0) up to (2,3)
    for i in 0..4 {
        board2[5 - i][i] = Cell::DiscB;
    }
    let g2 = Game {
        count: vec![5, 4, 3, 2, 6, 6, 6],
        board: board2,
        player: Player::B,
        moves: 9,
    };
    assert!(g2.check_up_left(0, 5));
    assert!(g2.check_down_left(3, 2));
    assert!(g2.check_up_right(3, 2));
    assert!(!g2.check_down_right(0, 5));
}

#[test]
fn change_slot_writes_one_cell() {
    let mut g = Game::new();
    g.change_slot(4, 2, Cell::DiscB);
    assert_eq!(g.cell_at(2, 4), Cell::DiscB);
    for r in 0..6 {
        for c in 0..7 {
            if !(r == 2 && c == 4) {
                assert_eq!(g.cell_at(r, c), Cell::Empty);
            }
        }
    }
    g.change_slot(4, 2, Cell::Empty);
    assert_eq!(g.cell_at(2, 4), Cell::Empty);
}

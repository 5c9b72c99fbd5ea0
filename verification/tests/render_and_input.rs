use connect_four::game::{Game, Outcome};
use connect_four::grid::{Cell, Player};
use connect_four::input::{parse_column, InputError};

#[test]
fn empty_board_renders_exactly() {
    let g = Game::new();
    let expected = "  1  2  3  4  5  6  7 \n1 -  -  -  -  -  -  - \n2 -  -  -  -  -  -  - \n3 -  -  -  -  -  -  - \n4 -  -  -  -  -  -  - \n5 -  -  -  -  -  -  - \n6 -  -  -  -  -  -  - \n";
    assert_eq!(g.display_board(), expected);
}

#[test]
fn discs_render_with_their_glyphs() {
    let mut g = Game::new();
    assert_eq!(g.play(0), Ok(Outcome::Continue));
    assert_eq!(g.play(1), Ok(Outcome::Continue));
    let expected = "  1  2  3  4  5  6  7 \n1 -  -  -  -  -  -  - \n2 -  -  -  -  -  -  - \n3 -  -  -  -  -  -  - \n4 -  -  -  -  -  -  - \n5 -  -  -  -  -  -  - \n6 ○  ●  -  -  -  -  - \n";
    assert_eq!(g.display_board(), expected);
}

#[test]
fn rendering_the_same_board_twice_is_identical() {
    let mut g = Game::new();
    g.play(3).unwrap();
    g.play(3).unwrap();
    g.play(6).unwrap();
    let first = g.display_board();
    let second = g.display_board();
    assert_eq!(first, second);
}

#[test]
fn rendering_ignores_player_and_move_counter() {
    let mut g = Game::new();
    g.play(2).unwrap();
    let copy = Game {
        count: g.count.clone(),
        board: g.board.clone(),
        player: Player::B,
        moves: 40,
    };
    assert_eq!(g.display_board(), copy.display_board());
}

#[test]
fn overlaying_a_cell_changes_its_glyph_only() {
    let mut g = Game::new();
    g.change_slot(3, 0, Cell::DiscA);
    let shown = g.display_board();
    assert_eq!(
        shown.lines().nth(1).unwrap(),
        "1 -  -  -  ○  -  -  - "
    );
    g.change_slot(3, 0, Cell::Empty);
    assert_eq!(
        g.display_board().lines().nth(1).unwrap(),
        "1 -  -  -  -  -  -  - "
    );
}

#[test]
fn parse_accepts_columns_one_through_seven() {
    for (text, col) in [("1", 0), ("2", 1), ("3", 2), ("4", 3), ("5", 4), ("6", 5), ("7", 6)] {
        assert_eq!(parse_column(text), Ok(col));
    }
}

#[test]
fn parse_accepts_a_leading_plus_sign() {
    assert_eq!(parse_column("+5"), Ok(4));
    assert_eq!(parse_column("+007"), Ok(6));
}

#[test]
fn parse_rejects_out_of_range_integers() {
    assert_eq!(parse_column("0"), Err(InputError::OutOfRange));
    assert_eq!(parse_column("8"), Err(InputError::OutOfRange));
    assert_eq!(parse_column("42"), Err(InputError::OutOfRange));
    assert_eq!(parse_column("007007"), Err(InputError::OutOfRange));
    assert_eq!(parse_column("4294967295"), Err(InputError::OutOfRange));
}

#[test]
fn parse_rejects_what_is_no_integer() {
    assert_eq!(parse_column(""), Err(InputError::ParseError));
    assert_eq!(parse_column("+"), Err(InputError::ParseError));
    assert_eq!(parse_column("a"), Err(InputError::ParseError));
    assert_eq!(parse_column("one"), Err(InputError::ParseError));
    assert_eq!(parse_column("-1"), Err(InputError::ParseError));
    assert_eq!(parse_column("3x"), Err(InputError::ParseError));
    assert_eq!(parse_column("½"), Err(InputError::ParseError));
    assert_eq!(parse_column("3 "), Err(InputError::ParseError));
}

#[test]
fn parse_rejects_integers_too_large_for_u32() {
    assert_eq!(parse_column("4294967296"), Err(InputError::ParseError));
    assert_eq!(
        parse_column("12345678901234567890123456789"),
        Err(InputError::ParseError)
    );
}

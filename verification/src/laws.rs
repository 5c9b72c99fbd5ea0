//! The engine's invariants and laws, each stated and proved once over
//! the spec functions the contracts use: the move counter matches the
//! occupied cells, gravity holds in every column, the free-row
//! counters are exact, the disc counts stay balanced, rendering
//! depends on the cells alone, every line of four through the
//! just-placed disc is detected, and a line on the 42nd move is a win
//! while a full board without one is a tie.

use vstd::prelude::*;
use crate::game::{outcome_spec, Game, Outcome};
use crate::grid::{
    axis, col_count, cols, covers, disc_pred, filled_pred, grid_count, lemma_col_count_from_split,
    rows, win_at, window_spec, Cell, Player,
};
use crate::render::{render_spec, row_cells_prefix, row_chars, rows_prefix};

verus! {

/// In a game awaiting its next move, exactly `moves - 1` cells of the
/// board are occupied.
pub proof fn lemma_occupied_matches_move_count(g: Game)
    requires
        g.live(),
    ensures
        grid_count(g.grid(), filled_pred()) == g.moves - 1,
{
}

/// Gravity: below an occupied cell every cell of the column is
/// occupied, so the discs of a column form a contiguous
/// bottom-anchored suffix.
pub proof fn lemma_gravity(g: Game, r: int, c: int)
    requires
        g.wf(),
        0 <= r < rows() - 1,
        0 <= c < cols(),
        g.grid()[r][c] != Cell::Empty,
    ensures
        g.grid()[r + 1][c] != Cell::Empty,
{
}

/// Each column's free-row counter plus its occupied cells always
/// totals the six rows of the board.
pub proof fn lemma_column_height(g: Game, c: int)
    requires
        g.wf(),
        0 <= c < cols(),
    ensures
        g.count@[c] + col_count(g.grid(), filled_pred(), c) == rows(),
{
    let k = g.count@[c] as int;
    assert forall|r2: int| 0 <= r2 < k implies !(filled_pred()(g.grid()[r2][c])) by {
        assert(g.grid()[r2][c] == Cell::Empty);
    }
    assert forall|r2: int| k <= r2 < rows() implies filled_pred()(g.grid()[r2][c]) by {
        assert(g.grid()[r2][c] != Cell::Empty);
    }
    lemma_col_count_from_split(g.grid(), filled_pred(), c, k, 0);
}

/// Strict alternation of turns keeps the two players' disc counts
/// within one of each other.
pub proof fn lemma_disc_counts_balanced(g: Game)
    requires
        g.wf(),
    ensures
        grid_count(g.grid(), disc_pred(Player::B)) <= grid_count(g.grid(), disc_pred(Player::A))
            <= grid_count(g.grid(), disc_pred(Player::B)) + 1,
{
}

proof fn lemma_row_cells_prefix_agree(row1: Seq<Cell>, row2: Seq<Cell>, c: int)
    requires
        forall|j: int| 0 <= j < c ==> row1[j] == row2[j],
    ensures
        row_cells_prefix(row1, c) == row_cells_prefix(row2, c),
    decreases c,
{
    if c > 0 {
        lemma_row_cells_prefix_agree(row1, row2, c - 1);
    }
}

proof fn lemma_rows_prefix_agree(b1: Seq<Seq<Cell>>, b2: Seq<Seq<Cell>>, r: int)
    requires
        r <= rows(),
        forall|r2: int, c2: int| 0 <= r2 < rows() && 0 <= c2 < cols() ==> b1[r2][c2] == b2[r2][c2],
    ensures
        rows_prefix(b1, r) == rows_prefix(b2, r),
    decreases r,
{
    if r > 0 {
        lemma_rows_prefix_agree(b1, b2, r - 1);
        lemma_row_cells_prefix_agree(b1[r - 1], b2[r - 1], cols());
        assert(row_chars(b1[r - 1], r - 1) == row_chars(b2[r - 1], r - 1));
    }
}

/// Rendering is a pure function of the board's cells: two boards that
/// agree cell for cell render to identical text.
pub proof fn lemma_render_depends_on_cells_alone(b1: Seq<Seq<Cell>>, b2: Seq<Seq<Cell>>)
    requires
        forall|r2: int, c2: int| 0 <= r2 < rows() && 0 <= c2 < cols() ==> b1[r2][c2] == b2[r2][c2],
    ensures
        render_spec(b1) == render_spec(b2),
{
    lemma_rows_prefix_agree(b1, b2, rows());
}

/// Completeness of the win detector: whatever window of four along an
/// axis holds the mover's disc throughout, a check anchored at any of
/// its four cells reports the win, whether the just-placed disc is at
/// an end or in the interior of the line.
pub proof fn lemma_line_through_anchor_detected(
    b: Seq<Seq<Cell>>,
    p: Player,
    r0: int,
    c0: int,
    dr: int,
    dc: int,
    i: int,
)
    requires
        axis(dr, dc),
        window_spec(b, p, r0, c0, dr, dc),
        0 <= i < 4,
    ensures
        win_at(b, p, r0 + i * dr, c0 + i * dc),
{
    if i == 0 {
        assert(r0 + i * dr == r0 && c0 + i * dc == c0);
    } else if i == 1 {
        assert(r0 + i * dr == r0 + dr && c0 + i * dc == c0 + dc);
    } else if i == 2 {
        assert(r0 + i * dr == r0 + 2 * dr && c0 + i * dc == c0 + 2 * dc);
    } else {
        assert(r0 + i * dr == r0 + 3 * dr && c0 + i * dc == c0 + 3 * dc);
    }
    assert(covers(r0, c0, dr, dc, r0 + i * dr, c0 + i * dc));
}

/// A line of four completed by the 42nd disc is reported as a win,
/// not a tie: the win check comes first.
pub proof fn lemma_line_on_last_move_is_win(b: Seq<Seq<Cell>>, p: Player, r: int, c: int)
    requires
        win_at(b, p, r, c),
    ensures
        outcome_spec(b, p, r, c, 42) == Outcome::Win(p),
{
}

/// With the 42nd disc placed and no line of four through it, the game
/// ends in a tie.
pub proof fn lemma_full_board_without_line_is_tie(b: Seq<Seq<Cell>>, p: Player, r: int, c: int)
    requires
        !win_at(b, p, r, c),
    ensures
        outcome_spec(b, p, r, c, 42) == Outcome::Tie,
{
}

} // verus!

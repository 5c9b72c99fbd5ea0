//! The board model: cells, players, and the spec-level view of the
//! 6x7 grid together with the counting functions and window predicates
//! that the engine's contracts are stated over.

use vstd::prelude::*;

verus! {

/// One cell of the board: empty, or holding one of the two players' discs.
#[derive(Clone, Copy, Debug, PartialEq, Eq, Structural)]
pub enum Cell {
    Empty,
    DiscA,
    DiscB,
}

/// One of the two players.  A moves first.
#[derive(Clone, Copy, Debug, PartialEq, Eq, Structural)]
pub enum Player {
    A,
    B,
}

/// The disc variant a player fills cells with.
pub open spec fn disc_of(p: Player) -> Cell {
    match p {
        Player::A => Cell::DiscA,
        Player::B => Cell::DiscB,
    }
}

/// The opponent of a player.
pub open spec fn other_of(p: Player) -> Player {
    match p {
        Player::A => Player::B,
        Player::B => Player::A,
    }
}

impl Player {
    /// The disc variant this player fills cells with.
    pub fn disc(self) -> (c: Cell)
        ensures
            c == disc_of(self),
    {
        match self {
            Player::A => Cell::DiscA,
            Player::B => Cell::DiscB,
        }
    }

    /// The opponent of this player.
    pub fn other(self) -> (p: Player)
        ensures
            p == other_of(self),
    {
        match self {
            Player::A => Player::B,
            Player::B => Player::A,
        }
    }
}

/// The number of rows of the board.
pub open spec fn rows() -> int {
    6
}

/// The number of columns of the board.
pub open spec fn cols() -> int {
    7
}

/// The predicate satisfied by occupied cells.
pub open spec fn filled_pred() -> spec_fn(Cell) -> bool {
    |x: Cell| x != Cell::Empty
}

/// The predicate satisfied by cells holding `p`'s disc.
pub open spec fn disc_pred(p: Player) -> spec_fn(Cell) -> bool {
    |x: Cell| x == disc_of(p)
}

/// How many cells of column `c`, in rows `r..6`, satisfy `f`.
pub open spec fn col_count_from(b: Seq<Seq<Cell>>, f: spec_fn(Cell) -> bool, c: int, r: int) -> nat
    decreases rows() - r,
{
    if r < 0 || r >= rows() {
        0
    } else {
        (if f(b[r][c]) {
            1nat
        } else {
            0nat
        }) + col_count_from(b, f, c, r + 1)
    }
}

/// How many cells of column `c` satisfy `f`.
pub open spec fn col_count(b: Seq<Seq<Cell>>, f: spec_fn(Cell) -> bool, c: int) -> nat {
    col_count_from(b, f, c, 0)
}

/// How many cells of the whole grid, in columns `c..7`, satisfy `f`.
pub open spec fn grid_count_from(b: Seq<Seq<Cell>>, f: spec_fn(Cell) -> bool, c: int) -> nat
    decreases cols() - c,
{
    if c < 0 || c >= cols() {
        0
    } else {
        col_count(b, f, c) + grid_count_from(b, f, c + 1)
    }
}

/// How many cells of the whole grid satisfy `f`.
pub open spec fn grid_count(b: Seq<Seq<Cell>>, f: spec_fn(Cell) -> bool) -> nat {
    grid_count_from(b, f, 0)
}

/// Column counts depend only on the cells of that column at rows `r..6`.
pub proof fn lemma_col_count_from_agree(
    b1: Seq<Seq<Cell>>,
    b2: Seq<Seq<Cell>>,
    f: spec_fn(Cell) -> bool,
    c: int,
    r: int,
)
    requires
        forall|r2: int| r <= r2 < rows() ==> b1[r2][c] == b2[r2][c],
    ensures
        col_count_from(b1, f, c, r) == col_count_from(b2, f, c, r),
    decreases rows() - r,
{
    if 0 <= r < rows() {
        lemma_col_count_from_agree(b1, b2, f, c, r + 1);
    }
}

/// Changing the one cell `(r0, c)` changes the column count by the
/// difference the predicate sees at that cell.
pub proof fn lemma_col_count_from_update(
    b1: Seq<Seq<Cell>>,
    b2: Seq<Seq<Cell>>,
    f: spec_fn(Cell) -> bool,
    c: int,
    r0: int,
    r: int,
)
    requires
        0 <= r <= r0 < rows(),
        forall|r2: int| r <= r2 < rows() && r2 != r0 ==> b1[r2][c] == b2[r2][c],
    ensures
        col_count_from(b2, f, c, r) + (if f(b1[r0][c]) {
            1nat
        } else {
            0nat
        }) == col_count_from(b1, f, c, r) + (if f(b2[r0][c]) {
            1nat
        } else {
            0nat
        }),
    decreases rows() - r,
{
    if r == r0 {
        lemma_col_count_from_agree(b1, b2, f, c, r + 1);
    } else {
        lemma_col_count_from_update(b1, b2, f, c, r0, r + 1);
    }
}

/// Grid counts depend only on the cells.
pub proof fn lemma_grid_count_from_agree(
    b1: Seq<Seq<Cell>>,
    b2: Seq<Seq<Cell>>,
    f: spec_fn(Cell) -> bool,
    c: int,
)
    requires
        forall|r2: int, c2: int| 0 <= r2 < rows() && c <= c2 < cols() ==> b1[r2][c2] == b2[r2][c2],
    ensures
        grid_count_from(b1, f, c) == grid_count_from(b2, f, c),
    decreases cols() - c,
{
    if 0 <= c < cols() {
        lemma_col_count_from_agree(b1, b2, f, c, 0);
        lemma_grid_count_from_agree(b1, b2, f, c + 1);
    }
}

/// Changing the one cell `(r0, c0)` changes the grid count by the
/// difference the predicate sees at that cell.
pub proof fn lemma_grid_count_update(
    b1: Seq<Seq<Cell>>,
    b2: Seq<Seq<Cell>>,
    f: spec_fn(Cell) -> bool,
    r0: int,
    c0: int,
)
    requires
        0 <= r0 < rows(),
        0 <= c0 < cols(),
        forall|r2: int, c2: int|
            0 <= r2 < rows() && 0 <= c2 < cols() && !(r2 == r0 && c2 == c0) ==> b1[r2][c2]
                == b2[r2][c2],
    ensures
        grid_count(b2, f) + (if f(b1[r0][c0]) {
            1nat
        } else {
            0nat
        }) == grid_count(b1, f) + (if f(b2[r0][c0]) {
            1nat
        } else {
            0nat
        }),
{
    lemma_grid_count_update_from(b1, b2, f, r0, c0, 0);
}

proof fn lemma_grid_count_update_from(
    b1: Seq<Seq<Cell>>,
    b2: Seq<Seq<Cell>>,
    f: spec_fn(Cell) -> bool,
    r0: int,
    c0: int,
    c: int,
)
    requires
        0 <= r0 < rows(),
        0 <= c <= c0 < cols(),
        forall|r2: int, c2: int|
            0 <= r2 < rows() && 0 <= c2 < cols() && !(r2 == r0 && c2 == c0) ==> b1[r2][c2]
                == b2[r2][c2],
    ensures
        grid_count_from(b2, f, c) + (if f(b1[r0][c0]) {
            1nat
        } else {
            0nat
        }) == grid_count_from(b1, f, c) + (if f(b2[r0][c0]) {
            1nat
        } else {
            0nat
        }),
    decreases cols() - c,
{
    if c == c0 {
        lemma_col_count_from_update(b1, b2, f, c0, r0, 0);
        lemma_grid_count_from_agree(b1, b2, f, c + 1);
    } else {
        lemma_col_count_from_agree(b1, b2, f, c, 0);
        lemma_grid_count_update_from(b1, b2, f, r0, c0, c + 1);
    }
}

/// In a column whose rows below `k` are all free of `f` and whose rows
/// from `k` down all satisfy `f`, the count over rows `r..6` is exact.
pub proof fn lemma_col_count_from_split(
    b: Seq<Seq<Cell>>,
    f: spec_fn(Cell) -> bool,
    c: int,
    k: int,
    r: int,
)
    requires
        0 <= r <= rows(),
        0 <= k <= rows(),
        forall|r2: int| 0 <= r2 < k ==> !f(b[r2][c]),
        forall|r2: int| k <= r2 < rows() ==> f(b[r2][c]),
    ensures
        col_count_from(b, f, c, r) == if r >= k {
            rows() - r
        } else {
            rows() - k
        },
    decreases rows() - r,
{
    if r < rows() {
        lemma_col_count_from_split(b, f, c, k, r + 1);
    }
}

/// A column none of whose cells satisfies `f` counts zero.
pub proof fn lemma_col_count_from_zero(b: Seq<Seq<Cell>>, f: spec_fn(Cell) -> bool, c: int, r: int)
    requires
        forall|r2: int| 0 <= r2 < rows() ==> !f(b[r2][c]),
    ensures
        col_count_from(b, f, c, r) == 0,
    decreases rows() - r,
{
    if 0 <= r < rows() {
        lemma_col_count_from_zero(b, f, c, r + 1);
    }
}

/// The four line orientations of the board: horizontal, vertical, and
/// the two diagonals, as unit steps `(dr, dc)`.
pub open spec fn axis(dr: int, dc: int) -> bool {
    ||| (dr == 0 && dc == 1)
    ||| (dr == 1 && dc == 0)
    ||| (dr == 1 && dc == 1)
    ||| (dr == 1 && dc == -1)
}

/// Four consecutive cells starting at `(r0, c0)` and stepping by
/// `(dr, dc)` all lie on the board and all hold `p`'s disc.
pub open spec fn window_spec(
    b: Seq<Seq<Cell>>,
    p: Player,
    r0: int,
    c0: int,
    dr: int,
    dc: int,
) -> bool {
    &&& 0 <= r0 <= rows() - 1
    &&& 0 <= r0 + 3 * dr <= rows() - 1
    &&& 0 <= c0 <= cols() - 1
    &&& 0 <= c0 + 3 * dc <= cols() - 1
    &&& b[r0][c0] == disc_of(p)
    &&& b[r0 + dr][c0 + dc] == disc_of(p)
    &&& b[r0 + 2 * dr][c0 + 2 * dc] == disc_of(p)
    &&& b[r0 + 3 * dr][c0 + 3 * dc] == disc_of(p)
}

/// The window starting at `(r0, c0)` with step `(dr, dc)` passes
/// through the cell `(r, c)`.
pub open spec fn covers(r0: int, c0: int, dr: int, dc: int, r: int, c: int) -> bool {
    ||| (r == r0 && c == c0)
    ||| (r == r0 + dr && c == c0 + dc)
    ||| (r == r0 + 2 * dr && c == c0 + 2 * dc)
    ||| (r == r0 + 3 * dr && c == c0 + 3 * dc)
}

/// Player `p` has four in a row through the cell `(r, c)`: some window
/// of four consecutive cells along one of the four axes contains that
/// cell and holds `p`'s disc throughout.
pub open spec fn win_at(b: Seq<Seq<Cell>>, p: Player, r: int, c: int) -> bool {
    exists|r0: int, c0: int, dr: int, dc: int|
        axis(dr, dc) && covers(r0, c0, dr, dc, r, c) && #[trigger] window_spec(b, p, r0, c0, dr, dc)
}

/// A grid none of whose cells satisfies `f` counts zero.
pub proof fn lemma_grid_count_from_zero(b: Seq<Seq<Cell>>, f: spec_fn(Cell) -> bool, c: int)
    requires
        forall|r2: int, c2: int| 0 <= r2 < rows() && 0 <= c2 < cols() ==> !f(b[r2][c2]),
    ensures
        grid_count_from(b, f, c) == 0,
    decreases cols() - c,
{
    if 0 <= c < cols() {
        lemma_col_count_from_zero(b, f, c, 0);
        lemma_grid_count_from_zero(b, f, c + 1);
    }
}

} // verus!

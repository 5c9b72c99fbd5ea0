//! The game engine: the board with its per-column free-row counters,
//! the gravity placement rule, the four-axis win detector anchored at
//! the last-placed disc, and the turn controller step.

use vstd::prelude::*;
use crate::grid::{
    axis, cols, covers, disc_of, disc_pred, filled_pred, grid_count, lemma_grid_count_from_zero,
    lemma_grid_count_update, other_of, rows, win_at, window_spec, Cell, Player,
};

verus! {

/// What a committed move led to: the game goes on, the mover has four
/// in a row, or the board is full with no line of four.
#[derive(Clone, Copy, Debug, PartialEq, Eq, Structural)]
pub enum Outcome {
    Continue,
    Win(Player),
    Tie,
}

/// Why a move was rejected.
#[derive(Clone, Copy, Debug, PartialEq, Eq, Structural)]
pub enum DropError {
    ColumnFull,
}

/// The outcome the turn controller reports after a disc of `p` landed
/// at `(r, c)`: a win if the disc completed a line of four, otherwise
/// a tie if this was the 42nd move, otherwise the game goes on.
pub open spec fn outcome_spec(b: Seq<Seq<Cell>>, p: Player, r: int, c: int, moves: int) -> Outcome {
    if win_at(b, p, r, c) {
        Outcome::Win(p)
    } else if moves >= 42 {
        Outcome::Tie
    } else {
        Outcome::Continue
    }
}

/// The full game state: the 6x7 board, the number of free rows per
/// column, whose turn it is, and the 1-based move counter.
pub struct Game {
    /// Free rows at the top of each of the 7 columns, each in `0..=6`.
    pub count: Vec<u8>,
    /// The board, row 0 on top, each row 7 cells wide.
    pub board: Vec<Vec<Cell>>,
    /// The player whose turn it is.
    pub player: Player,
    /// The 1-based number of the move about to be made.
    pub moves: u32,
}

impl Game {
    /// The board as a sequence of rows of cells.
    pub open spec fn grid(self) -> Seq<Seq<Cell>> {
        Seq::new(self.board@.len(), |r: int| self.board@[r]@)
    }

    /// The board has 6 rows of 7 cells and one counter per column.
    pub open spec fn structure(self) -> bool {
        &&& self.board@.len() == rows()
        &&& forall|r: int| 0 <= r < rows() ==> (#[trigger] self.board@[r])@.len() == cols()
        &&& self.count@.len() == cols()
    }

    /// Gravity, tied to the counters: in every column the top
    /// `count[c]` rows are exactly the empty ones, so the discs form a
    /// contiguous bottom-anchored suffix.
    pub open spec fn cols_ok(self) -> bool {
        &&& forall|c: int| 0 <= c < cols() ==> #[trigger] self.count@[c] <= rows()
        &&& forall|r: int, c: int|
            0 <= r < rows() && 0 <= c < cols() ==> ((r < self.count@[c]) <==> #[trigger] self.grid()[r][c]
                == Cell::Empty)
    }

    /// Strict alternation keeps the two players' disc counts within
    /// one of each other, with A (who moves first) never behind.
    pub open spec fn balanced(self) -> bool {
        grid_count(self.grid(), disc_pred(Player::A)) == grid_count(self.grid(), disc_pred(Player::B))
            || grid_count(self.grid(), disc_pred(Player::A)) == grid_count(
            self.grid(),
            disc_pred(Player::B),
        ) + 1
    }

    /// Well-formedness that every state reached through the engine
    /// satisfies, terminal states included.
    pub open spec fn wf(self) -> bool {
        &&& self.structure()
        &&& self.cols_ok()
        &&& self.balanced()
    }

    /// A game still in progress (awaiting its next move): exactly
    /// `moves - 1` cells are occupied, every disc belongs to one of
    /// the players, and the disc counts match whose turn it is.
    pub open spec fn live(self) -> bool {
        &&& self.wf()
        &&& 1 <= self.moves <= 42
        &&& grid_count(self.grid(), filled_pred()) == self.moves - 1
        &&& grid_count(self.grid(), disc_pred(Player::A)) + grid_count(
            self.grid(),
            disc_pred(Player::B),
        ) == self.moves - 1
        &&& (self.player == Player::A ==> grid_count(self.grid(), disc_pred(Player::A))
            == grid_count(self.grid(), disc_pred(Player::B)))
        &&& (self.player == Player::B ==> grid_count(self.grid(), disc_pred(Player::A))
            == grid_count(self.grid(), disc_pred(Player::B)) + 1)
    }

    /// A fresh game: empty board, all seven columns fully free, player
    /// A to make move 1.
    pub fn new() -> (g: Game)
        ensures
            g.live(),
            g.player == Player::A,
            g.moves == 1,
            forall|c: int| 0 <= c < cols() ==> #[trigger] g.count@[c] == 6,
            forall|r: int, c: int| 0 <= r < rows() && 0 <= c < cols() ==> #[trigger] g.grid()[r][c] == Cell::Empty,
    {
        let mut board: Vec<Vec<Cell>> = Vec::new();
        let mut r: usize = 0;
        while r < 6
            invariant
                r <= 6,
                board@.len() == r,
                forall|i: int|
                    0 <= i < r ==> (#[trigger] board@[i])@.len() == 7 && (forall|j: int|
                        0 <= j < 7 ==> board@[i]@[j] == Cell::Empty),
            decreases 6 - r,
        {
            let mut row: Vec<Cell> = Vec::new();
            let mut c: usize = 0;
            while c < 7
                invariant
                    c <= 7,
                    row@.len() == c,
                    forall|j: int| 0 <= j < c ==> row@[j] == Cell::Empty,
                decreases 7 - c,
            {
                row.push(Cell::Empty);
                c = c + 1;
            }
            board.push(row);
            r = r + 1;
        }
        let mut count: Vec<u8> = Vec::new();
        let mut c: usize = 0;
        while c < 7
            invariant
                c <= 7,
                count@.len() == c,
                forall|j: int| 0 <= j < c ==> #[trigger] count@[j] == 6,
            decreases 7 - c,
        {
            count.push(6);
            c = c + 1;
        }
        let g = Game { count, board, player: Player::A, moves: 1 };
        proof {
            assert forall|r2: int, c2: int|
                0 <= r2 < rows() && 0 <= c2 < cols() implies !(filled_pred()(g.grid()[r2][c2]))
                && !(disc_pred(Player::A)(g.grid()[r2][c2])) && !(disc_pred(Player::B)(
                g.grid()[r2][c2],
            )) by {
                assert(g.grid()[r2][c2] == Cell::Empty);
            }
            lemma_grid_count_from_zero(g.grid(), filled_pred(), 0);
            lemma_grid_count_from_zero(g.grid(), disc_pred(Player::A), 0);
            lemma_grid_count_from_zero(g.grid(), disc_pred(Player::B), 0);
        }
        g
    }

    /// Read one cell of the board.
    pub fn cell_at(&self, r: usize, c: usize) -> (res: Cell)
        requires
            self.structure(),
            r < 6,
            c < 7,
        ensures
            res == self.grid()[r as int][c as int],
    {
        self.board[r][c]
    }

    /// Overwrite one cell of the board; everything else is untouched.
    /// The caller is responsible for keeping gravity intact.
    pub fn change_slot(&mut self, c: usize, r: usize, new: Cell)
        requires
            old(self).structure(),
            c < 7,
            r < 6,
        ensures
            final(self).structure(),
            final(self).grid()[r as int][c as int] == new,
            forall|r2: int, c2: int|
                0 <= r2 < rows() && 0 <= c2 < cols() && !(r2 == r && c2 == c)
                    ==> #[trigger] final(self).grid()[r2][c2] == old(self).grid()[r2][c2],
            final(self).count == old(self).count,
            final(self).player == old(self).player,
            final(self).moves == old(self).moves,
    {
        self.board[r][c] = new;
    }

    /// Whether the move about to be made is already past the board's
    /// 42 cells; together with the win check this decides a tie.
    pub fn check_tie(&self) -> (res: bool)
        ensures
            res == (self.moves >= 42),
    {
        self.moves >= 42
    }

    /// The four cells from `(r0, c0)` rightwards all hold the current
    /// player's disc.
    fn window_h(&self, r0: usize, c0: usize) -> (res: bool)
        requires
            self.structure(),
            r0 < 6,
            c0 < 7,
        ensures
            res == window_spec(self.grid(), self.player, r0 as int, c0 as int, 0, 1),
    {
        if c0 + 3 <= 6 {
            check_arr(
                [
                    self.board[r0][c0],
                    self.board[r0][c0 + 1],
                    self.board[r0][c0 + 2],
                    self.board[r0][c0 + 3],
                ],
                self.player.disc(),
            )
        } else {
            false
        }
    }

    /// The four cells from `(r0, c0)` downwards all hold the current
    /// player's disc.
    fn window_v(&self, r0: usize, c0: usize) -> (res: bool)
        requires
            self.structure(),
            r0 < 6,
            c0 < 7,
        ensures
            res == window_spec(self.grid(), self.player, r0 as int, c0 as int, 1, 0),
    {
        if r0 + 3 <= 5 {
            check_arr(
                [
                    self.board[r0][c0],
                    self.board[r0 + 1][c0],
                    self.board[r0 + 2][c0],
                    self.board[r0 + 3][c0],
                ],
                self.player.disc(),
            )
        } else {
            false
        }
    }

    /// The four cells from `(r0, c0)` down-rightwards all hold the
    /// current player's disc.
    fn window_dr(&self, r0: usize, c0: usize) -> (res: bool)
        requires
            self.structure(),
            r0 < 6,
            c0 < 7,
        ensures
            res == window_spec(self.grid(), self.player, r0 as int, c0 as int, 1, 1),
    {
        if r0 + 3 <= 5 && c0 + 3 <= 6 {
            check_arr(
                [
                    self.board[r0][c0],
                    self.board[r0 + 1][c0 + 1],
                    self.board[r0 + 2][c0 + 2],
                    self.board[r0 + 3][c0 + 3],
                ],
                self.player.disc(),
            )
        } else {
            false
        }
    }

    /// The four cells from `(r0, c0)` down-leftwards all hold the
    /// current player's disc.
    fn window_dl(&self, r0: usize, c0: usize) -> (res: bool)
        requires
            self.structure(),
            r0 < 6,
            c0 < 7,
        ensures
            res == window_spec(self.grid(), self.player, r0 as int, c0 as int, 1, -1),
    {
        if r0 + 3 <= 5 && c0 >= 3 {
            check_arr(
                [
                    self.board[r0][c0],
                    self.board[r0 + 1][c0 - 1],
                    self.board[r0 + 2][c0 - 2],
                    self.board[r0 + 3][c0 - 3],
                ],
                self.player.disc(),
            )
        } else {
            false
        }
    }

    /// The window of four ending at `(r, c)` and running leftwards.
    pub fn check_left(&self, c: usize, r: usize) -> (res: bool)
        requires
            self.structure(),
            c < 7,
            r < 6,
        ensures
            res == window_spec(self.grid(), self.player, r as int, c as int - 3, 0, 1),
    {
        if c >= 3 {
            self.window_h(r, c - 3)
        } else {
            false
        }
    }

    /// The window of four starting at `(r, c)` and running rightwards.
    pub fn check_right(&self, c: usize, r: usize) -> (res: bool)
        requires
            self.structure(),
            c < 7,
            r < 6,
        ensures
            res == window_spec(self.grid(), self.player, r as int, c as int, 0, 1),
    {
        self.window_h(r, c)
    }

    /// The window of four ending at `(r, c)` and running upwards.
    pub fn check_vert(&self, c: usize, r: usize) -> (res: bool)
        requires
            self.structure(),
            c < 7,
            r < 6,
        ensures
            res == window_spec(self.grid(), self.player, r as int - 3, c as int, 1, 0),
    {
        if r >= 3 {
            self.window_v(r - 3, c)
        } else {
            false
        }
    }

    /// The window of four starting at `(r, c)` and running downwards.
    pub fn check_down(&self, c: usize, r: usize) -> (res: bool)
        requires
            self.structure(),
            c < 7,
            r < 6,
        ensures
            res == window_spec(self.grid(), self.player, r as int, c as int, 1, 0),
    {
        self.window_v(r, c)
    }

    /// The window of four starting at `(r, c)` and running towards the
    /// lower right.
    pub fn check_down_right(&self, c: usize, r: usize) -> (res: bool)
        requires
            self.structure(),
            c < 7,
            r < 6,
        ensures
            res == window_spec(self.grid(), self.player, r as int, c as int, 1, 1),
    {
        self.window_dr(r, c)
    }

    /// The window of four starting at `(r, c)` and running towards the
    /// lower left.
    pub fn check_up_right(&self, c: usize, r: usize) -> (res: bool)
        requires
            self.structure(),
            c < 7,
            r < 6,
        ensures
            res == window_spec(self.grid(), self.player, r as int, c as int, 1, -1),
    {
        self.window_dl(r, c)
    }

    /// The window of four ending at `(r, c)` after running down from
    /// the upper left, read here from its lower end upwards.
    pub fn check_up_left(&self, c: usize, r: usize) -> (res: bool)
        requires
            self.structure(),
            c < 7,
            r < 6,
        ensures
            res == window_spec(self.grid(), self.player, r as int - 3, c as int + 3, 1, -1),
    {
        if r >= 3 && c + 3 <= 6 {
            self.window_dl(r - 3, c + 3)
        } else {
            false
        }
    }

    /// The window of four starting at `(r, c)` and running towards the
    /// lower left; it inspects the same cells as `check_up_right`.
    pub fn check_down_left(&self, c: usize, r: usize) -> (res: bool)
        requires
            self.structure(),
            c < 7,
            r < 6,
        ensures
            res == window_spec(self.grid(), self.player, r as int, c as int, 1, -1),
    {
        self.window_dl(r, c)
    }
    /// The current player has four in a row through `(r, c)`, checked
    /// by sliding a window of four through the anchor along each of
    /// the four axes.
    #[verifier::rlimit(100)]
    fn wins_at(&self, r: usize, c: usize) -> (res: bool)
        requires
            self.structure(),
            r < 6,
            c < 7,
        ensures
            res == win_at(self.grid(), self.player, r as int, c as int),
    {
        let h0 = self.window_h(r, c);
        let h1 = if c >= 1 {
            self.window_h(r, c - 1)
        } else {
            false
        };
        let h2 = if c >= 2 {
            self.window_h(r, c - 2)
        } else {
            false
        };
        let h3 = if c >= 3 {
            self.window_h(r, c - 3)
        } else {
            false
        };
        let v0 = self.window_v(r, c);
        let v1 = if r >= 1 {
            self.window_v(r - 1, c)
        } else {
            false
        };
        let v2 = if r >= 2 {
            self.window_v(r - 2, c)
        } else {
            false
        };
        let v3 = if r >= 3 {
            self.window_v(r - 3, c)
        } else {
            false
        };
        let p0 = self.window_dr(r, c);
        let p1 = if r >= 1 && c >= 1 {
            self.window_dr(r - 1, c - 1)
        } else {
            false
        };
        let p2 = if r >= 2 && c >= 2 {
            self.window_dr(r - 2, c - 2)
        } else {
            false
        };
        let p3 = if r >= 3 && c >= 3 {
            self.window_dr(r - 3, c - 3)
        } else {
            false
        };
        let q0 = self.window_dl(r, c);
        let q1 = if r >= 1 && c + 1 <= 6 {
            self.window_dl(r - 1, c + 1)
        } else {
            false
        };
        let q2 = if r >= 2 && c + 2 <= 6 {
            self.window_dl(r - 2, c + 2)
        } else {
            false
        };
        let q3 = if r >= 3 && c + 3 <= 6 {
            self.window_dl(r - 3, c + 3)
        } else {
            false
        };
        let res = h0 || h1 || h2 || h3 || v0 || v1 || v2 || v3 || p0 || p1 || p2 || p3 || q0 || q1
            || q2 || q3;
        proof {
            let b = self.grid();
            let p = self.player;
            let ri = r as int;
            let ci = c as int;
            assert(h0 == window_spec(b, p, ri, ci, 0, 1));
            assert(h1 == window_spec(b, p, ri, ci - 1, 0, 1));
            assert(h2 == window_spec(b, p, ri, ci - 2, 0, 1));
            assert(h3 == window_spec(b, p, ri, ci - 3, 0, 1));
            assert(v0 == window_spec(b, p, ri, ci, 1, 0));
            assert(v1 == window_spec(b, p, ri - 1, ci, 1, 0));
            assert(v2 == window_spec(b, p, ri - 2, ci, 1, 0));
            assert(v3 == window_spec(b, p, ri - 3, ci, 1, 0));
            assert(p0 == window_spec(b, p, ri, ci, 1, 1));
            assert(p1 == window_spec(b, p, ri - 1, ci - 1, 1, 1));
            assert(p2 == window_spec(b, p, ri - 2, ci - 2, 1, 1));
            assert(p3 == window_spec(b, p, ri - 3, ci - 3, 1, 1));
            assert(q0 == window_spec(b, p, ri, ci, 1, -1));
            assert(q1 == window_spec(b, p, ri - 1, ci + 1, 1, -1));
            assert(q2 == window_spec(b, p, ri - 2, ci + 2, 1, -1));
            assert(q3 == window_spec(b, p, ri - 3, ci + 3, 1, -1));
            if res {
                if h0 {
                    assert(covers(ri, ci, 0, 1, ri, ci));
                } else if h1 {
                    assert(covers(ri, ci - 1, 0, 1, ri, ci));
                } else if h2 {
                    assert(covers(ri, ci - 2, 0, 1, ri, ci));
                } else if h3 {
                    assert(covers(ri, ci - 3, 0, 1, ri, ci));
                } else if v0 {
                    assert(covers(ri, ci, 1, 0, ri, ci));
                } else if v1 {
                    assert(covers(ri - 1, ci, 1, 0, ri, ci));
                } else if v2 {
                    assert(covers(ri - 2, ci, 1, 0, ri, ci));
                } else if v3 {
                    assert(covers(ri - 3, ci, 1, 0, ri, ci));
                } else if p0 {
                    assert(covers(ri, ci, 1, 1, ri, ci));
                } else if p1 {
                    assert(covers(ri - 1, ci - 1, 1, 1, ri, ci));
                } else if p2 {
                    assert(covers(ri - 2, ci - 2, 1, 1, ri, ci));
                } else if p3 {
                    assert(covers(ri - 3, ci - 3, 1, 1, ri, ci));
                } else if q0 {
                    assert(covers(ri, ci, 1, -1, ri, ci));
                } else if q1 {
                    assert(covers(ri - 1, ci + 1, 1, -1, ri, ci));
                } else if q2 {
                    assert(covers(ri - 2, ci + 2, 1, -1, ri, ci));
                } else {
                    assert(covers(ri - 3, ci + 3, 1, -1, ri, ci));
                }
                assert(win_at(b, p, ri, ci));
            }
            if win_at(b, p, ri, ci) {
                let (r0, c0, dr, dc) = choose|r0: int, c0: int, dr: int, dc: int|
                    axis(dr, dc) && covers(r0, c0, dr, dc, ri, ci) && #[trigger] window_spec(
                        b,
                        p,
                        r0,
                        c0,
                        dr,
                        dc,
                    );
                if dr == 0 && dc == 1 {
                    assert(c0 == ci || c0 == ci - 1 || c0 == ci - 2 || c0 == ci - 3);
                    assert(res);
                } else if dr == 1 && dc == 0 {
                    assert(r0 == ri || r0 == ri - 1 || r0 == ri - 2 || r0 == ri - 3);
                    assert(res);
                } else if dr == 1 && dc == 1 {
                    assert((r0 == ri && c0 == ci) || (r0 == ri - 1 && c0 == ci - 1) || (r0 == ri - 2
                        && c0 == ci - 2) || (r0 == ri - 3 && c0 == ci - 3));
                    assert(res);
                } else {
                    assert((r0 == ri && c0 == ci) || (r0 == ri - 1 && c0 == ci + 1) || (r0 == ri - 2
                        && c0 == ci + 2) || (r0 == ri - 3 && c0 == ci + 3));
                    assert(res);
                }
            }
        }
        res
    }

    /// The landing row of the next disc dropped into `col`: the lowest
    /// empty row of that column.
    pub open spec fn landing_row(self, col: int) -> int {
        self.count@[col] - 1
    }

    /// Commit one disc of the current player into column `c`: the disc
    /// lands on the lowest empty row and the column's free-row counter
    /// goes down by one.  Nothing else changes.
    pub fn drop_disc(&mut self, c: usize)
        requires
            old(self).structure(),
            c < 7,
            1 <= old(self).count@[c as int] <= 6,
        ensures
            final(self).structure(),
            final(self).count@ == old(self).count@.update(
                c as int,
                (old(self).count@[c as int] - 1) as u8,
            ),
            final(self).grid()[old(self).landing_row(c as int)][c as int] == disc_of(
                old(self).player,
            ),
            forall|r2: int, c2: int|
                0 <= r2 < rows() && 0 <= c2 < cols() && !(r2 == old(self).landing_row(c as int)
                    && c2 == c) ==> #[trigger] final(self).grid()[r2][c2] == old(self).grid()[r2][c2],
            final(self).player == old(self).player,
            final(self).moves == old(self).moves,
    {
        let r = (self.count[c] - 1) as usize;
        let d = self.player.disc();
        self.change_slot(c, r, d);
        self.count[c] = self.count[c] - 1;
    }

    /// The turn controller's check after a disc of the current player
    /// landed in column `c`: report a win if the disc completed a line
    /// of four, otherwise a tie on the 42nd move; otherwise the turn
    /// passes to the other player and the move counter advances.  The
    /// board itself is not touched.
    pub fn check_win(&mut self, c: usize) -> (res: Outcome)
        requires
            old(self).structure(),
            c < 7,
            old(self).count@[c as int] < 6,
        ensures
            final(self).board == old(self).board,
            final(self).count == old(self).count,
            res == outcome_spec(
                old(self).grid(),
                old(self).player,
                old(self).count@[c as int] as int,
                c as int,
                old(self).moves as int,
            ),
            res == Outcome::Continue ==> final(self).player == other_of(old(self).player)
                && final(self).moves == old(self).moves + 1,
            res != Outcome::Continue ==> final(self).player == old(self).player && final(self).moves
                == old(self).moves,
    {
        let r = self.count[c] as usize;
        if self.wins_at(r, c) {
            Outcome::Win(self.player)
        } else if self.check_tie() {
            Outcome::Tie
        } else {
            self.player = self.player.other();
            self.moves = self.moves + 1;
            Outcome::Continue
        }
    }
    /// One full turn of the game.  A full column is rejected and the
    /// state is left as it was; otherwise the current player's disc
    /// falls to the lowest empty row of `col`, the move is judged (win
    /// first, then tie on the 42nd move), and on a continuing game the
    /// turn passes to the other player.
    #[verifier::rlimit(50)]
    pub fn play(&mut self, col: usize) -> (res: Result<Outcome, DropError>)
        requires
            old(self).live(),
            col < 7,
        ensures
            (res == Err::<Outcome, DropError>(DropError::ColumnFull)) <==> old(self).count@[col as int]
                == 0,
            old(self).count@[col as int] == 0 ==> *final(self) == *old(self),
            old(self).count@[col as int] >= 1 ==> {
                &&& res == Ok::<Outcome, DropError>(
                    outcome_spec(
                        final(self).grid(),
                        old(self).player,
                        old(self).landing_row(col as int),
                        col as int,
                        old(self).moves as int,
                    ),
                )
                &&& final(self).grid()[old(self).landing_row(col as int)][col as int] == disc_of(
                    old(self).player,
                )
                &&& forall|r2: int|
                    0 <= r2 < old(self).landing_row(col as int) ==> final(self).grid()[r2][col as int]
                        == Cell::Empty
                &&& forall|r2: int, c2: int|
                    0 <= r2 < rows() && 0 <= c2 < cols() && !(r2 == old(self).landing_row(col as int)
                        && c2 == col) ==> #[trigger] final(self).grid()[r2][c2]
                        == old(self).grid()[r2][c2]
                &&& final(self).count@ == old(self).count@.update(
                    col as int,
                    (old(self).count@[col as int] - 1) as u8,
                )
                &&& final(self).wf()
                &&& grid_count(final(self).grid(), filled_pred()) == old(self).moves
            },
            res == Ok::<Outcome, DropError>(Outcome::Continue) ==> final(self).live()
                && final(self).moves == old(self).moves + 1 && final(self).player == other_of(
                old(self).player,
            ),
            (old(self).count@[col as int] >= 1 && res != Ok::<Outcome, DropError>(Outcome::Continue))
                ==> final(self).player == old(self).player && final(self).moves == old(self).moves,
    {
        if self.count[col] == 0 {
            return Err(DropError::ColumnFull);
        }
        self.drop_disc(col);
        proof {
            let b1 = old(self).grid();
            let b2 = self.grid();
            let ci = col as int;
            let r0 = old(self).landing_row(ci);
            let p = old(self).player;
            assert(b1[r0][ci] == Cell::Empty);
            assert(b2[r0][ci] == disc_of(p));
            lemma_grid_count_update(b1, b2, filled_pred(), r0, ci);
            lemma_grid_count_update(b1, b2, disc_pred(Player::A), r0, ci);
            lemma_grid_count_update(b1, b2, disc_pred(Player::B), r0, ci);
            assert(!(filled_pred()(Cell::Empty)));
            assert(filled_pred()(disc_of(p)));
            assert(grid_count(b2, filled_pred()) == grid_count(b1, filled_pred()) + 1);
            assert(p == Player::A ==> grid_count(b2, disc_pred(Player::A)) == grid_count(
                b1,
                disc_pred(Player::A),
            ) + 1 && grid_count(b2, disc_pred(Player::B)) == grid_count(b1, disc_pred(Player::B)));
            assert(p == Player::B ==> grid_count(b2, disc_pred(Player::B)) == grid_count(
                b1,
                disc_pred(Player::B),
            ) + 1 && grid_count(b2, disc_pred(Player::A)) == grid_count(b1, disc_pred(Player::A)));
            assert forall|r2: int, c2: int|
                0 <= r2 < rows() && 0 <= c2 < cols() implies ((r2 < self.count@[c2])
                <==> #[trigger] b2[r2][c2] == Cell::Empty) by {
                if c2 == ci {
                    if r2 != r0 {
                        assert(b2[r2][c2] == b1[r2][c2]);
                    }
                } else {
                    assert(b2[r2][c2] == b1[r2][c2]);
                    assert(self.count@[c2] == old(self).count@[c2]);
                }
            }
            assert(self.cols_ok());
        }
        let out = self.check_win(col);
        proof {
            assert(self.wf());
            if out == Outcome::Continue {
                assert(self.live());
            }
        }
        Ok(out)
    }
}

/// Four cells all equal to the given disc.
pub fn check_arr(a: [Cell; 4], player: Cell) -> (res: bool)
    ensures
        res == (a@[0] == player && a@[1] == player && a@[2] == player && a@[3] == player),
{
    a[0] == player && a[1] == player && a[2] == player && a[3] == player
}

} // verus!

//! Rendering a board snapshot to text: a header of column labels, six
//! body rows each led by its row label, and one three-character cell
//! per column.  The output is a pure function of the board's cells.

use vstd::prelude::*;
use crate::game::Game;
use crate::grid::{cols, rows, Cell};
use vstd::string::StringExecFns;

verus! {

/// The glyph a cell renders as: a dash when empty, an unfilled round
/// glyph for player A's disc, a filled one for player B's.
pub open spec fn glyph_of(c: Cell) -> char {
    match c {
        Cell::Empty => '-',
        Cell::DiscA => '○',
        Cell::DiscB => '●',
    }
}

/// A rendered cell: space, glyph, space.
pub open spec fn cell_chars(c: Cell) -> Seq<char> {
    seq![' ', glyph_of(c), ' ']
}

/// The header line: a leading space, then the column labels 1 to 7,
/// each padded like a cell.
pub open spec fn header_chars() -> Seq<char> {
    seq![
        ' ',
        ' ',
        '1',
        ' ',
        ' ',
        '2',
        ' ',
        ' ',
        '3',
        ' ',
        ' ',
        '4',
        ' ',
        ' ',
        '5',
        ' ',
        ' ',
        '6',
        ' ',
        ' ',
        '7',
        ' ',
        '\n',
    ]
}

/// The label of a 1-based row number.
pub open spec fn digit_of(n: int) -> char {
    if n == 1 {
        '1'
    } else if n == 2 {
        '2'
    } else if n == 3 {
        '3'
    } else if n == 4 {
        '4'
    } else if n == 5 {
        '5'
    } else {
        '6'
    }
}

/// The first `c` cells of a row, rendered.
pub open spec fn row_cells_prefix(row: Seq<Cell>, c: int) -> Seq<char>
    decreases c,
{
    if c <= 0 {
        Seq::empty()
    } else {
        row_cells_prefix(row, c - 1) + cell_chars(row[c - 1])
    }
}

/// One rendered body row: its 1-based label, seven cells, a newline.
pub open spec fn row_chars(row: Seq<Cell>, r: int) -> Seq<char> {
    seq![digit_of(r + 1)] + row_cells_prefix(row, cols()) + seq!['\n']
}

/// The first `r` body rows, rendered.
pub open spec fn rows_prefix(b: Seq<Seq<Cell>>, r: int) -> Seq<char>
    decreases r,
{
    if r <= 0 {
        Seq::empty()
    } else {
        rows_prefix(b, r - 1) + row_chars(b[r - 1], r - 1)
    }
}

/// The whole rendered board: header, then the six body rows.
pub open spec fn render_spec(b: Seq<Seq<Cell>>) -> Seq<char> {
    header_chars() + rows_prefix(b, rows())
}

/// The three characters a cell renders as.
fn glyph_str(c: Cell) -> (s: &'static str)
    ensures
        s@ == cell_chars(c),
{
    match c {
        Cell::Empty => {
            let s = " - ";
            proof {
                reveal_strlit(" - ");
                assert(s@ =~= cell_chars(Cell::Empty));
            }
            s
        },
        Cell::DiscA => {
            let s = " ○ ";
            proof {
                reveal_strlit(" ○ ");
                assert(s@ =~= cell_chars(Cell::DiscA));
            }
            s
        },
        Cell::DiscB => {
            let s = " ● ";
            proof {
                reveal_strlit(" ● ");
                assert(s@ =~= cell_chars(Cell::DiscB));
            }
            s
        },
    }
}

/// The label of the row with index `r`.
fn digit_str(r: usize) -> (s: &'static str)
    requires
        r < 6,
    ensures
        s@ == seq![digit_of(r as int + 1)],
{
    if r == 0 {
        let s = "1";
        proof {
            reveal_strlit("1");
            assert(s@ =~= seq![digit_of(1)]);
        }
        s
    } else if r == 1 {
        let s = "2";
        proof {
            reveal_strlit("2");
            assert(s@ =~= seq![digit_of(2)]);
        }
        s
    } else if r == 2 {
        let s = "3";
        proof {
            reveal_strlit("3");
            assert(s@ =~= seq![digit_of(3)]);
        }
        s
    } else if r == 3 {
        let s = "4";
        proof {
            reveal_strlit("4");
            assert(s@ =~= seq![digit_of(4)]);
        }
        s
    } else if r == 4 {
        let s = "5";
        proof {
            reveal_strlit("5");
            assert(s@ =~= seq![digit_of(5)]);
        }
        s
    } else {
        let s = "6";
        proof {
            reveal_strlit("6");
            assert(s@ =~= seq![digit_of(6)]);
        }
        s
    }
}

impl Game {
    /// Render the board: the exact text is a function of the cells
    /// alone, so equal boards always render to identical output.
    pub fn display_board(&self) -> (s: String)
        requires
            self.structure(),
        ensures
            s@ == render_spec(self.grid()),
    {
        let mut s = String::new();
        s.append("  1  2  3  4  5  6  7 \n");
        proof {
            reveal_strlit("  1  2  3  4  5  6  7 \n");
            assert(s@ =~= header_chars());
        }
        let mut r: usize = 0;
        while r < 6
            invariant
                self.structure(),
                r <= 6,
                s@ == header_chars() + rows_prefix(self.grid(), r as int),
            decreases 6 - r,
        {
            s.append(digit_str(r));
            let mut c: usize = 0;
            while c < 7
                invariant
                    self.structure(),
                    r < 6,
                    c <= 7,
                    s@ == header_chars() + rows_prefix(self.grid(), r as int) + seq![
                        digit_of(r as int + 1),
                    ] + row_cells_prefix(self.grid()[r as int], c as int),
                decreases 7 - c,
            {
                s.append(glyph_str(self.board[r][c]));
                proof {
                    assert(s@ =~= header_chars() + rows_prefix(self.grid(), r as int) + seq![
                        digit_of(r as int + 1),
                    ] + row_cells_prefix(self.grid()[r as int], c as int + 1));
                }
                c = c + 1;
            }
            s.append("\n");
            proof {
                reveal_strlit("\n");
                assert(s@ =~= header_chars() + rows_prefix(self.grid(), r as int + 1));
            }
            r = r + 1;
        }
        s
    }
}

} // verus!

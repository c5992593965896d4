//! The text of a grid: one line for each row, one character for each cell,
//! then an empty line and a line that gives the number of steps.

use vstd::prelude::*;
use vstd::string::StringExecFns;
use crate::board::Cells;
use crate::life::{cells_of, Grid, GridView};

verus! {

/// The character for a cell: `x` for a live one, `.` for a dead one.
pub open spec fn glyph(alive: bool) -> char {
    if alive {
        'x'
    } else {
        '.'
    }
}

/// The line for one row: the characters of its cells and a line feed.
pub open spec fn row_text(row: Seq<bool>) -> Seq<char> {
    Seq::new(row.len(), |x: int| glyph(row[x])).push('\n')
}

/// The lines of all rows, from the first row to the last.
pub open spec fn rows_text(cells: Cells) -> Seq<char>
    decreases cells.len(),
{
    if cells.len() == 0 {
        Seq::empty()
    } else {
        rows_text(cells.drop_last()) + row_text(cells.last())
    }
}

/// The character for a value below ten.
pub open spec fn digit(d: nat) -> char {
    seq!['0', '1', '2', '3', '4', '5', '6', '7', '8', '9'][d as int]
}

/// A number in decimal notation, with no leading zero.
pub open spec fn decimal(n: nat) -> Seq<char>
    decreases n,
{
    if n < 10 {
        seq![digit(n)]
    } else {
        decimal(n / 10).push(digit(n % 10))
    }
}

/// The text that shows a grid.
pub open spec fn frame(grid: GridView) -> Seq<char> {
    rows_text(grid.cells) + seq!['\n', 'S', 't', 'e', 'p', ':', ' '] + decimal(grid.steps)
        + seq!['\n']
}

/// Writes `n` at the end of `text`, in decimal notation.
fn push_decimal(text: &mut String, n: u128)
    ensures
        final(text)@ == old(text)@ + decimal(n as nat),
    decreases n,
{
    if n >= 10 {
        push_decimal(text, n / 10);
    }
    let d = n % 10;
    proof {
        reveal_strlit("0");
        reveal_strlit("1");
        reveal_strlit("2");
        reveal_strlit("3");
        reveal_strlit("4");
        reveal_strlit("5");
        reveal_strlit("6");
        reveal_strlit("7");
        reveal_strlit("8");
        reveal_strlit("9");
    }
    let figure = if d == 0 {
        "0"
    } else if d == 1 {
        "1"
    } else if d == 2 {
        "2"
    } else if d == 3 {
        "3"
    } else if d == 4 {
        "4"
    } else if d == 5 {
        "5"
    } else if d == 6 {
        "6"
    } else if d == 7 {
        "7"
    } else if d == 8 {
        "8"
    } else {
        "9"
    };
    text.append(figure);
}

impl Grid {
    /// The text that shows the grid: `x` for a live cell and `.` for a dead
    /// one, each row on a line of its own, then an empty line and the line
    /// `Step: ` with the number of generations that have passed.
    pub fn render(&self) -> (text: String)
        ensures
            text@ == frame(self@),
    {
        let rows = self.cells();
        let mut text = String::new();
        for y in 0..rows.len()
            invariant
                text@ == rows_text(cells_of(*rows).take(y as int)),
        {
            let row = &rows[y];
            let ghost start = text@;
            for x in 0..row.len()
                invariant
                    text@ == start + Seq::new(x as nat, |i: int| glyph(row@[i])),
            {
                if row[x] {
                    text.append("x");
                } else {
                    text.append(".");
                }
                proof {
                    reveal_strlit("x");
                    reveal_strlit(".");
                }
            }
            text.append("\n");
            proof {
                reveal_strlit("\n");
                assert(cells_of(*rows).take(y + 1).drop_last() =~= cells_of(*rows).take(
                    y as int,
                ));
            }
        }
        proof {
            assert(cells_of(*rows).take(rows@.len() as int) =~= cells_of(*rows));
        }
        text.append("\nStep: ");
        push_decimal(&mut text, self.steps());
        text.append("\n");
        proof {
            reveal_strlit("\nStep: ");
            reveal_strlit("\n");
        }
        text
    }
}

} // verus!

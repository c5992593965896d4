//! The game as mathematics: a board is a sequence of rows of cells, and one
//! generation follows from the one before by the rule of birth and survival.
//!
//! The board has hard edges. A position outside it holds no cell: it is never
//! alive and never counts as a neighbour.

use vstd::prelude::*;
use crate::seed::Point;

verus! {

/// The cells of a board, row by row: `cells[y][x]` is true where the cell in
/// column `x` of row `y` is alive.
pub type Cells = Seq<Seq<bool>>;

/// Whether `(x, y)` is a position on the board.
pub open spec fn on_board(cells: Cells, x: int, y: int) -> bool {
    0 <= y < cells.len() && 0 <= x < cells[y].len()
}

/// Whether there is a live cell at `(x, y)`. Off the board there is none.
pub open spec fn alive(cells: Cells, x: int, y: int) -> bool {
    on_board(cells, x, y) && cells[y][x]
}

/// Whether the board has a live cell.
pub open spec fn populated(cells: Cells) -> bool {
    exists|x: int, y: int| alive(cells, x, y)
}

/// What the position `(x, y)` adds to a count of live cells: one or nothing.
pub open spec fn live(cells: Cells, x: int, y: int) -> nat {
    if alive(cells, x, y) {
        1
    } else {
        0
    }
}

/// The number of live cells among the eight positions around `(x, y)`. The
/// cell at `(x, y)` itself is not among them.
pub open spec fn neighbours(cells: Cells, x: int, y: int) -> nat {
    live(cells, x - 1, y - 1) + live(cells, x, y - 1) + live(cells, x + 1, y - 1)
        + live(cells, x - 1, y) + live(cells, x + 1, y)
        + live(cells, x - 1, y + 1) + live(cells, x, y + 1) + live(cells, x + 1, y + 1)
}

/// The state of the cell at `(x, y)` one generation later: a live cell stays
/// alive with two or three live neighbours, a dead cell comes to life with
/// exactly three.
pub open spec fn next_state(cells: Cells, x: int, y: int) -> bool {
    let n = neighbours(cells, x, y);
    if alive(cells, x, y) {
        n == 2 || n == 3
    } else {
        n == 3
    }
}

/// The next generation: every cell takes its next state at once, each judged
/// by the generation before.
pub open spec fn step(cells: Cells) -> Cells {
    Seq::new(cells.len(), |y: int| Seq::new(cells[y].len(), |x: int| next_state(cells, x, y)))
}

/// The board `n` generations later.
pub open spec fn generation(cells: Cells, n: nat) -> Cells
    decreases n,
{
    if n == 0 {
        cells
    } else {
        step(generation(cells, (n - 1) as nat))
    }
}

/// Whether the positions `(ax, ay)` and `(bx, by)` are next to each other:
/// at most one column and one row apart, and not the same.
pub open spec fn adjacent(ax: int, ay: int, bx: int, by: int) -> bool {
    &&& -1 <= bx - ax <= 1
    &&& -1 <= by - ay <= 1
    &&& !(ax == bx && ay == by)
}

/// The board with the cell at `(x, y)` set to `state`.
pub open spec fn with_cell(cells: Cells, x: int, y: int, state: bool) -> Cells {
    cells.update(y, cells[y].update(x, state))
}

/// A board of `height` rows of `width` cells each.
pub open spec fn rectangular(cells: Cells, width: nat, height: nat) -> bool {
    &&& cells.len() == height
    &&& forall|y: int| 0 <= y < height ==> (#[trigger] cells[y]).len() == width
}

/// Whether one of `points` is the position `(x, y)`.
pub open spec fn marked(points: Seq<Point>, x: int, y: int) -> bool {
    exists|i: int| 0 <= i < points.len() && (#[trigger] points[i]).x == x && points[i].y == y
}

/// The board of the given size on which exactly the cells at `points` are
/// alive.
pub open spec fn seeded(width: nat, height: nat, points: Seq<Point>) -> Cells {
    Seq::new(height, |y: int| Seq::new(width, |x: int| marked(points, x, y)))
}

} // verus!

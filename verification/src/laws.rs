//! Laws of the game, each proved from the definitions that the contracts of
//! the grid are stated in.

use vstd::prelude::*;
use crate::board::{
    adjacent, alive, neighbours, next_state, on_board, populated, seeded, step, with_cell, Cells,
};
use crate::life::all_points;
use crate::seed::{Point, Seed};

verus! {

/// A list of no seeds has no points, so a grid built from it holds the board
/// on which no point is marked. On that board no position, on it or off it,
/// has a live neighbour.
pub proof fn lemma_unseeded_board_has_no_neighbours(width: nat, height: nat, x: int, y: int)
    ensures
        all_points(Seq::<Seed>::empty()) == Seq::<Point>::empty(),
        neighbours(seeded(width, height, all_points(Seq::<Seed>::empty())), x, y) == 0,
{
}

/// A tick keeps the shape of the board, and gives each cell the state that
/// the rule names for it.
pub proof fn lemma_step_cell(cells: Cells, x: int, y: int)
    ensures
        on_board(step(cells), x, y) == on_board(cells, x, y),
        alive(step(cells), x, y) == (on_board(cells, x, y) && next_state(cells, x, y)),
{
}

/// Underpopulation: a live cell with fewer than two live neighbours, and so
/// one with none, is dead after a tick.
pub proof fn lemma_underpopulation(cells: Cells, x: int, y: int)
    requires
        alive(cells, x, y),
        neighbours(cells, x, y) < 2,
    ensures
        !alive(step(cells), x, y),
{
}

/// Overpopulation: a live cell with four or more live neighbours is dead
/// after a tick.
pub proof fn lemma_overpopulation(cells: Cells, x: int, y: int)
    requires
        alive(cells, x, y),
        neighbours(cells, x, y) >= 4,
    ensures
        !alive(step(cells), x, y),
{
}

/// Survival: a live cell with two or three live neighbours is alive after a
/// tick.
pub proof fn lemma_survival(cells: Cells, x: int, y: int)
    requires
        alive(cells, x, y),
        2 <= neighbours(cells, x, y) <= 3,
    ensures
        alive(step(cells), x, y),
{
}

/// Birth: a dead cell is alive after a tick if and only if it has exactly
/// three live neighbours.
pub proof fn lemma_birth(cells: Cells, x: int, y: int)
    requires
        on_board(cells, x, y),
        !alive(cells, x, y),
    ensures
        alive(step(cells), x, y) <==> neighbours(cells, x, y) == 3,
{
}

/// A board without a live cell stays as it is. A tick on it changes no cell,
/// so after that tick the game cannot go on.
pub proof fn lemma_extinct_board_is_still(cells: Cells)
    requires
        !populated(cells),
    ensures
        step(cells) == cells,
{
    assert forall|x: int, y: int| on_board(cells, x, y) implies next_state(cells, x, y)
        == cells[y][x] by {
        assert(forall|a: int, b: int| !alive(cells, a, b));
    }
    assert(step(cells) =~~= cells);
}

/// A cell is not its own neighbour: the count around a position does not
/// depend on the state of the cell at that position.
pub proof fn lemma_own_state_not_counted(cells: Cells, x: int, y: int, state: bool)
    requires
        on_board(cells, x, y),
    ensures
        neighbours(with_cell(cells, x, y, state), x, y) == neighbours(cells, x, y),
{
    lemma_only_adjacent_cells_count(cells, x, y, state, x, y);
}

/// Only the eight positions next to `(x, y)` count for it. The state of any
/// other cell `(cx, cy)`, the cell at `(x, y)` itself and the cells at the
/// far edges of the board among them, does not change the count. The state
/// of a cell next to it changes the count by exactly one.
pub proof fn lemma_only_adjacent_cells_count(
    cells: Cells,
    cx: int,
    cy: int,
    state: bool,
    x: int,
    y: int,
)
    requires
        on_board(cells, cx, cy),
    ensures
        !adjacent(cx, cy, x, y) ==> neighbours(with_cell(cells, cx, cy, state), x, y)
            == neighbours(cells, x, y),
        adjacent(cx, cy, x, y) ==> neighbours(with_cell(cells, cx, cy, true), x, y) == neighbours(
            with_cell(cells, cx, cy, false),
            x,
            y,
        ) + 1,
{
    lemma_with_cell(cells, cx, cy, state);
    lemma_with_cell(cells, cx, cy, true);
    lemma_with_cell(cells, cx, cy, false);
}

/// Setting a cell changes the state of that cell and of no other.
pub proof fn lemma_with_cell(cells: Cells, cx: int, cy: int, state: bool)
    requires
        on_board(cells, cx, cy),
    ensures
        forall|x: int, y: int| #[trigger]
            on_board(with_cell(cells, cx, cy, state), x, y) == on_board(cells, x, y),
        forall|x: int, y: int| #[trigger]
            alive(with_cell(cells, cx, cy, state), x, y) == (if x == cx && y == cy {
                state
            } else {
                alive(cells, x, y)
            }),
{
}

/// On a board whose only live cell is `(cx, cy)`, the count around a position
/// is one if the position is next to that cell and zero if it is not: zero
/// for the cell itself, and zero for every position further away, however
/// the board's edges lie.
pub proof fn lemma_lone_cell(cells: Cells, cx: int, cy: int, x: int, y: int)
    requires
        forall|a: int, b: int| #[trigger] alive(cells, a, b) <==> a == cx && b == cy,
    ensures
        neighbours(cells, x, y) == (if adjacent(cx, cy, x, y) {
            1nat
        } else {
            0nat
        }),
{
}

} // verus!

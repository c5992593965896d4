//! The glider travels: on a board with room for it, it shows its shape again
//! after four ticks, one column further right and one row further down.
//!
//! A glider has four shapes in turn. Glider one and glider two are two of
//! them; the other two are the shapes that glider one takes after one tick
//! and after two. After the third tick it is glider two, one row further
//! down, and one tick takes glider two to glider one, one column further
//! right.

use vstd::prelude::*;
use crate::board::{alive, generation, marked, seeded, step, Cells};
use crate::seed::{glider_one_points, glider_two_points, shifted, Point};

verus! {

/// The cells of glider one at `(x, y)` one tick later:
///
/// ```text
/// . x .
/// . . x
/// x x x
/// ```
pub open spec fn glider_one_after_tick(x: usize, y: usize) -> Seq<Point> {
    seq![
        shifted(x, y, 0, 2),
        shifted(x, y, 1, 0),
        shifted(x, y, 1, 2),
        shifted(x, y, 2, 1),
        shifted(x, y, 2, 2),
    ]
}

/// The cells of glider one at `(x, y)` two ticks later. The glider has left
/// the top row of its box and entered the row below it:
///
/// ```text
/// . . .
/// x . x
/// . x x
/// . x .
/// ```
pub open spec fn glider_one_after_two_ticks(x: usize, y: usize) -> Seq<Point> {
    seq![
        shifted(x, y, 0, 1),
        shifted(x, y, 1, 2),
        shifted(x, y, 1, 3),
        shifted(x, y, 2, 1),
        shifted(x, y, 2, 2),
    ]
}

/// Whether `(a, b)` is one of the first five of `points`.
spec fn among_five(points: Seq<Point>, a: int, b: int) -> bool {
    (a == points[0].x && b == points[0].y) || (a == points[1].x && b == points[1].y) || (a
        == points[2].x && b == points[2].y) || (a == points[3].x && b == points[3].y) || (a
        == points[4].x && b == points[4].y)
}

/// The live cells of a board seeded with five points are the cells of the
/// board at those points.
proof fn lemma_seeded_five(width: usize, height: usize, points: Seq<Point>)
    requires
        points.len() == 5,
    ensures
        forall|a: int, b: int| #[trigger]
            alive(seeded(width as nat, height as nat, points), a, b) <==> 0 <= a < width && 0 <= b
                < height && among_five(points, a, b),
{
    assert forall|a: int, b: int| #[trigger] marked(points, a, b) <==> among_five(
        points,
        a,
        b,
    ) by {
        // Name the five points, so that each can be the one that marks `(a, b)`.
        let _ = (points[0], points[1], points[2], points[3], points[4]);
    }
}

/// If the live cells of the next generation of a board seeded with `from`
/// are the cells at the points `to`, that generation is the board seeded with
/// `to`.
proof fn lemma_tick_between(width: usize, height: usize, from: Seq<Point>, to: Seq<Point>)
    requires
        forall|a: int, b: int|
            0 <= a < width && 0 <= b < height ==> (#[trigger] alive(
                step(seeded(width as nat, height as nat, from)),
                a,
                b,
            ) <==> alive(seeded(width as nat, height as nat, to), a, b)),
    ensures
        step(seeded(width as nat, height as nat, from)) == seeded(width as nat, height as nat, to),
{
    let before = seeded(width as nat, height as nat, from);
    let after = seeded(width as nat, height as nat, to);
    assert forall|b: int| 0 <= b < height implies #[trigger] step(before)[b] == after[b] by {
        assert forall|a: int| 0 <= a < width implies #[trigger] step(before)[b][a]
            == after[b][a] by {
            assert(alive(step(before), a, b) <==> alive(after, a, b));
        }
        assert(step(before)[b] =~= after[b]);
    }
    assert(step(before) =~= after);
}

/// One tick takes glider one to its next shape.
pub proof fn lemma_glider_one_first_tick(width: usize, height: usize, x: usize, y: usize)
    requires
        x + 2 < width,
        y + 2 < height,
    ensures
        step(seeded(width as nat, height as nat, glider_one_points(x, y))) == seeded(
            width as nat,
            height as nat,
            glider_one_after_tick(x, y),
        ),
{
    lemma_seeded_five(width, height, glider_one_points(x, y));
    lemma_seeded_five(width, height, glider_one_after_tick(x, y));
    lemma_tick_between(width, height, glider_one_points(x, y), glider_one_after_tick(x, y));
}

/// The second tick takes the glider one row further down.
pub proof fn lemma_glider_one_second_tick(width: usize, height: usize, x: usize, y: usize)
    requires
        x + 2 < width,
        y + 3 < height,
    ensures
        step(seeded(width as nat, height as nat, glider_one_after_tick(x, y))) == seeded(
            width as nat,
            height as nat,
            glider_one_after_two_ticks(x, y),
        ),
{
    lemma_seeded_five(width, height, glider_one_after_tick(x, y));
    lemma_seeded_five(width, height, glider_one_after_two_ticks(x, y));
    lemma_tick_between(
        width,
        height,
        glider_one_after_tick(x, y),
        glider_one_after_two_ticks(x, y),
    );
}

/// With its third tick glider one at `(x, y)` becomes glider two at
/// `(x, y + 1)`.
pub proof fn lemma_glider_one_third_tick(width: usize, height: usize, x: usize, y: usize)
    requires
        x + 2 < width,
        y + 3 < height,
    ensures
        step(seeded(width as nat, height as nat, glider_one_after_two_ticks(x, y))) == seeded(
            width as nat,
            height as nat,
            glider_two_points(x, (y + 1) as usize),
        ),
{
    lemma_seeded_five(width, height, glider_one_after_two_ticks(x, y));
    lemma_seeded_five(width, height, glider_two_points(x, (y + 1) as usize));
    lemma_tick_between(
        width,
        height,
        glider_one_after_two_ticks(x, y),
        glider_two_points(x, (y + 1) as usize),
    );
}

/// One tick takes glider two at `(x, y)` to glider one at `(x + 1, y)`.
pub proof fn lemma_glider_two_tick(width: usize, height: usize, x: usize, y: usize)
    requires
        x + 3 < width,
        y + 2 < height,
    ensures
        step(seeded(width as nat, height as nat, glider_two_points(x, y))) == seeded(
            width as nat,
            height as nat,
            glider_one_points((x + 1) as usize, y),
        ),
{
    lemma_seeded_five(width, height, glider_two_points(x, y));
    lemma_seeded_five(width, height, glider_one_points((x + 1) as usize, y));
    lemma_tick_between(
        width,
        height,
        glider_two_points(x, y),
        glider_one_points((x + 1) as usize, y),
    );
}

/// Glider one seeded at `(x, y)`, with one column and one row of the board to
/// spare right of and below its box, is after four ticks glider one seeded at
/// `(x + 1, y + 1)`.
pub proof fn lemma_glider_one_travels(width: usize, height: usize, x: usize, y: usize)
    requires
        x + 3 < width,
        y + 3 < height,
    ensures
        generation(seeded(width as nat, height as nat, glider_one_points(x, y)), 4) == seeded(
            width as nat,
            height as nat,
            glider_one_points((x + 1) as usize, (y + 1) as usize),
        ),
{
    let start = seeded(width as nat, height as nat, glider_one_points(x, y));
    lemma_glider_one_first_tick(width, height, x, y);
    lemma_glider_one_second_tick(width, height, x, y);
    lemma_glider_one_third_tick(width, height, x, y);
    lemma_glider_two_tick(width, height, x, (y + 1) as usize);
    lemma_four_ticks(start);
}

/// Glider two seeded at `(x, y)`, with one column and one row of the board to
/// spare right of and below its box, is after four ticks glider two seeded at
/// `(x + 1, y + 1)`.
pub proof fn lemma_glider_two_travels(width: usize, height: usize, x: usize, y: usize)
    requires
        x + 3 < width,
        y + 3 < height,
    ensures
        generation(seeded(width as nat, height as nat, glider_two_points(x, y)), 4) == seeded(
            width as nat,
            height as nat,
            glider_two_points((x + 1) as usize, (y + 1) as usize),
        ),
{
    let start = seeded(width as nat, height as nat, glider_two_points(x, y));
    lemma_glider_two_tick(width, height, x, y);
    lemma_glider_one_first_tick(width, height, (x + 1) as usize, y);
    lemma_glider_one_second_tick(width, height, (x + 1) as usize, y);
    lemma_glider_one_third_tick(width, height, (x + 1) as usize, y);
    lemma_four_ticks(start);
}

/// The fourth generation after a board is what four ticks in a row make of
/// it.
proof fn lemma_four_ticks(cells: Cells)
    ensures
        generation(cells, 4) == step(step(step(step(cells)))),
{
    reveal_with_fuel(generation, 5);
}

} // verus!

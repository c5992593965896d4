//! Seed patterns: ordered lists of cells that are alive when a game starts.

use vstd::prelude::*;

verus! {

/// A cell position: column `x`, row `y`.
#[derive(Clone, Copy, Debug, PartialEq, Eq, Structural)]
pub struct Point {
    pub x: usize,
    pub y: usize,
}

impl Point {
    pub fn new(x: usize, y: usize) -> (p: Point)
        ensures
            p == (Point { x, y }),
    {
        Point { x, y }
    }
}

/// The point that lies `dx` columns right of and `dy` rows below `(x, y)`.
pub open spec fn shifted(x: usize, y: usize, dx: nat, dy: nat) -> Point {
    Point { x: (x + dx) as usize, y: (y + dy) as usize }
}

/// The five cells of glider one, the glider in the first of the two shapes
/// that can be seeded, with the top left corner of its box of three by three
/// cells at `(x, y)`:
///
/// ```text
/// x . .
/// . x x
/// x x .
/// ```
pub open spec fn glider_one_points(x: usize, y: usize) -> Seq<Point> {
    seq![
        shifted(x, y, 0, 0),
        shifted(x, y, 0, 2),
        shifted(x, y, 1, 1),
        shifted(x, y, 1, 2),
        shifted(x, y, 2, 1),
    ]
}

/// The five cells of glider two, the glider in the second of the two shapes
/// that can be seeded, with the top left corner of its box of three by three
/// cells at `(x, y)`:
///
/// ```text
/// . . x
/// x . x
/// . x x
/// ```
pub open spec fn glider_two_points(x: usize, y: usize) -> Seq<Point> {
    seq![
        shifted(x, y, 0, 1),
        shifted(x, y, 1, 2),
        shifted(x, y, 2, 0),
        shifted(x, y, 2, 1),
        shifted(x, y, 2, 2),
    ]
}

/// An ordered list of cells to bring to life. A seed is not tied to a board:
/// whether its points fit is decided when a grid is built from it.
pub struct Seed {
    points: Vec<Point>,
}

impl View for Seed {
    type V = Seq<Point>;

    closed spec fn view(&self) -> Seq<Point> {
        self.points@
    }
}

impl Seed {
    /// Keeps `points` as they are, in their order.
    pub fn new(points: Vec<Point>) -> (seed: Seed)
        ensures
            seed@ == points@,
    {
        Seed { points }
    }

    pub fn points(&self) -> (points: &Vec<Point>)
        ensures
            points@ == self@,
    {
        &self.points
    }

    /// Glider one at `(x, y)`. Its box reaches two columns and two rows
    /// beyond `(x, y)`, so these have to be positions.
    pub fn glider_one(x: usize, y: usize) -> (seed: Seed)
        requires
            x + 2 <= usize::MAX,
            y + 2 <= usize::MAX,
        ensures
            seed@ == glider_one_points(x, y),
    {
        let mut points: Vec<Point> = Vec::new();
        points.push(Point::new(x, y));
        points.push(Point::new(x, y + 2));
        points.push(Point::new(x + 1, y + 1));
        points.push(Point::new(x + 1, y + 2));
        points.push(Point::new(x + 2, y + 1));
        Seed::new(points)
    }

    /// Glider two at `(x, y)`. Its box reaches two columns and two rows
    /// beyond `(x, y)`, so these have to be positions.
    pub fn glider_two(x: usize, y: usize) -> (seed: Seed)
        requires
            x + 2 <= usize::MAX,
            y + 2 <= usize::MAX,
        ensures
            seed@ == glider_two_points(x, y),
    {
        let mut points: Vec<Point> = Vec::new();
        points.push(Point::new(x, y + 1));
        points.push(Point::new(x + 1, y + 2));
        points.push(Point::new(x + 2, y));
        points.push(Point::new(x + 2, y + 1));
        points.push(Point::new(x + 2, y + 2));
        Seed::new(points)
    }
}

} // verus!

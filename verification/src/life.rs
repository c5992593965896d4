//! The grid: the cells of a running game, and the operations that build it,
//! advance it by a generation and observe it.

use vstd::prelude::*;
use crate::board::{
    alive, live, marked, neighbours, next_state, on_board, populated, rectangular, seeded, step,
    with_cell, Cells,
};
use crate::seed::{Point, Seed};

verus! {

/// Why a grid could not be built.
#[derive(Clone, Copy, Debug, PartialEq, Eq, Structural)]
pub enum GridError {
    /// The board would have no columns.
    ZeroWidth,
    /// The board would have no rows.
    ZeroHeight,
    /// A seed point lies in column `x`, right of the last column.
    SeedOutsideWidth { x: usize },
    /// A seed point lies in row `y`, below the last row.
    SeedOutsideHeight { y: usize },
}

/// All points of `seeds`, seed after seed, each seed's points in their order.
pub open spec fn all_points(seeds: Seq<Seed>) -> Seq<Point>
    decreases seeds.len(),
{
    if seeds.len() == 0 {
        Seq::empty()
    } else {
        all_points(seeds.drop_last()) + seeds.last()@
    }
}

/// Whether `p` is a position on a board of the given size.
pub open spec fn inside(p: Point, width: usize, height: usize) -> bool {
    p.x < width && p.y < height
}

/// Whether all of `points` are positions on a board of the given size.
pub open spec fn all_inside(points: Seq<Point>, width: usize, height: usize) -> bool {
    forall|k: int| 0 <= k < points.len() ==> inside(#[trigger] points[k], width, height)
}

/// Whether `points[k]` is the first point that is not on the board.
pub open spec fn first_outside_at(points: Seq<Point>, k: int, width: usize, height: usize) -> bool {
    &&& 0 <= k < points.len()
    &&& !inside(points[k], width, height)
    &&& forall|j: int| 0 <= j < k ==> inside(#[trigger] points[j], width, height)
}

/// The error that reports `p`, a point off the board. The column is looked at
/// first.
pub open spec fn outside_error(p: Point, width: usize) -> GridError {
    if p.x >= width {
        GridError::SeedOutsideWidth { x: p.x }
    } else {
        GridError::SeedOutsideHeight { y: p.y }
    }
}

/// What can be observed of a grid.
pub struct GridView {
    /// The cells, row by row.
    pub cells: Cells,
    /// The number of generations that have passed.
    pub steps: nat,
    /// Whether the game can go on: true from the start, and then for as long
    /// as the last tick changed a cell.
    pub life: bool,
}

/// The grid of cells making up the game of life.
///
/// A grid has at least one column and one row, and all its rows have the
/// same number of cells. Its size never changes.
pub struct Grid {
    width: usize,
    height: usize,
    steps: u128,
    life: bool,
    cells: Vec<Vec<bool>>,
}

impl View for Grid {
    type V = GridView;

    closed spec fn view(&self) -> GridView {
        GridView { cells: cells_of(self.cells), steps: self.steps as nat, life: self.life }
    }
}

/// The board that the rows of a grid hold.
pub open spec fn cells_of(rows: Vec<Vec<bool>>) -> Cells {
    Seq::new(rows@.len(), |y: int| rows@[y]@)
}

/// Sets the cell at `(x, y)`, and no other, to `state`.
fn set_cell(cells: &mut Vec<Vec<bool>>, x: usize, y: usize, state: bool)
    requires
        on_board(cells_of(*old(cells)), x as int, y as int),
    ensures
        cells_of(*final(cells)) == with_cell(cells_of(*old(cells)), x as int, y as int, state),
    no_unwind
{
    cells[y][x] = state;
}

/// A board of the given size with no live cell.
fn blank_cells(width: usize, height: usize) -> (cells: Vec<Vec<bool>>)
    ensures
        cells_of(cells) == seeded(width as nat, height as nat, Seq::empty()),
{
    let mut cells: Vec<Vec<bool>> = Vec::new();
    for y in 0..height
        invariant
            cells_of(cells) == seeded(width as nat, y as nat, Seq::empty()),
    {
        let mut row: Vec<bool> = Vec::new();
        for x in 0..width
            invariant
                row@ == Seq::new(x as nat, |i: int| false),
        {
            row.push(false);
        }
        let ghost before = cells_of(cells);
        cells.push(row);
        proof {
            assert(before.len() == y);
            let after = seeded(width as nat, (y + 1) as nat, Seq::empty());
            assert forall|j: int| 0 <= j < y + 1 implies cells_of(cells)[j] == after[j] by {
                if j < y {
                    assert(cells_of(cells)[j] == before[j]);
                }
            }
        }
    }
    cells
}

/// The points of the first `i` seeds open the list of all points, and the
/// points of the seed after them follow directly.
proof fn lemma_all_points_prefix(seeds: Seq<Seed>, i: int)
    requires
        0 <= i <= seeds.len(),
    ensures
        all_points(seeds.take(i)).len() <= all_points(seeds).len(),
        all_points(seeds.take(i)) == all_points(seeds).take(all_points(seeds.take(i)).len() as int),
        i < seeds.len() ==> all_points(seeds.take(i + 1)) == all_points(seeds.take(i)) + seeds[i]@,
    decreases seeds.len() - i,
{
    if i == seeds.len() {
        assert(seeds.take(i) =~= seeds);
    } else {
        assert(seeds.take(i + 1).drop_last() =~= seeds.take(i));
        lemma_all_points_prefix(seeds, i + 1);
    }
}

/// Marking one more point brings the cell at that point to life and leaves
/// every other cell as it was.
proof fn lemma_seeded_push(width: nat, height: nat, points: Seq<Point>, p: Point)
    requires
        p.x < width,
        p.y < height,
    ensures
        seeded(width, height, points.push(p)) == with_cell(
            seeded(width, height, points),
            p.x as int,
            p.y as int,
            true,
        ),
{
    let before = seeded(width, height, points);
    let after = seeded(width, height, points.push(p));
    let more = points.push(p);
    assert forall|x: int, y: int|
        marked(more, x, y) <==> marked(points, x, y) || (p.x == x && p.y == y) by {
        if marked(points, x, y) {
            let i = choose|i: int|
                0 <= i < points.len() && (#[trigger] points[i]).x == x && points[i].y == y;
            assert(more[i] == points[i]);
        }
        if p.x == x && p.y == y {
            assert(more[points.len() as int] == p);
        }
    }
    assert(after =~~= with_cell(before, p.x as int, p.y as int, true));
}

/// A cell that changes state in a tick: its column, its row and its new state.
type Change = (usize, usize, bool);

/// Whether one of `changes`, from index `from` on, is for the cell `(x, y)`.
spec fn listed(changes: Seq<Change>, from: int, x: int, y: int) -> bool {
    exists|j: int| from <= j < changes.len() && (#[trigger] changes[j]).0 == x && changes[j].1 == y
}

/// Each of `changes` is for a cell of the board and gives the state, other
/// than its present one, that the cell has in the next generation.
spec fn changes_sound(cells: Cells, changes: Seq<Change>) -> bool {
    forall|j: int|
        0 <= j < changes.len() ==> {
            let (x, y, state) = #[trigger] changes[j];
            &&& on_board(cells, x as int, y as int)
            &&& state == next_state(cells, x as int, y as int)
            &&& state != cells[y as int][x as int]
        }
}

/// Whether the cell `(x, y)` comes before the cell `(next_x, next_y)` when
/// the board is read row by row.
spec fn read_before(x: int, y: int, next_x: int, next_y: int) -> bool {
    y < next_y || (y == next_y && x < next_x)
}

/// Every cell read before `(next_x, next_y)` whose state differs in the next
/// generation has one of `changes`.
spec fn changes_cover(cells: Cells, changes: Seq<Change>, next_x: int, next_y: int) -> bool {
    forall|x: int, y: int|
        #![trigger next_state(cells, x, y)]
        on_board(cells, x, y) && read_before(x, y, next_x, next_y) && next_state(cells, x, y)
            != cells[y][x] ==> listed(changes, 0, x, y)
}

/// The board differs in its next generation if and only if the list of its
/// changes is not empty.
proof fn lemma_changes_tell_of_change(cells: Cells, changes: Seq<Change>)
    requires
        changes_sound(cells, changes),
        changes_cover(cells, changes, 0, cells.len() as int),
    ensures
        changes.len() > 0 <==> step(cells) != cells,
{
    if changes.len() > 0 {
        let (x, y, state) = changes[0];
        assert(step(cells)[y as int][x as int] != cells[y as int][x as int]);
    } else {
        assert forall|x: int, y: int| on_board(cells, x, y) implies next_state(cells, x, y)
            == cells[y][x] by {
            assert(!listed(changes, 0, x, y));
        }
        assert(step(cells) =~~= cells);
    }
}

/// Where the board stands when the first `done` of `changes` are carried out:
/// it has kept its shape, and every cell has its next state already, or still
/// its former state and one of the changes to come.
spec fn partly_applied(before: Cells, now: Cells, changes: Seq<Change>, done: int) -> bool {
    &&& now.len() == before.len()
    &&& forall|y: int| 0 <= y < before.len() ==> (#[trigger] now[y]).len() == before[y].len()
    &&& forall|x: int, y: int|
        #![trigger next_state(before, x, y)]
        on_board(before, x, y) ==> now[y][x] == next_state(before, x, y) || (now[y][x]
            == before[y][x] && listed(changes, done, x, y))
}

/// Carries out `changes`, which hold the cells of the board that differ in
/// the next generation, each with its new state: the board becomes its next
/// generation.
fn apply_changes(cells: &mut Vec<Vec<bool>>, changes: &Vec<Change>)
    requires
        changes_sound(cells_of(*old(cells)), changes@),
        changes_cover(cells_of(*old(cells)), changes@, 0, cells_of(*old(cells)).len() as int),
    ensures
        cells_of(*final(cells)) == step(cells_of(*old(cells))),
    no_unwind
{
    let ghost before = cells_of(*cells);
    let mut k: usize = 0;
    while k < changes.len()
        invariant
            k <= changes@.len(),
            before == cells_of(*old(cells)),
            changes_sound(before, changes@),
            partly_applied(before, cells_of(*cells), changes@, k as int),
        decreases changes@.len() - k,
    {
        let (x, y, state) = changes[k];
        set_cell(cells, x, y, state);
        proof {
            let then = cells_of(*cells);
            assert forall|cx: int, cy: int|
                #![trigger next_state(before, cx, cy)]
                on_board(before, cx, cy) && then[cy][cx] != next_state(
                    before,
                    cx,
                    cy,
                ) implies listed(changes@, k + 1, cx, cy) by {
                // The cell is not the one just set, so its change is a later one.
                let j = choose|j: int|
                    k <= j < changes@.len() && (#[trigger] changes@[j]).0 == cx && changes@[j].1
                        == cy;
                assert(j != k);
            }
        }
        k = k + 1;
    }
    assert(cells_of(*cells) =~~= step(before));
}

impl Grid {
    #[verifier::type_invariant]
    spec fn well_formed(self) -> bool {
        &&& self.width > 0
        &&& self.height > 0
        &&& rectangular(cells_of(self.cells), self.width as nat, self.height as nat)
    }

    /// Builds the grid of the given size on which exactly the cells at the
    /// points of `seeds` are alive. No generation has passed yet and the game
    /// can go on.
    ///
    /// A grid needs at least one column and one row, and every seed point has
    /// to lie on it. Otherwise no grid is built, and the error names the first
    /// fault found: the width, then the height, then the first seed point off
    /// the board.
    pub fn new(width: usize, height: usize, seeds: Vec<Seed>) -> (made: Result<Grid, GridError>)
        ensures
            made is Ok <==> width > 0 && height > 0 && all_inside(
                all_points(seeds@),
                width,
                height,
            ),
            made matches Ok(grid) ==> grid@ == (GridView {
                cells: seeded(width as nat, height as nat, all_points(seeds@)),
                steps: 0,
                life: true,
            }),
            made matches Err(error) ==> {
                if width == 0 {
                    error == GridError::ZeroWidth
                } else if height == 0 {
                    error == GridError::ZeroHeight
                } else {
                    exists|k: int| #[trigger]
                        first_outside_at(all_points(seeds@), k, width, height) && error
                            == outside_error(all_points(seeds@)[k], width)
                }
            },
    {
        if width == 0 {
            return Err(GridError::ZeroWidth);
        }
        if height == 0 {
            return Err(GridError::ZeroHeight);
        }
        let mut cells = blank_cells(width, height);
        let ghost all = all_points(seeds@);
        let ghost mut done: int = 0;
        proof {
            assert(all.take(0) =~= Seq::<Point>::empty());
        }
        for i in 0..seeds.len()
            invariant
                width > 0,
                height > 0,
                all == all_points(seeds@),
                0 <= done <= all.len(),
                all.take(done) == all_points(seeds@.take(i as int)),
                cells_of(cells) == seeded(width as nat, height as nat, all.take(done)),
                forall|k: int| 0 <= k < done ==> inside(#[trigger] all[k], width, height),
        {
            let points = seeds[i].points();
            let ghost base = done;
            proof {
                lemma_all_points_prefix(seeds@, i as int);
                lemma_all_points_prefix(seeds@, i + 1);
                assert(forall|m: int|
                    0 <= m < points@.len() ==> all_points(seeds@.take(i + 1))[base + m]
                        == points@[m]);
            }
            for j in 0..points.len()
                invariant
                    width > 0,
                    height > 0,
                    all == all_points(seeds@),
                    done == base + j,
                    0 <= base,
                    base + points@.len() <= all.len(),
                    forall|m: int| 0 <= m < points@.len() ==> all[base + m] == points@[m],
                    cells_of(cells) == seeded(width as nat, height as nat, all.take(done)),
                    forall|k: int| 0 <= k < done ==> inside(#[trigger] all[k], width, height),
            {
                let p = points[j];
                if p.x > width - 1 {
                    assert(first_outside_at(all, done, width, height));
                    return Err(GridError::SeedOutsideWidth { x: p.x });
                }
                if p.y > height - 1 {
                    assert(first_outside_at(all, done, width, height));
                    return Err(GridError::SeedOutsideHeight { y: p.y });
                }
                set_cell(&mut cells, p.x, p.y, true);
                proof {
                    lemma_seeded_push(width as nat, height as nat, all.take(done), p);
                    assert(all.take(done + 1) =~= all.take(done).push(p));
                    done = done + 1;
                }
            }
        }
        proof {
            assert(seeds@.take(seeds@.len() as int) =~= seeds@);
        }
        Ok(Grid { width, height, steps: 0, life: true, cells })
    }

    /// Finds the cells whose state differs in the next generation, each with
    /// its new state, reading the board row by row.
    fn pending_changes(&self) -> (changes: Vec<Change>)
        ensures
            changes_sound(self@.cells, changes@),
            changes_cover(self@.cells, changes@, 0, self@.cells.len() as int),
    {
        proof {
            use_type_invariant(self);
        }
        let ghost cells = self@.cells;
        let mut changes: Vec<Change> = Vec::new();
        for y in 0..self.height
            invariant
                cells == self@.cells,
                rectangular(cells, self.width as nat, self.height as nat),
                changes_sound(cells, changes@),
                changes_cover(cells, changes@, 0, y as int),
        {
            for x in 0..self.width
                invariant
                    y < self.height,
                    cells == self@.cells,
                    rectangular(cells, self.width as nat, self.height as nat),
                    changes_sound(cells, changes@),
                    changes_cover(cells, changes@, x as int, y as int),
            {
                assert(cells[y as int].len() == self.width);
                let is_alive = self.cells[y][x];
                let count = self.count_neighbours(x, y);
                let ghost found = changes@;
                if is_alive && !(count == 2 || count == 3) {
                    changes.push((x, y, false));
                } else if !is_alive && count == 3 {
                    changes.push((x, y, true));
                }
                proof {
                    assert forall|cx: int, cy: int|
                        #![trigger next_state(cells, cx, cy)]
                        on_board(cells, cx, cy) && read_before(cx, cy, x + 1, y as int)
                            && next_state(cells, cx, cy) != cells[cy][cx] implies listed(
                        changes@,
                        0,
                        cx,
                        cy,
                    ) by {
                        if cx == x && cy == y {
                            assert(changes@[found.len() as int].0 == x);
                        } else {
                            let j = choose|j: int|
                                0 <= j < found.len() && (#[trigger] found[j]).0 == cx
                                    && found[j].1 == cy;
                            assert(changes@[j] == found[j]);
                        }
                    }
                }
            }
            assert(changes_cover(cells, changes@, 0, y + 1)) by {
                assert(forall|cx: int, cy: int|
                    on_board(cells, cx, cy) ==> (read_before(cx, cy, 0, y + 1) <==> read_before(
                        cx,
                        cy,
                        self.width as int,
                        y as int,
                    )));
            }
        }
        changes
    }

    /// A tick is one generation of the game: every cell takes the state that
    /// the rule gives it, all of them judged by the board as it was before the
    /// tick. Afterwards the game can go on if and only if some cell changed.
    pub fn tick(&mut self)
        requires
            old(self)@.steps < u128::MAX,
        ensures
            final(self)@.cells == step(old(self)@.cells),
            final(self)@.steps == old(self)@.steps + 1,
            final(self)@.life == (step(old(self)@.cells) != old(self)@.cells),
    {
        proof {
            use_type_invariant(&*self);
        }
        let changes = self.pending_changes();
        proof {
            lemma_changes_tell_of_change(self@.cells, changes@);
        }
        self.life = changes.len() > 0;
        apply_changes(&mut self.cells, &changes);
        self.steps = self.steps + 1;
    }

    /// The number of generations that have passed.
    pub fn steps(&self) -> (steps: u128)
        ensures
            steps == self@.steps,
    {
        self.steps
    }

    /// Returns true when there's evidence of life. When cells stop changing
    /// life can't evolve.
    pub fn can_continue(&self) -> (life: bool)
        ensures
            life == self@.life,
    {
        self.life
    }

    /// Whether any cell is alive.
    pub fn any_alive(&self) -> (found: bool)
        ensures
            found == populated(self@.cells),
    {
        proof {
            use_type_invariant(self);
        }
        for y in 0..self.height
            invariant
                rectangular(self@.cells, self.width as nat, self.height as nat),
                forall|cx: int, cy: int| 0 <= cy < y ==> !alive(self@.cells, cx, cy),
        {
            for x in 0..self.width
                invariant
                    y < self.height,
                    rectangular(self@.cells, self.width as nat, self.height as nat),
                    forall|cx: int, cy: int| 0 <= cy < y ==> !alive(self@.cells, cx, cy),
                    forall|cx: int| 0 <= cx < x ==> !alive(self@.cells, cx, y as int),
            {
                assert(self@.cells[y as int].len() == self.width);
                if self.cells[y][x] {
                    assert(alive(self@.cells, x as int, y as int));
                    return true;
                }
            }
        }
        false
    }

    /// The cells, row by row. There is at least one row, and all rows have the
    /// same length, which is at least one.
    pub fn cells(&self) -> (rows: &Vec<Vec<bool>>)
        ensures
            cells_of(*rows) == self@.cells,
            rows@.len() > 0,
            rows@[0]@.len() > 0,
            rectangular(self@.cells, rows@[0]@.len(), rows@.len()),
    {
        proof {
            use_type_invariant(self);
            assert(cells_of(self.cells)[0].len() == self.width);
        }
        &self.cells
    }

    /// What one position adds to a count of live cells. A coordinate that is
    /// `None` lies beyond the range of positions, where there is no cell.
    fn live_at(&self, x: Option<usize>, y: Option<usize>) -> (n: u8)
        ensures
            n == match (x, y) {
                (Some(x), Some(y)) => live(self@.cells, x as int, y as int),
                _ => 0,
            },
    {
        proof {
            use_type_invariant(self);
        }
        match (x, y) {
            (Some(x), Some(y)) => {
                if x < self.width && y < self.height {
                    assert(cells_of(self.cells)[y as int].len() == self.width);
                    if self.cells[y][x] {
                        1
                    } else {
                        0
                    }
                } else {
                    0
                }
            },
            _ => 0,
        }
    }

    /// Counts the living cells in the Moore neighbourhood of `(x, y)`: the
    /// eight positions around it, as far as they lie on the board. The board
    /// does not wrap around, and the cell at `(x, y)` itself is not counted.
    pub fn count_neighbours(&self, x: usize, y: usize) -> (count: u8)
        ensures
            count == neighbours(self@.cells, x as int, y as int),
            count <= 8,
    {
        proof {
            use_type_invariant(self);
        }
        let left = x.checked_sub(1);
        let right = x.checked_add(1);
        let above = y.checked_sub(1);
        let below = y.checked_add(1);
        let here_x = Some(x);
        let here_y = Some(y);
        self.live_at(left, above) + self.live_at(here_x, above) + self.live_at(right, above)
            + self.live_at(left, here_y) + self.live_at(right, here_y)
            + self.live_at(left, below) + self.live_at(here_x, below) + self.live_at(right, below)
    }
}

} // verus!

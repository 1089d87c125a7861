//! The Game of Life on a grid of characters: live and dead cells, and the
//! count of a cell's live neighbours that the rule of the game goes by.

use vstd::prelude::*;
use crate::grid::{has_relative, Grid, GridCell, SimpleGrid, SizedGrid};

verus! {

/// The item of a dead cell.
pub const DEAD_CELL: char = ' ';

/// The item of a live cell.
pub const LIVE_CELL: char = '*';

/// A grid of the Game of Life.
pub trait LifeGrid: Sized {
    /// What holds of every life grid that `init_life` hands out.
    spec fn life_wf(&self) -> bool;

    /// Whether the grid has a cell at `(x, y)`.
    spec fn in_grid(&self, x: usize, y: usize) -> bool;

    /// Whether the cell at `(x, y)` is live.
    spec fn live_at(&self, x: usize, y: usize) -> bool;

    /// Whether the cell at `(x, y)` is dead.
    spec fn dead_at(&self, x: usize, y: usize) -> bool;

    /// Initialises a grid with 'dead' cells.
    fn init_life(width: usize, height: usize) -> (r: Self)
        ensures
            r.life_wf(),
            forall|x: usize, y: usize| #[trigger] r.in_grid(x, y) <==> x < width && y < height,
            forall|x: usize, y: usize| x < width && y < height ==> #[trigger] r.dead_at(x, y),
            forall|x: usize, y: usize| x < width && y < height ==> !#[trigger] r.live_at(x, y),
    ;

    /// Sets a cell to 'live'. Every other cell stays as it is.
    fn set_live(&mut self, x: usize, y: usize)
        requires
            old(self).life_wf(),
            old(self).in_grid(x, y),
        ensures
            final(self).life_wf(),
            final(self).live_at(x, y),
            !final(self).dead_at(x, y),
            forall|a: usize, b: usize| #[trigger] final(self).in_grid(a, b) == old(self).in_grid(a, b),
            forall|a: usize, b: usize|
                old(self).in_grid(a, b) && (a != x || b != y) ==> #[trigger] final(self).live_at(a, b)
                    == old(self).live_at(a, b),
            forall|a: usize, b: usize|
                old(self).in_grid(a, b) && (a != x || b != y) ==> #[trigger] final(self).dead_at(a, b)
                    == old(self).dead_at(a, b),
    ;

    /// Sets a cell to 'dead'. Every other cell stays as it is.
    fn set_dead(&mut self, x: usize, y: usize)
        requires
            old(self).life_wf(),
            old(self).in_grid(x, y),
        ensures
            final(self).life_wf(),
            final(self).dead_at(x, y),
            !final(self).live_at(x, y),
            forall|a: usize, b: usize| #[trigger] final(self).in_grid(a, b) == old(self).in_grid(a, b),
            forall|a: usize, b: usize|
                old(self).in_grid(a, b) && (a != x || b != y) ==> #[trigger] final(self).live_at(a, b)
                    == old(self).live_at(a, b),
            forall|a: usize, b: usize|
                old(self).in_grid(a, b) && (a != x || b != y) ==> #[trigger] final(self).dead_at(a, b)
                    == old(self).dead_at(a, b),
    ;
}

impl LifeGrid for SimpleGrid<char> {
    open spec fn life_wf(&self) -> bool {
        self.wf()
    }

    open spec fn in_grid(&self, x: usize, y: usize) -> bool {
        self.has_cell(x, y)
    }

    open spec fn live_at(&self, x: usize, y: usize) -> bool {
        self.item_at(x, y) == LIVE_CELL
    }

    open spec fn dead_at(&self, x: usize, y: usize) -> bool {
        self.item_at(x, y) == DEAD_CELL
    }

    fn init_life(width: usize, height: usize) -> (r: Self)
        ensures
            r.width() == width,
            r.height() == height,
            forall|x: usize, y: usize| x < width && y < height ==> #[trigger] r.item_at(x, y) == DEAD_CELL,
    {
        let r = SimpleGrid::init(width, height, DEAD_CELL);
        proof {
            r.lemma_cells();
        }
        r
    }

    fn set_live(&mut self, x: usize, y: usize)
        ensures
            final(self).width() == old(self).width(),
            final(self).height() == old(self).height(),
            final(self).item_at(x, y) == LIVE_CELL,
            forall|a: usize, b: usize| final(self).has_cell(a, b) == old(self).has_cell(a, b),
            forall|a: usize, b: usize|
                old(self).has_cell(a, b) && (a != x || b != y) ==> #[trigger] final(self).item_at(a, b)
                    == old(self).item_at(a, b),
    {
        self.set(x, y, LIVE_CELL);
    }

    fn set_dead(&mut self, x: usize, y: usize)
        ensures
            final(self).width() == old(self).width(),
            final(self).height() == old(self).height(),
            final(self).item_at(x, y) == DEAD_CELL,
            forall|a: usize, b: usize| final(self).has_cell(a, b) == old(self).has_cell(a, b),
            forall|a: usize, b: usize|
                old(self).has_cell(a, b) && (a != x || b != y) ==> #[trigger] final(self).item_at(a, b)
                    == old(self).item_at(a, b),
    {
        self.set(x, y, DEAD_CELL);
    }
}

/// 1 where `grid` has a live cell `(dx, dy)` away from `(x, y)`, 0 where
/// the cell there is not live or the place is outside the grid.
pub open spec fn live_neighbour(grid: &SimpleGrid<char>, x: usize, y: usize, dx: int, dy: int) -> int {
    if has_relative(grid.width(), grid.height(), x, y, dx, dy) && grid.item_at(
        (x + dx) as usize,
        (y + dy) as usize,
    ) == LIVE_CELL {
        1
    } else {
        0
    }
}

/// How many of the eight cells around `(x, y)` are live.
pub open spec fn live_neighbours(grid: &SimpleGrid<char>, x: usize, y: usize) -> int {
    live_neighbour(grid, x, y, -1, -1) + live_neighbour(grid, x, y, 0, -1) + live_neighbour(
        grid,
        x,
        y,
        1,
        -1,
    ) + live_neighbour(grid, x, y, -1, 0) + live_neighbour(grid, x, y, 1, 0) + live_neighbour(
        grid,
        x,
        y,
        -1,
        1,
    ) + live_neighbour(grid, x, y, 0, 1) + live_neighbour(grid, x, y, 1, 1)
}

/// A cell of the Game of Life.
pub trait LifeCell: Sized {
    /// What holds of every cell that a grid hands out.
    spec fn cell_wf(&self) -> bool;

    spec fn live(&self) -> bool;

    spec fn dead(&self) -> bool;

    /// The number of live cells among the eight around this one.
    spec fn neighbours(&self) -> int;

    /// Indicates if this cell is 'live'.
    fn is_live(&self) -> (r: bool)
        ensures
            r == self.live(),
    ;

    /// Indicates if this cell is 'dead'.
    fn is_dead(&self) -> (r: bool)
        ensures
            r == self.dead(),
    ;

    /// Indicates how many of the cell's neighbours are 'live'.
    fn count_neighbours(&self) -> (r: i32)
        requires
            self.cell_wf(),
        ensures
            r == self.neighbours(),
            0 <= r <= 8,
    ;
}

impl<'a> GridCell<'a, SimpleGrid<char>> {
    /// Gives 1 where the cell `(dx, dy)` away is live, 0 where it is not
    /// or where the grid ends before it.
    pub fn neighbour(&self, dx: isize, dy: isize) -> (r: i32)
        requires
            self.wf(),
        ensures
            r == live_neighbour(self.grid(), self.x(), self.y(), dx as int, dy as int),
    {
        match self.get_relative(dx, dy) {
            Some(item) => if *item == LIVE_CELL {
                1
            } else {
                0
            },
            None => 0,
        }
    }
}

impl<'a> LifeCell for GridCell<'a, SimpleGrid<char>> {
    open spec fn cell_wf(&self) -> bool {
        self.wf()
    }

    open spec fn live(&self) -> bool {
        self.item() == LIVE_CELL
    }

    open spec fn dead(&self) -> bool {
        self.item() == DEAD_CELL
    }

    open spec fn neighbours(&self) -> int {
        live_neighbours(self.grid(), self.x(), self.y())
    }

    fn is_live(&self) -> (r: bool) {
        *self.get() == LIVE_CELL
    }

    fn is_dead(&self) -> (r: bool) {
        *self.get() == DEAD_CELL
    }

    fn count_neighbours(&self) -> (r: i32) {
        self.neighbour(-1, -1) + self.neighbour(0, -1) + self.neighbour(1, -1) + self.neighbour(-1, 0)
            + self.neighbour(1, 0) + self.neighbour(-1, 1) + self.neighbour(0, 1) + self.neighbour(
            1,
            1,
        )
    }
}

/// The rule of the game: a live cell lives on with two or three live
/// neighbours, a dead cell comes to life with exactly three.
pub open spec fn lives_on(live: bool, neighbours: int) -> bool {
    if live {
        neighbours == 2 || neighbours == 3
    } else {
        neighbours == 3
    }
}

/// Tells whether a cell is live in the next generation.
pub fn next_state(live: bool, neighbours: i32) -> (r: bool)
    ensures
        r == lives_on(live, neighbours as int),
{
    if live {
        neighbours == 2 || neighbours == 3
    } else {
        neighbours == 3
    }
}

/// Gives, for every cell of `grid`, the number of its live neighbours.
pub fn neighbour_counts(grid: &SimpleGrid<char>) -> (r: SimpleGrid<i32>)
    requires
        grid.wf(),
    ensures
        r.wf(),
        r.width() == grid.width(),
        r.height() == grid.height(),
        forall|x: usize, y: usize|
            x < grid.width() && y < grid.height() ==> #[trigger] r.item_at(x, y) == live_neighbours(
                grid,
                x,
                y,
            ),
{
    let width: usize = grid.get_width();
    let height: usize = grid.get_height();
    let mut counts: SimpleGrid<i32> = SimpleGrid::init(width, height, 0);
    proof {
        grid.lemma_cells();
        counts.lemma_cells();
    }
    let mut y: usize = 0;
    while y < height
        invariant
            y <= height,
            grid.wf(),
            counts.wf(),
            width == grid.width(),
            height == grid.height(),
            counts.width() == width,
            counts.height() == height,
            forall|a: usize, b: usize|
                a < width && b < y ==> #[trigger] counts.item_at(a, b) == live_neighbours(grid, a, b),
        decreases height - y,
    {
        let mut x: usize = 0;
        while x < width
            invariant
                x <= width,
                y < height,
                grid.wf(),
                counts.wf(),
                width == grid.width(),
                height == grid.height(),
                counts.width() == width,
                counts.height() == height,
                forall|a: usize, b: usize|
                    a < width && b < y ==> #[trigger] counts.item_at(a, b) == live_neighbours(
                        grid,
                        a,
                        b,
                    ),
                forall|a: usize| a < x ==> #[trigger] counts.item_at(a, y) == live_neighbours(grid, a, y),
            decreases width - x,
        {
            proof {
                grid.lemma_cells();
                counts.lemma_cells();
            }
            let cell = grid.get_cell(x, y);
            let count: i32 = cell.count_neighbours();
            counts.set(x, y, count);
            x += 1;
        }
        y += 1;
    }
    counts
}

/// Gives the next generation of `grid`: every cell is live or dead as the
/// rule of the game says of what it is now and of its live neighbours.
pub fn step(grid: &SimpleGrid<char>) -> (r: SimpleGrid<char>)
    requires
        grid.wf(),
    ensures
        r.wf(),
        r.width() == grid.width(),
        r.height() == grid.height(),
        forall|x: usize, y: usize|
            x < grid.width() && y < grid.height() ==> #[trigger] r.item_at(x, y) == (if lives_on(
                grid.item_at(x, y) == LIVE_CELL,
                live_neighbours(grid, x, y),
            ) {
                LIVE_CELL
            } else {
                DEAD_CELL
            }),
{
    let width: usize = grid.get_width();
    let height: usize = grid.get_height();
    let counts = neighbour_counts(grid);
    let mut next: SimpleGrid<char> = SimpleGrid::init_life(width, height);
    proof {
        grid.lemma_cells();
        counts.lemma_cells();
        next.lemma_cells();
        assert forall|a: usize, b: usize| a < width && b < height implies #[trigger] next.item_at(a, b)
            == DEAD_CELL by {
            assert(next.dead_at(a, b));
        }
    }
    let mut y: usize = 0;
    while y < height
        invariant
            y <= height,
            grid.wf(),
            counts.wf(),
            next.wf(),
            width == grid.width(),
            height == grid.height(),
            counts.width() == width,
            counts.height() == height,
            next.width() == width,
            next.height() == height,
            forall|a: usize, b: usize|
                a < width && b < height ==> #[trigger] counts.item_at(a, b) == live_neighbours(
                    grid,
                    a,
                    b,
                ),
            forall|a: usize, b: usize|
                a < width && y <= b < height ==> #[trigger] next.item_at(a, b) == DEAD_CELL,
            forall|a: usize, b: usize|
                a < width && b < y ==> #[trigger] next.item_at(a, b) == (if lives_on(
                    grid.item_at(a, b) == LIVE_CELL,
                    live_neighbours(grid, a, b),
                ) {
                    LIVE_CELL
                } else {
                    DEAD_CELL
                }),
        decreases height - y,
    {
        let mut x: usize = 0;
        while x < width
            invariant
                x <= width,
                y < height,
                grid.wf(),
                counts.wf(),
                next.wf(),
                width == grid.width(),
                height == grid.height(),
                counts.width() == width,
                counts.height() == height,
                next.width() == width,
                next.height() == height,
                forall|a: usize, b: usize|
                    a < width && b < height ==> #[trigger] counts.item_at(a, b) == live_neighbours(
                        grid,
                        a,
                        b,
                    ),
                forall|a: usize, b: usize|
                    a < width && y < b < height ==> #[trigger] next.item_at(a, b) == DEAD_CELL,
                forall|a: usize| x <= a < width ==> #[trigger] next.item_at(a, y) == DEAD_CELL,
                forall|a: usize, b: usize|
                    a < width && b < y ==> #[trigger] next.item_at(a, b) == (if lives_on(
                        grid.item_at(a, b) == LIVE_CELL,
                        live_neighbours(grid, a, b),
                    ) {
                        LIVE_CELL
                    } else {
                        DEAD_CELL
                    }),
                forall|a: usize|
                    a < x ==> #[trigger] next.item_at(a, y) == (if lives_on(
                        grid.item_at(a, y) == LIVE_CELL,
                        live_neighbours(grid, a, y),
                    ) {
                        LIVE_CELL
                    } else {
                        DEAD_CELL
                    }),
            decreases width - x,
        {
            proof {
                grid.lemma_cells();
                counts.lemma_cells();
                next.lemma_cells();
            }
            let live: bool = *grid.get(x, y) == LIVE_CELL;
            let count: i32 = *counts.get(x, y);
            if next_state(live, count) {
                next.set(x, y, LIVE_CELL);
            }
            x += 1;
        }
        y += 1;
    }
    next
}

} // verus!

//! Grids of items addressed by `(x, y)`: a dense one of a fixed size and a
//! sparse one without bounds, with cells that know their place and
//! iterators over them.

use vstd::prelude::*;
use vstd::string::to_string_from_display_ensures;
use vstd::string::StringExecFns;
use std::collections::HashMap;
use std::fmt::Display;

verus! {

broadcast use vstd::std_specs::hash::group_hash_axioms;

/// Provides `Grid` getter/setter functionality.
///
/// Grid types should implement this trait.
pub trait Grid: Sized {
    type Item;

    /// What holds of every grid that its constructors and methods hand out.
    spec fn wf(&self) -> bool;

    /// Whether the grid has a cell at `(x, y)`.
    spec fn has_cell(&self, x: usize, y: usize) -> bool;

    /// The item in the cell at `(x, y)`.
    spec fn item_at(&self, x: usize, y: usize) -> Self::Item;

    /// Whether an item has been put in the cell at `(x, y)`, by the grid's
    /// constructor or by a caller.
    spec fn is_set(&self, x: usize, y: usize) -> bool;

    /// Retrieves an item at given co-ordinates from the grid.
    fn get<'a>(&'a self, x: usize, y: usize) -> (r: &'a Self::Item)
        requires
            self.wf(),
            self.has_cell(x, y),
        ensures
            *r == self.item_at(x, y),
    ;

    /// Retrieves a mutable item at given co-ordinates from the grid. What
    /// the caller leaves in it is the cell's new item. The grid keeps its
    /// cells, and every other cell keeps its item.
    fn get_mut<'a>(&'a mut self, x: usize, y: usize) -> (r: &'a mut Self::Item)
        requires
            old(self).wf(),
            old(self).has_cell(x, y),
        ensures
            old(self).is_set(x, y) ==> *r == old(self).item_at(x, y),
            final(self).wf(),
            final(self).item_at(x, y) == *final(r),
            final(self).is_set(x, y),
            forall|a: usize, b: usize|
                final(self).has_cell(a, b) == old(self).has_cell(a, b),
            forall|a: usize, b: usize|
                old(self).has_cell(a, b) && (a != x || b != y) ==> #[trigger] final(self).item_at(a, b)
                    == old(self).item_at(a, b),
            forall|a: usize, b: usize|
                (a != x || b != y) ==> #[trigger] final(self).is_set(a, b) == old(self).is_set(a, b),
    ;

    /// Sets the value at the given co-ordinates in the grid. The grid keeps
    /// its cells, and every other cell keeps its item.
    fn set(&mut self, x: usize, y: usize, value: Self::Item)
        requires
            old(self).wf(),
            old(self).has_cell(x, y),
        ensures
            final(self).wf(),
            final(self).item_at(x, y) == value,
            final(self).is_set(x, y),
            forall|a: usize, b: usize|
                (a != x || b != y) ==> #[trigger] final(self).is_set(a, b) == old(self).is_set(a, b),
            forall|a: usize, b: usize|
                final(self).has_cell(a, b) == old(self).has_cell(a, b),
            forall|a: usize, b: usize|
                old(self).has_cell(a, b) && (a != x || b != y) ==> #[trigger] final(self).item_at(a, b)
                    == old(self).item_at(a, b),
    ;
}

/// Provides bounds information for a `Grid` where the bounds are known.
///
/// Grid types where the size is explicitly set at initialisation should
/// implement this trait.
pub trait SizedGrid: Grid {
    spec fn width(&self) -> usize;

    spec fn height(&self) -> usize;

    /// The cells of a sized grid are those inside its bounds.
    proof fn lemma_cells(&self)
        requires
            self.wf(),
        ensures
            forall|x: usize, y: usize|
                #[trigger] self.has_cell(x, y) <==> x < self.width() && y < self.height(),
    ;

    /// Width of the Grid.
    fn get_width(&self) -> (r: usize)
        requires
            self.wf(),
        ensures
            r == self.width(),
    ;

    /// Height of the grid.
    fn get_height(&self) -> (r: usize)
        requires
            self.wf(),
        ensures
            r == self.height(),
    ;
}

/// A simple `Grid` implementation.
///
/// The contents of the Grid are stored in a `Vec` of rows. Therefore,
/// space is allocated, on initialisation, for every item in the grid.
pub struct SimpleGrid<T> {
    rows: Vec<Vec<T>>,
    width: usize,
    height: usize,
}

impl<T> SimpleGrid<T> {
    /// The number of items in a row: the grid's width.
    pub closed spec fn columns(&self) -> usize {
        self.width
    }

    /// The number of rows: the grid's height.
    pub closed spec fn row_count(&self) -> usize {
        self.height
    }

    spec fn rows_wf(&self) -> bool {
        &&& self.rows@.len() == self.height
        &&& forall|y: int| 0 <= y < self.rows@.len() ==> (#[trigger] self.rows@[y])@.len() == self.width
    }

    /// Initialises a fixed-size `Grid`.
    ///
    /// Every item in the grid is the result of a call of the supplied
    /// function.
    pub fn init_from<F: Fn() -> T>(width: usize, height: usize, f: F) -> (r: Self)
        requires
            f.requires(()),
        ensures
            r.wf(),
            r.width() == width,
            r.height() == height,
            forall|x: usize, y: usize|
                x < width && y < height ==> f.ensures((), #[trigger] r.item_at(x, y)),
    {
        let mut rows: Vec<Vec<T>> = Vec::with_capacity(height);
        let mut y: usize = 0;
        while y < height
            invariant
                y <= height,
                f.requires(()),
                rows@.len() == y,
                forall|j: int| 0 <= j < y ==> (#[trigger] rows@[j])@.len() == width,
                forall|j: int, i: int|
                    0 <= j < y && 0 <= i < width ==> f.ensures((), #[trigger] rows@[j]@[i]),
            decreases height - y,
        {
            let mut column: Vec<T> = Vec::with_capacity(width);
            let mut x: usize = 0;
            while x < width
                invariant
                    x <= width,
                    f.requires(()),
                    column@.len() == x,
                    forall|i: int| 0 <= i < x ==> f.ensures((), #[trigger] column@[i]),
                decreases width - x,
            {
                column.push(f());
                x += 1;
            }
            rows.push(column);
            y += 1;
        }
        Self { rows, width, height }
    }

    /// Gives an iterator over the cells of the `Grid`, row by row.
    pub fn iter(&self) -> (r: SimpleGridIterator<'_, T>)
        requires
            self.wf(),
        ensures
            r.wf(),
            r.grid() == self,
            r.position() == (0usize, 0usize),
    {
        SimpleGridIterator { grid: self, x: 0, y: 0 }
    }

    /// Gives an iterator over the cells of the `Grid`, row by row.
    pub fn into_iter(&self) -> (r: SimpleGridIterator<'_, T>)
        requires
            self.wf(),
        ensures
            r.wf(),
            r.grid() == self,
            r.position() == (0usize, 0usize),
    {
        self.iter()
    }

    /// Gives a `GridCell` for a cell in the `Grid`.
    pub fn get_cell<'a>(&'a self, x: usize, y: usize) -> (r: GridCell<'a, SimpleGrid<T>>)
        requires
            self.wf(),
            self.has_cell(x, y),
        ensures
            r.wf(),
            r.grid() == self,
            r.x() == x,
            r.y() == y,
    {
        GridCell { grid: self, x, y, item: self.get(x, y) }
    }
}

impl<T: Default> SimpleGrid<T> {
    /// Initialises a fixed-size `Grid`.
    ///
    /// Every item in the grid is a default value of its type.
    pub fn new(width: usize, height: usize) -> (r: Self)
        ensures
            r.wf(),
            r.width() == width,
            r.height() == height,
            forall|x: usize, y: usize|
                x < width && y < height ==> call_ensures(T::default, (), #[trigger] r.item_at(x, y)),
    {
        let mut rows: Vec<Vec<T>> = Vec::with_capacity(height);
        let mut y: usize = 0;
        while y < height
            invariant
                y <= height,
                rows@.len() == y,
                forall|j: int| 0 <= j < y ==> (#[trigger] rows@[j])@.len() == width,
                forall|j: int, i: int|
                    0 <= j < y && 0 <= i < width ==> call_ensures(
                        T::default,
                        (),
                        #[trigger] rows@[j]@[i],
                    ),
            decreases height - y,
        {
            let mut column: Vec<T> = Vec::with_capacity(width);
            let mut x: usize = 0;
            while x < width
                invariant
                    x <= width,
                    column@.len() == x,
                    forall|i: int| 0 <= i < x ==> call_ensures(T::default, (), #[trigger] column@[i]),
                decreases width - x,
            {
                column.push(T::default());
                x += 1;
            }
            rows.push(column);
            y += 1;
        }
        Self { rows, width, height }
    }
}

impl<T: Clone> SimpleGrid<T> {
    /// Initialises a fixed-size `Grid`.
    ///
    /// Every item in the grid is a clone of the given value.
    pub fn init(width: usize, height: usize, value: T) -> (r: Self)
        ensures
            r.wf(),
            r.width() == width,
            r.height() == height,
            forall|x: usize, y: usize|
                x < width && y < height ==> cloned(value, #[trigger] r.item_at(x, y)),
    {
        let mut rows: Vec<Vec<T>> = Vec::with_capacity(height);
        let mut y: usize = 0;
        while y < height
            invariant
                y <= height,
                rows@.len() == y,
                forall|j: int| 0 <= j < y ==> (#[trigger] rows@[j])@.len() == width,
                forall|j: int, i: int|
                    0 <= j < y && 0 <= i < width ==> cloned(value, #[trigger] rows@[j]@[i]),
            decreases height - y,
        {
            let mut column: Vec<T> = Vec::with_capacity(width);
            let mut x: usize = 0;
            while x < width
                invariant
                    x <= width,
                    column@.len() == x,
                    forall|i: int| 0 <= i < x ==> cloned(value, #[trigger] column@[i]),
                decreases width - x,
            {
                column.push(value.clone());
                x += 1;
            }
            rows.push(column);
            y += 1;
        }
        Self { rows, width, height }
    }
}

impl<T: Display> SimpleGrid<T> {
    /// Whether `text` is the first `count` items of row `y`, each as it
    /// shows, one after the other.
    pub open spec fn shows_row(&self, y: usize, count: nat, text: Seq<char>) -> bool
        decreases count,
    {
        if count == 0 {
            text.len() == 0
        } else {
            exists|before: Seq<char>, shown: String|
                #![trigger before + shown@]
                self.shows_row(y, (count - 1) as nat, before) && to_string_from_display_ensures::<T>(
                    &self.item_at((count - 1) as usize, y),
                    shown,
                ) && text == before + shown@
        }
    }

    /// Whether `text` is the first `count` rows, each followed by a line
    /// feed.
    pub open spec fn shows_rows(&self, count: nat, text: Seq<char>) -> bool
        decreases count,
    {
        if count == 0 {
            text.len() == 0
        } else {
            exists|before: Seq<char>, row: Seq<char>|
                #![trigger before + row]
                self.shows_rows((count - 1) as nat, before) && self.shows_row(
                    (count - 1) as usize,
                    self.width() as nat,
                    row,
                ) && text == before + row + seq!['\n']
        }
    }

    proof fn lemma_shows_row_longer(&self, y: usize, count: nat, before: Seq<char>, shown: String)
        requires
            count > 0,
            self.shows_row(y, (count - 1) as nat, before),
            to_string_from_display_ensures::<T>(&self.item_at((count - 1) as usize, y), shown),
        ensures
            self.shows_row(y, count, before + shown@),
    {
    }

    proof fn lemma_shows_rows_longer(&self, count: nat, before: Seq<char>, row: Seq<char>)
        requires
            count > 0,
            self.shows_rows((count - 1) as nat, before),
            self.shows_row((count - 1) as usize, self.width() as nat, row),
        ensures
            self.shows_rows(count, before + row + seq!['\n']),
    {
    }

    /// Writes the contents of the `Grid` at the end of `w`: row by row,
    /// each item as it shows, and a line feed after each row.
    pub fn write(&self, w: &mut String)
        requires
            self.wf(),
        ensures
            exists|text: Seq<char>| #[trigger]
                self.shows_rows(self.height() as nat, text) && final(w)@ == old(w)@ + text,
    {
        let ghost mut written: Seq<char> = Seq::empty();
        let mut y: usize = 0;
        while y < self.height
            invariant
                y <= self.height,
                self.wf(),
                self.shows_rows(y as nat, written),
                w@ == old(w)@ + written,
            decreases self.height - y,
        {
            let ghost mut row: Seq<char> = Seq::empty();
            let ghost before_row = w@;
            let mut x: usize = 0;
            while x < self.width
                invariant
                    x <= self.width,
                    y < self.height,
                    self.wf(),
                    self.shows_row(y, x as nat, row),
                    w@ == before_row + row,
                decreases self.width - x,
            {
                let shown: String = self.get(x, y).to_string();
                w.append(shown.as_str());
                proof {
                    let longer = row + shown@;
                    self.lemma_shows_row_longer(y, (x + 1) as nat, row, shown);
                    assert(w@ =~= before_row + longer);
                    row = longer;
                }
                x += 1;
            }
            w.append("\n");
            proof {
                let longer = written + row + seq!['\n'];
                reveal_strlit("\n");
                assert("\n"@ =~= seq!['\n']);
                self.lemma_shows_rows_longer((y + 1) as nat, written, row);
                assert(w@ =~= old(w)@ + longer);
                written = longer;
            }
            y += 1;
        }
        assert(self.shows_rows(self.height() as nat, written) && w@ == old(w)@ + written);
    }
}

impl<T> Grid for SimpleGrid<T> {
    type Item = T;

    closed spec fn wf(&self) -> bool {
        self.rows_wf()
    }

    open spec fn has_cell(&self, x: usize, y: usize) -> bool {
        x < self.columns() && y < self.row_count()
    }

    closed spec fn item_at(&self, x: usize, y: usize) -> T {
        self.rows@[y as int]@[x as int]
    }

    open spec fn is_set(&self, x: usize, y: usize) -> bool {
        self.has_cell(x, y)
    }

    fn get<'a>(&'a self, x: usize, y: usize) -> (r: &'a T) {
        &self.rows[y][x]
    }

    fn get_mut<'a>(&'a mut self, x: usize, y: usize) -> (r: &'a mut T)
        ensures
            *r == old(self).item_at(x, y),
            final(self).width() == old(self).width(),
            final(self).height() == old(self).height(),
    {
        &mut self.rows[y][x]
    }

    fn set(&mut self, x: usize, y: usize, value: T)
        ensures
            final(self).width() == old(self).width(),
            final(self).height() == old(self).height(),
    {
        self.rows[y][x] = value;
    }
}

impl<T> SizedGrid for SimpleGrid<T> {
    open spec fn width(&self) -> usize {
        self.columns()
    }

    open spec fn height(&self) -> usize {
        self.row_count()
    }

    proof fn lemma_cells(&self) {
    }

    fn get_width(&self) -> (r: usize) {
        self.width
    }

    fn get_height(&self) -> (r: usize) {
        self.height
    }
}

impl<T> std::ops::Index<(usize, usize)> for SimpleGrid<T> {
    type Output = T;

    /// Gives the item at `index`, an `(x, y)` inside the grid.
    fn index(&self, index: (usize, usize)) -> (r: &T)
        ensures
            *r == self.item_at(index.0, index.1),
    {
        self.get(index.0, index.1)
    }
}

impl<T> vstd::std_specs::core::IndexSpecImpl<(usize, usize)> for SimpleGrid<T> {
    open spec fn index_req(&self, index: &(usize, usize)) -> bool {
        self.wf() && self.has_cell(index.0, index.1)
    }
}

impl<T> std::ops::IndexMut<(usize, usize)> for SimpleGrid<T> {
    /// Gives the item at `index`, an `(x, y)` inside the grid, to be
    /// changed.
    fn index_mut(&mut self, index: (usize, usize)) -> (r: &mut T)
        requires
            old(self).wf(),
            old(self).has_cell(index.0, index.1),
        ensures
            *r == old(self).item_at(index.0, index.1),
            final(self).wf(),
            final(self).width() == old(self).width(),
            final(self).height() == old(self).height(),
            final(self).item_at(index.0, index.1) == *final(r),
            forall|a: usize, b: usize|
                old(self).has_cell(a, b) && (a != index.0 || b != index.1) ==> #[trigger] final(self).item_at(a, b) == old(self).item_at(a, b),
    {
        self.get_mut(index.0, index.1)
    }
}

/// Represents a single item in a `Grid`.
///
/// Generally used with an iterator.
#[derive(Debug)]
pub struct GridCell<'a, T: Grid> {
    item: &'a T::Item,
    x: usize,
    y: usize,
    grid: &'a T,
}

impl<'a, T: Grid> GridCell<'a, T> {
    pub closed spec fn grid(&self) -> &'a T {
        self.grid
    }

    pub closed spec fn x(&self) -> usize {
        self.x
    }

    pub closed spec fn y(&self) -> usize {
        self.y
    }

    pub closed spec fn item(&self) -> T::Item {
        *self.item
    }

    /// The cell lies in its grid and holds the item that the grid has
    /// there.
    pub closed spec fn wf(&self) -> bool {
        &&& self.grid.wf()
        &&& self.grid.has_cell(self.x, self.y)
        &&& *self.item == self.grid.item_at(self.x, self.y)
    }

    pub proof fn lemma_wf(&self)
        requires
            self.wf(),
        ensures
            self.grid().wf(),
            self.grid().has_cell(self.x(), self.y()),
            self.item() == self.grid().item_at(self.x(), self.y()),
    {
    }

    /// Gives the value of the cell.
    pub fn get(&self) -> (r: &'a T::Item)
        ensures
            *r == self.item(),
    {
        self.item
    }

    /// Gives the x-coordinate of the cell.
    pub fn get_x(&self) -> (r: usize)
        ensures
            r == self.x(),
    {
        self.x
    }

    /// Gives the y-coordinate of the cell.
    pub fn get_y(&self) -> (r: usize)
        ensures
            r == self.y(),
    {
        self.y
    }
}

/// Whether a grid of the given size has a cell `(dx, dy)` away from
/// `(x, y)`.
pub open spec fn has_relative(width: usize, height: usize, x: usize, y: usize, dx: int, dy: int) -> bool {
    0 <= x + dx < width && 0 <= y + dy < height
}

/// Gives the place `(dx, dy)` away from `(x, y)`, where a grid of the given
/// size has a cell there.
pub fn relative_place(width: usize, height: usize, x: usize, y: usize, dx: isize, dy: isize) -> (r: Option<
    (usize, usize),
>)
    ensures
        r is Some <==> has_relative(width, height, x, y, dx as int, dy as int),
        r matches Some(place) ==> place.0 == x + dx && place.1 == y + dy,
{
    let rx: i128 = x as i128 + dx as i128;
    let ry: i128 = y as i128 + dy as i128;
    if rx >= 0 && rx < width as i128 && ry >= 0 && ry < height as i128 {
        Some((rx as usize, ry as usize))
    } else {
        None
    }
}

impl<'a, T: SizedGrid> GridCell<'a, T> {
    /// Gives the value of a cell located relative to this cell.
    ///
    /// If the given relative coordinates are out of bounds, then `None` is
    /// returned.
    pub fn get_relative(&self, dx: isize, dy: isize) -> (r: Option<&'a T::Item>)
        requires
            self.wf(),
        ensures
            r is Some <==> has_relative(
                self.grid().width(),
                self.grid().height(),
                self.x(),
                self.y(),
                dx as int,
                dy as int,
            ),
            r matches Some(item) ==> *item == self.grid().item_at(
                (self.x() + dx) as usize,
                (self.y() + dy) as usize,
            ),
    {
        proof {
            self.grid.lemma_cells();
        }
        match relative_place(self.grid.get_width(), self.grid.get_height(), self.x, self.y, dx, dy) {
            Some((x, y)) => {
                assert(self.grid.has_cell(x, y));
                Some(self.grid.get(x, y))
            },
            None => None,
        }
    }
}

impl<'a, T> GridCell<'a, SimpleGrid<T>> {
    /// Gives a cell located relative to this cell.
    ///
    /// If the given relative coordinates are out of bounds, then `None` is
    /// returned.
    pub fn get_relative_cell(&self, dx: isize, dy: isize) -> (r: Option<GridCell<'a, SimpleGrid<T>>>)
        requires
            self.wf(),
        ensures
            r is Some <==> has_relative(
                self.grid().width(),
                self.grid().height(),
                self.x(),
                self.y(),
                dx as int,
                dy as int,
            ),
            r matches Some(cell) ==> cell.wf() && cell.grid() == self.grid() && cell.x() == self.x()
                + dx && cell.y() == self.y() + dy,
    {
        proof {
            self.grid.lemma_cells();
        }
        match relative_place(self.grid.get_width(), self.grid.get_height(), self.x, self.y, dx, dy) {
            Some((x, y)) => {
                assert(self.grid.has_cell(x, y));
                Some(GridCell { grid: self.grid, x, y, item: self.grid.get(x, y) })
            },
            None => None,
        }
    }
}

/// Where a walk over a grid of the given size, row by row, finds its next
/// cell when it stands at `(x, y)`: in the same row, or at the start of
/// the row below when the row is done. `None` when no cell is left.
pub open spec fn next_place(width: usize, height: usize, x: usize, y: usize) -> Option<(usize, usize)> {
    if x < width && y < height {
        Some((x, y))
    } else if width > 0 && y + 1 < height {
        Some((0usize, (y + 1) as usize))
    } else {
        None
    }
}

/// How many cells a walk over a grid of the given size has still to give
/// when it stands at `(x, y)`.
pub open spec fn cells_left(width: usize, height: usize, x: usize, y: usize) -> int {
    if width == 0 || y >= height {
        0
    } else {
        (height - y) * width - x
    }
}

/// A walk gives every cell of the grid once: it starts with as many cells
/// left as the grid has, each cell that it gives leaves one fewer, and it
/// ends when none is left.
pub proof fn law_walk_gives_each_cell_once(width: usize, height: usize, x: usize, y: usize)
    requires
        x <= width,
        y <= height,
    ensures
        cells_left(width, height, 0, 0) == width * height,
        cells_left(width, height, x, y) >= 0,
        match next_place(width, height, x, y) {
            Some(place) => place.0 < width && place.1 < height && cells_left(
                width,
                height,
                (place.0 + 1) as usize,
                place.1,
            ) == cells_left(width, height, x, y) - 1,
            None => cells_left(width, height, x, y) == 0,
        },
{
    assert(cells_left(width, height, 0, 0) == width * height) by (nonlinear_arith)
        requires
            cells_left(width, height, 0, 0) == (if width == 0 || 0 >= height {
                0
            } else {
                (height - 0) * width - 0
            }),
    ;
    if width > 0 && y < height {
        assert((height - y) * width - x >= 0 && (height - y) * width == (height - (y + 1)) * width
            + width) by (nonlinear_arith)
            requires
                x <= width,
                y < height,
        ;
        if y + 1 == height {
            assert((height - y) * width == width) by (nonlinear_arith)
                requires
                    height - y == 1,
            ;
        }
    }
}

/// Iterator for the contents of a `SimpleGrid`.
///
/// Each call to `next()` gives an instance of `GridCell`.
pub struct SimpleGridIterator<'a, T> {
    grid: &'a SimpleGrid<T>,
    x: usize,
    y: usize,
}

impl<'a, T> SimpleGridIterator<'a, T> {
    pub closed spec fn grid(&self) -> &'a SimpleGrid<T> {
        self.grid
    }

    /// The place at which the walk stands.
    pub closed spec fn position(&self) -> (usize, usize) {
        (self.x, self.y)
    }

    pub closed spec fn wf(&self) -> bool {
        self.grid.wf() && self.x <= self.grid.width() && self.y <= self.grid.height()
    }

    /// Gives the next cell of the walk, row by row, and moves past it;
    /// `None` when no cell is left.
    pub fn next(&mut self) -> (r: Option<GridCell<'a, SimpleGrid<T>>>)
        requires
            old(self).wf(),
        ensures
            final(self).wf(),
            final(self).grid() == old(self).grid(),
            match next_place(
                old(self).grid().width(),
                old(self).grid().height(),
                old(self).position().0,
                old(self).position().1,
            ) {
                Some(place) => r matches Some(cell) && cell.wf() && cell.grid() == old(self).grid()
                    && cell.x() == place.0 && cell.y() == place.1 && final(self).position() == (
                    (place.0 + 1) as usize,
                    place.1,
                ),
                None => r is None && final(self).position() == old(self).position(),
            },
    {
        let width: usize = self.grid.get_width();
        let height: usize = self.grid.get_height();
        if self.x == width && width > 0 && self.y < height && self.y + 1 < height {
            self.x = 0;
            self.y += 1;
        }
        if self.x < width && self.y < height {
            let result = GridCell {
                item: self.grid.get(self.x, self.y),
                x: self.x,
                y: self.y,
                grid: self.grid,
            };
            self.x += 1;
            Some(result)
        } else {
            None
        }
    }
}

/// The number under which a sparse grid files the place `(x, y)`. Two
/// places have two numbers.
pub open spec fn place_key(x: usize, y: usize) -> u128 {
    (x * 0x1_0000_0000_0000_0000 + y) as u128
}

fn key_of(x: usize, y: usize) -> (k: u128)
    ensures
        k == place_key(x, y),
{
    (x as u128) * 0x1_0000_0000_0000_0000u128 + (y as u128)
}

/// A sparse `Grid` implementation.
///
/// This `Grid` does not have bounds.
///
/// Only items in the grid that are explicitly set have storage-space
/// allocated.
pub struct SparseGrid<T: Default> {
    default: T,
    index: HashMap<u128, usize>,
    places: Vec<(usize, usize)>,
    values: Vec<T>,
}

impl<T: Default> SparseGrid<T> {
    /// The places that have been set, in the order in which each was set
    /// first.
    pub closed spec fn places(&self) -> Seq<(usize, usize)> {
        self.places@
    }

    /// The item that a place has while nothing has been set there.
    pub closed spec fn default_item(&self) -> T {
        self.default
    }

    spec fn index_wf(&self) -> bool {
        &&& self.places@.len() == self.values@.len()
        &&& forall|i: int|
            0 <= i < self.places@.len() ==> {
                let p = #[trigger] self.places@[i];
                self.index@.contains_key(place_key(p.0, p.1)) && self.index@[place_key(p.0, p.1)] == i
            }
        &&& forall|k: u128| #[trigger]
            self.index@.contains_key(k) ==> {
                let i = self.index@[k];
                i < self.places@.len() && place_key(self.places@[i as int].0, self.places@[i as int].1)
                    == k
            }
    }

    /// The places that have been set are those of `places()`, each held
    /// once.
    pub proof fn lemma_places(&self)
        requires
            self.wf(),
        ensures
            forall|x: usize, y: usize| #[trigger]
                self.is_set(x, y) <==> self.places().contains((x, y)),
            self.places().no_duplicates(),
    {
        assert forall|x: usize, y: usize| #[trigger]
            self.is_set(x, y) <==> self.places().contains((x, y)) by {
            if self.is_set(x, y) {
                let i = self.index@[place_key(x, y)];
                assert(self.places@[i as int] == (x, y));
            }
            if self.places().contains((x, y)) {
                let i = choose|i: int| 0 <= i < self.places@.len() && self.places@[i] == (x, y);
                assert(self.places@[i] == (x, y));
            }
        }
    }

    /// Allocates a new grid.
    ///
    /// Note that no bounds are given.
    pub fn new() -> (r: Self)
        ensures
            r.wf(),
            r.places() == Seq::<(usize, usize)>::empty(),
            forall|x: usize, y: usize| !#[trigger] r.is_set(x, y),
            call_ensures(T::default, (), r.default_item()),
    {
        Self { default: T::default(), index: HashMap::new(), places: Vec::new(), values: Vec::new() }
    }

    /// Gives an iterator over the contents of the `Grid`.
    ///
    /// Only items that have been explicitly set are provided by the
    /// iterator, in the order in which their places were set first.
    pub fn iter(&self) -> (r: SparseGridIterator<'_, T>)
        requires
            self.wf(),
        ensures
            r.wf(),
            r.grid() == self,
            r.position() == 0,
    {
        SparseGridIterator { grid: self, position: 0 }
    }

    /// Gives an iterator over the contents of the `Grid`, as `iter` does.
    pub fn into_iter(&self) -> (r: SparseGridIterator<'_, T>)
        requires
            self.wf(),
        ensures
            r.wf(),
            r.grid() == self,
            r.position() == 0,
    {
        self.iter()
    }

    /// Gives an iterator over all the cells of the `Grid` that are within
    /// the given bounds, row by row.
    ///
    /// For all cells that have not explicitly had a value set, the iterator
    /// gives the grid's default value.
    pub fn iter_all(&self, width: usize, height: usize) -> (r: BoundedGridIterator<'_, T>)
        requires
            self.wf(),
        ensures
            r.wf(),
            r.grid() == self,
            r.width() == width,
            r.height() == height,
            r.position() == (0usize, 0usize),
    {
        BoundedGridIterator { grid: self, width, height, x: 0, y: 0 }
    }

    /// Indicates whether a value has been explicitly set for the given
    /// coordinates.
    pub fn has_item(&self, x: usize, y: usize) -> (r: bool)
        requires
            self.wf(),
        ensures
            r == self.is_set(x, y),
    {
        let key = key_of(x, y);
        self.index.contains_key(&key)
    }

    /// Gives a value for the given coordinates.
    ///
    /// If no value has been explicitly set for the given coordinates,
    /// `None` is returned.
    pub fn get_option<'a>(&'a self, x: usize, y: usize) -> (r: Option<&'a T>)
        requires
            self.wf(),
        ensures
            r is Some <==> self.is_set(x, y),
            r matches Some(item) ==> *item == self.item_at(x, y),
    {
        let key = key_of(x, y);
        match self.index.get(&key) {
            Some(i) => Some(&self.values[*i]),
            None => None,
        }
    }

    /// Gives a mutable value for the given coordinates. What the caller
    /// leaves in it is the cell's new item; every other cell keeps its
    /// item.
    ///
    /// If no value has been explicitly set for the given coordinates,
    /// `None` is returned.
    pub fn get_mut_option<'a>(&'a mut self, x: usize, y: usize) -> (r: Option<&'a mut T>)
        requires
            old(self).wf(),
        ensures
            r is Some <==> old(self).is_set(x, y),
            final(self).wf(),
            final(self).places() == old(self).places(),
            final(self).default_item() == old(self).default_item(),
            forall|a: usize, b: usize| #[trigger]
                final(self).is_set(a, b) == old(self).is_set(a, b),
            forall|a: usize, b: usize|
                (a != x || b != y) ==> #[trigger] final(self).item_at(a, b) == old(self).item_at(a, b),
            match r {
                Some(item) => *item == old(self).item_at(x, y) && final(self).item_at(x, y)
                    == *final(item),
                None => final(self).item_at(x, y) == old(self).item_at(x, y),
            },
    {
        let key = key_of(x, y);
        let found: Option<usize> = match self.index.get(&key) {
            Some(i) => Some(*i),
            None => None,
        };
        match found {
            Some(i) => {
                proof {
                    lemma_keys_differ();
                }
                Some(&mut self.values[i])
            },
            None => None,
        }
    }
}

/// Two places with one number are one place.
pub proof fn lemma_keys_differ()
    ensures
        forall|x: usize, y: usize, a: usize, b: usize|
            #[trigger] place_key(x, y) == #[trigger] place_key(a, b) ==> x == a && y == b,
{
}

impl<T: Default> Grid for SparseGrid<T> {
    type Item = T;

    closed spec fn wf(&self) -> bool {
        self.index_wf()
    }

    open spec fn has_cell(&self, x: usize, y: usize) -> bool {
        true
    }

    closed spec fn item_at(&self, x: usize, y: usize) -> T {
        if self.index@.contains_key(place_key(x, y)) {
            self.values@[self.index@[place_key(x, y)] as int]
        } else {
            self.default
        }
    }

    closed spec fn is_set(&self, x: usize, y: usize) -> bool {
        self.index@.contains_key(place_key(x, y))
    }

    fn get<'a>(&'a self, x: usize, y: usize) -> (r: &'a T)
        ensures
            !self.is_set(x, y) ==> *r == self.default_item(),
    {
        let key = key_of(x, y);
        match self.index.get(&key) {
            Some(i) => &self.values[*i],
            None => &self.default,
        }
    }

    fn get_mut<'a>(&'a mut self, x: usize, y: usize) -> (r: &'a mut T)
        ensures
            !old(self).is_set(x, y) ==> call_ensures(T::default, (), *r),
            !old(self).is_set(x, y) ==> final(self).places() == old(self).places().push((x, y)),
            old(self).is_set(x, y) ==> final(self).places() == old(self).places(),
            final(self).default_item() == old(self).default_item(),
    {
        let key = key_of(x, y);
        let found: Option<usize> = match self.index.get(&key) {
            Some(i) => Some(*i),
            None => None,
        };
        proof {
            lemma_keys_differ();
        }
        let i: usize = match found {
            Some(i) => i,
            None => {
                let i: usize = self.values.len();
                self.index.insert(key, i);
                self.places.push((x, y));
                self.values.push(T::default());
                i
            },
        };
        &mut self.values[i]
    }

    fn set(&mut self, x: usize, y: usize, value: T)
        ensures
            !old(self).is_set(x, y) ==> final(self).places() == old(self).places().push((x, y)),
            old(self).is_set(x, y) ==> final(self).places() == old(self).places(),
            final(self).default_item() == old(self).default_item(),
    {
        let key = key_of(x, y);
        let found: Option<usize> = match self.index.get(&key) {
            Some(i) => Some(*i),
            None => None,
        };
        proof {
            lemma_keys_differ();
        }
        match found {
            Some(i) => {
                self.values[i] = value;
            },
            None => {
                let i: usize = self.values.len();
                self.index.insert(key, i);
                self.places.push((x, y));
                self.values.push(value);
            },
        }
    }
}

impl<T: Default> std::ops::Index<(usize, usize)> for SparseGrid<T> {
    type Output = T;

    /// Gives the item at `index`, an `(x, y)`: the item that was set
    /// there, or the grid's default value.
    fn index(&self, index: (usize, usize)) -> (r: &T)
        ensures
            *r == self.item_at(index.0, index.1),
    {
        self.get(index.0, index.1)
    }
}

impl<T: Default> vstd::std_specs::core::IndexSpecImpl<(usize, usize)> for SparseGrid<T> {
    open spec fn index_req(&self, index: &(usize, usize)) -> bool {
        self.wf()
    }
}

impl<T: Default> std::ops::IndexMut<(usize, usize)> for SparseGrid<T> {
    /// Gives the item at `index`, an `(x, y)`, to be changed. A place
    /// where nothing was set is set to a default value first.
    fn index_mut(&mut self, index: (usize, usize)) -> (r: &mut T)
        requires
            old(self).wf(),
        ensures
            old(self).is_set(index.0, index.1) ==> *r == old(self).item_at(index.0, index.1),
            !old(self).is_set(index.0, index.1) ==> call_ensures(T::default, (), *r),
            final(self).wf(),
            final(self).item_at(index.0, index.1) == *final(r),
            final(self).is_set(index.0, index.1),
            forall|a: usize, b: usize|
                (a != index.0 || b != index.1) ==> #[trigger] final(self).item_at(a, b) == old(self).item_at(a, b),
            forall|a: usize, b: usize|
                (a != index.0 || b != index.1) ==> #[trigger] final(self).is_set(a, b) == old(self).is_set(a, b),
    {
        self.get_mut(index.0, index.1)
    }
}

/// An iterator over the explicitly set cells of a `SparseGrid`.
///
/// Only cells that have been explicitly set will be provided by the
/// iterator.
pub struct SparseGridIterator<'a, T: Default> {
    grid: &'a SparseGrid<T>,
    position: usize,
}

impl<'a, T: Default> SparseGridIterator<'a, T> {
    pub closed spec fn grid(&self) -> &'a SparseGrid<T> {
        self.grid
    }

    /// How many cells have been given.
    pub closed spec fn position(&self) -> int {
        self.position as int
    }

    pub closed spec fn wf(&self) -> bool {
        self.grid.wf() && self.position <= self.grid.places().len()
    }

    /// Gives the next cell that has been set, in the order of the grid's
    /// `places()`, and moves past it; `None` when none is left.
    pub fn next(&mut self) -> (r: Option<GridCell<'a, SparseGrid<T>>>)
        requires
            old(self).wf(),
        ensures
            final(self).wf(),
            final(self).grid() == old(self).grid(),
            old(self).position() < old(self).grid().places().len() ==> (r matches Some(cell)
                && cell.wf() && cell.grid() == old(self).grid() && (cell.x(), cell.y())
                == old(self).grid().places()[old(self).position()] && final(self).position()
                == old(self).position() + 1),
            old(self).position() >= old(self).grid().places().len() ==> r is None
                && final(self).position() == old(self).position(),
    {
        if self.position < self.grid.places.len() {
            let place: (usize, usize) = self.grid.places[self.position];
            let result = GridCell {
                item: &self.grid.values[self.position],
                x: place.0,
                y: place.1,
                grid: self.grid,
            };
            self.position += 1;
            Some(result)
        } else {
            None
        }
    }
}

/// An iterator over a given range of a `SparseGrid`.
///
/// Any cells of the `Grid` that have not had a value explicitly set, will
/// give the grid's default value.
pub struct BoundedGridIterator<'a, T: Default> {
    grid: &'a SparseGrid<T>,
    width: usize,
    height: usize,
    x: usize,
    y: usize,
}

impl<'a, T: Default> BoundedGridIterator<'a, T> {
    pub closed spec fn grid(&self) -> &'a SparseGrid<T> {
        self.grid
    }

    pub closed spec fn width(&self) -> usize {
        self.width
    }

    pub closed spec fn height(&self) -> usize {
        self.height
    }

    /// The place at which the walk stands.
    pub closed spec fn position(&self) -> (usize, usize) {
        (self.x, self.y)
    }

    pub closed spec fn wf(&self) -> bool {
        self.grid.wf() && self.x <= self.width && self.y <= self.height
    }

    /// Gives the next cell of the walk over the bounds, row by row, and
    /// moves past it; `None` when no cell is left.
    pub fn next(&mut self) -> (r: Option<GridCell<'a, SparseGrid<T>>>)
        requires
            old(self).wf(),
        ensures
            final(self).wf(),
            final(self).grid() == old(self).grid(),
            final(self).width() == old(self).width(),
            final(self).height() == old(self).height(),
            match next_place(
                old(self).width(),
                old(self).height(),
                old(self).position().0,
                old(self).position().1,
            ) {
                Some(place) => r matches Some(cell) && cell.wf() && cell.grid() == old(self).grid()
                    && cell.x() == place.0 && cell.y() == place.1 && final(self).position() == (
                    (place.0 + 1) as usize,
                    place.1,
                ),
                None => r is None && final(self).position() == old(self).position(),
            },
    {
        if self.x == self.width && self.width > 0 && self.y < self.height && self.y + 1
            < self.height {
            self.x = 0;
            self.y += 1;
        }
        if self.x < self.width && self.y < self.height {
            let result = GridCell {
                item: self.grid.get(self.x, self.y),
                x: self.x,
                y: self.y,
                grid: self.grid,
            };
            self.x += 1;
            Some(result)
        } else {
            None
        }
    }
}

} // verus!

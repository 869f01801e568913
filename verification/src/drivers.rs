//! Grid engines: flat cell storage, the neighbourhood of a cell with the
//! rule's default cell around the grid, and stepping on one thread or on a
//! pool of worker threads.

use crate::grid::Grid;
use crate::{CellWorld, RuleSet};
use rayon::iter::{IntoParallelIterator, ParallelIterator};
use vstd::prelude::*;

verus! {

/// The borders of the grid that a cell lies on. No flag is set for an
/// interior cell, one for a cell on an edge and two adjoining ones for a
/// corner; on a grid that is a single column or a single row, opposite flags
/// are set together.
#[derive(Copy, Clone, Debug, PartialEq, Eq)]
pub struct Adjacency {
    pub top: bool,
    pub right: bool,
    pub bottom: bool,
    pub left: bool,
}

impl Adjacency {
    /// The borders that the cell stored at `idx` lies on.
    pub open spec fn of<C>(grid: Grid<C>, idx: int) -> Adjacency {
        Adjacency {
            top: grid.row_of(idx) == 0,
            right: grid.column_of(idx) == grid.width - 1,
            bottom: grid.row_of(idx) == grid.height() - 1,
            left: grid.column_of(idx) == 0,
        }
    }

    /// Whether the neighbour `dx` columns to the right and `dy` rows below
    /// lies outside the grid.
    pub open spec fn cuts_off(self, dx: int, dy: int) -> bool {
        ||| dx < 0 && self.left
        ||| dx > 0 && self.right
        ||| dy < 0 && self.top
        ||| dy > 0 && self.bottom
    }
}

/// The neighbour of the cell stored at `idx` that lies `dx` columns to the
/// right and `dy` rows below is outside the grid exactly where the cell's
/// borders cut it off. Otherwise it is stored `dy` rows and `dx` places
/// after `idx`.
pub proof fn lemma_neighbor_place<C>(grid: Grid<C>, idx: int, dx: int, dy: int)
    requires
        grid.wf(),
        0 <= idx < grid.cells.len(),
        -1 <= dx <= 1,
        -1 <= dy <= 1,
    ensures
        grid.in_bounds(grid.column_of(idx) + dx, grid.row_of(idx) + dy) == !Adjacency::of(
            grid,
            idx,
        ).cuts_off(dx, dy),
        grid.in_bounds(grid.column_of(idx) + dx, grid.row_of(idx) + dy) ==> {
            &&& 0 <= idx + dy * grid.width + dx < grid.cells.len()
            &&& grid.cell(grid.column_of(idx) + dx, grid.row_of(idx) + dy) == grid.cells[idx + dy
                * grid.width + dx]
        },
{
    let w = grid.width as int;
    let x = grid.column_of(idx);
    let y = grid.row_of(idx);
    crate::grid::lemma_position_of_index(grid, idx);
    if grid.in_bounds(x + dx, y + dy) {
        crate::grid::lemma_index_of_position(grid, x + dx, y + dy);
        assert((y + dy) * w + (x + dx) == (y * w + x) + dy * w + dx) by (nonlinear_arith);
    }
}

/// Calls `f` on every index below `len` on rayon's worker threads and
/// gathers what it returns, in the order of the indices.
///
/// This wraps `(0..len).into_par_iter().map(f).collect()` of rayon. The
/// parallel iterator over a range of `usize` is an indexed one of exactly
/// `len` items, `map` applies `f` to each item and keeps the indices, and
/// `collect` into a `Vec` writes the item of index `i` to place `i`. The
/// body is not verified. Its contract claims that much and no more: the
/// result has `len` elements, and the element at `i` is a value that `f`
/// may return for `i`.
#[verifier::external_body]
fn par_map_range<T: Send, F: Fn(usize) -> T + Sync + Send>(len: usize, f: F) -> (out: Vec<T>)
    requires
        forall|i: usize| i < len ==> #[trigger] call_requires(f, (i,)),
    ensures
        out@.len() == len,
        forall|i: usize| i < len ==> call_ensures(f, (i,), #[trigger] out@[i as int]),
{
    (0..len).into_par_iter().map(f).collect()
}

/// A grid engine that treats every position outside the grid as the rule's
/// default cell.
#[derive(Debug, PartialEq, Eq)]
pub struct Driver<R: RuleSet> {
    data: Vec<R::Cell>,
    width: usize,
}

impl<R: RuleSet> Clone for Driver<R> {
    fn clone(&self) -> (copy: Self)
        ensures
            copy@ == self@,
    {
        proof {
            use_type_invariant(self);
        }
        Driver { data: vstd::slice::slice_to_vec(self.data.as_slice()), width: self.width }
    }
}

impl<R: RuleSet> Driver<R> {
    /// The rows are complete: the width is positive and divides the number
    /// of stored cells.
    #[verifier::type_invariant]
    spec fn well_formed(self) -> bool {
        &&& self.width > 0
        &&& self.data@.len() % (self.width as nat) == 0
    }

    /// A driver of `width` columns and `height` rows, every cell the rule's
    /// default.
    fn new_with(width: usize, height: usize) -> (driver: Self)
        requires
            width > 0,
            height > 0,
            width * height <= usize::MAX,
        ensures
            driver@ == Grid::blank(width as nat, height as nat, R::default_cell()),
    {
        let len = width * height;
        let fill: R::Cell = Default::default();
        proof {
            R::default_is_unique(fill);
            crate::grid::lemma_rows_times_width(width as nat, height as nat);
        }
        let mut data: Vec<R::Cell> = Vec::with_capacity(len);
        let mut filled: usize = 0;
        while filled < len
            invariant
                filled <= len,
                data@.len() == filled,
                fill == R::default_cell(),
                forall|i: int| 0 <= i < filled ==> data@[i] == R::default_cell(),
            decreases len - filled,
        {
            data.push(fill);
            filled = filled + 1;
        }
        let driver = Driver { data, width };
        assert(driver@.cells =~= Grid::blank(
            width as nat,
            height as nat,
            R::default_cell(),
        ).cells);
        driver
    }

    /// The number of columns.
    pub fn width(&self) -> (width: usize)
        ensures
            width == self@.width,
            self@.wf(),
    {
        proof {
            use_type_invariant(self);
        }
        self.width
    }

    /// The number of rows.
    pub fn height(&self) -> (height: usize)
        ensures
            height == self@.height(),
            self@.wf(),
    {
        proof {
            use_type_invariant(self);
        }
        self.data.len() / self.width
    }

    /// Tells which borders of the grid the cell stored at `idx` lies on.
    pub fn adjacency(&self, idx: usize) -> (adjacency: Adjacency)
        requires
            idx < self@.cells.len(),
        ensures
            adjacency == Adjacency::of(self@, idx as int),
    {
        proof {
            use_type_invariant(self);
            crate::grid::lemma_position_of_index(self@, idx as int);
        }
        let x = idx % self.width;
        let y = idx / self.width;
        let height = self.data.len() / self.width;
        Adjacency { top: y == 0, right: x == self.width - 1, bottom: y == height - 1, left: x == 0 }
    }

    /// The value of the cell at `(x, y)`.
    fn get(&self, x: usize, y: usize) -> (value: R::Cell)
        requires
            self@.in_bounds(x as int, y as int),
        ensures
            value == self@.cell(x as int, y as int),
    {
        proof {
            use_type_invariant(&*self);
            crate::grid::lemma_index_of_position(self@, x as int, y as int);
            assert(y * self.width >= 0) by (nonlinear_arith);
            assert(self.data.len() == self.data@.len());
        }
        self.data[y * self.width + x]
    }

    /// The 3x3 block around the cell stored at `idx`, as
    /// `[[TL, T, TR], [L, M, R], [BL, B, BR]]`. A position outside the grid
    /// holds the rule's default cell, whichever border it lies beyond.
    pub fn get_field_matrix(&self, idx: usize) -> (matrix: [[R::Cell; 3]; 3])
        requires
            idx < self@.cells.len(),
        ensures
            matrix == self@.neighborhood(idx as int, R::default_cell()),
    {
        let adj = self.adjacency(idx);
        let fill: R::Cell = Default::default();
        proof {
            use_type_invariant(self);
            R::default_is_unique(fill);
            assert(self.data.len() == self.data@.len());
            lemma_neighbor_place(self@, idx as int, -1, -1);
            lemma_neighbor_place(self@, idx as int, 0, -1);
            lemma_neighbor_place(self@, idx as int, 1, -1);
            lemma_neighbor_place(self@, idx as int, -1, 0);
            lemma_neighbor_place(self@, idx as int, 0, 0);
            lemma_neighbor_place(self@, idx as int, 1, 0);
            lemma_neighbor_place(self@, idx as int, -1, 1);
            lemma_neighbor_place(self@, idx as int, 0, 1);
            lemma_neighbor_place(self@, idx as int, 1, 1);
        }
        let tl = if adj.top || adj.left {
            fill
        } else {
            self.data[idx - self.width - 1]
        };
        let t = if adj.top {
            fill
        } else {
            self.data[idx - self.width]
        };
        let tr = if adj.top || adj.right {
            fill
        } else {
            self.data[idx - self.width + 1]
        };
        let l = if adj.left {
            fill
        } else {
            self.data[idx - 1]
        };
        let c = self.data[idx];
        let r = if adj.right {
            fill
        } else {
            self.data[idx + 1]
        };
        let bl = if adj.bottom || adj.left {
            fill
        } else {
            self.data[idx + self.width - 1]
        };
        let b = if adj.bottom {
            fill
        } else {
            self.data[idx + self.width]
        };
        let br = if adj.bottom || adj.right {
            fill
        } else {
            self.data[idx + self.width + 1]
        };
        [[tl, t, tr], [l, c, r], [bl, b, br]]
    }

    /// Sets the cell at `(x, y)` to `value`.
    fn set(&mut self, x: usize, y: usize, value: R::Cell)
        requires
            old(self)@.in_bounds(x as int, y as int),
        ensures
            final(self)@ == old(self)@.with_cell(x as int, y as int, value),
    {
        proof {
            use_type_invariant(&*self);
            crate::grid::lemma_index_of_position(self@, x as int, y as int);
            assert(y * self.width >= 0) by (nonlinear_arith);
            assert(self.data.len() == self.data@.len());
        }
        self.data[y * self.width + x] = value;
    }

    /// The grid row by row, from top to bottom, each row a copy of its cells
    /// from left to right.
    pub fn rows(&self) -> (rows: Vec<Vec<R::Cell>>)
        ensures
            rows@.len() == self@.height(),
            forall|y: int| 0 <= y < rows@.len() ==> (#[trigger] rows@[y])@ == self@.row(y),
    {
        proof {
            use_type_invariant(self);
            vstd::arithmetic::div_mod::lemma_fundamental_div_mod(
                self.data@.len() as int,
                self.width as int,
            );
        }
        let height = self.data.len() / self.width;
        let mut rows: Vec<Vec<R::Cell>> = Vec::with_capacity(height);
        let mut y: usize = 0;
        let mut base: usize = 0;
        while y < height
            invariant
                y <= height,
                self.width > 0,
                height == self@.height(),
                self.data@.len() == self.data.len(),
                self.data@.len() == self.width * height,
                base == y * self.width,
                rows@.len() == y,
                forall|r: int| 0 <= r < y ==> (#[trigger] rows@[r])@ == self@.row(r),
            decreases height - y,
        {
            proof {
                assert((y + 1) * self.width == y * self.width + self.width) by (nonlinear_arith);
                assert((y + 1) * self.width <= self.width * height) by (nonlinear_arith)
                    requires
                        y + 1 <= height,
                ;
            }
            let row = vstd::slice::slice_to_vec(
                vstd::slice::slice_subrange(self.data.as_slice(), base, base + self.width),
            );
            rows.push(row);
            base = base + self.width;
            y = y + 1;
        }
        rows
    }

    /// Computes the next generation with the cells shared out among
    /// rayon's worker threads, into a buffer of its own, and then puts it in
    /// place of the old one. Every worker reads the old generation only.
    fn par_step(&mut self) where R::Cell: Send + Sync
        ensures
            final(self)@ == crate::grid::next_generation::<R>(old(self)@),
    {
        proof {
            use_type_invariant(&*self);
        }
        let len = self.data.len();
        let before: &Driver<R> = &*self;
        let next_cell = |idx: usize| -> (cell: R::Cell)
            requires
                idx < before@.cells.len(),
            ensures
                cell == R::transition(before@.neighborhood(idx as int, R::default_cell())),
            { R::step(before.get_field_matrix(idx)) };
        let next = par_map_range(len, next_cell);
        self.data = next;
        assert(self@.cells =~= crate::grid::next_generation::<R>(old(self)@).cells);
    }
}

impl<R: RuleSet> CellWorld<R> for Driver<R> {
    closed spec fn view(&self) -> Grid<R::Cell> {
        Grid { width: self.width as nat, cells: self.data@ }
    }

    fn new(width: usize, height: usize) -> (world: Self) {
        Self::new_with(width, height)
    }

    fn set_cell(&mut self, x: usize, y: usize, value: R::Cell) {
        self.set(x, y, value)
    }

    fn get_cell(&self, x: usize, y: usize) -> (value: R::Cell) {
        self.get(x, y)
    }

    /// Computes the next generation cell by cell, in the order of storage,
    /// into a buffer of its own, and then puts it in place of the old one.
    fn step(&mut self) {
        proof {
            use_type_invariant(&*self);
        }
        let len = self.data.len();
        let mut next: Vec<R::Cell> = Vec::with_capacity(len);
        let mut idx: usize = 0;
        while idx < len
            invariant
                idx <= len,
                len == self.data@.len(),
                *self == *old(self),
                next@.len() == idx,
                forall|i: int|
                    0 <= i < idx ==> next@[i] == R::transition(
                        self@.neighborhood(i, R::default_cell()),
                    ),
            decreases len - idx,
        {
            let cell = R::step(self.get_field_matrix(idx));
            next.push(cell);
            idx = idx + 1;
        }
        self.data = next;
        assert(self@.cells =~= crate::grid::next_generation::<R>(old(self)@).cells);
    }
}

/// A grid engine like [`Driver`] that computes each step on rayon's worker
/// threads. It goes through the same generations as a `Driver` does.
#[derive(PartialEq)]
pub struct ParallelDriver<R: RuleSet> {
    grid: Driver<R>,
}

impl<R: RuleSet> Clone for ParallelDriver<R> where R::Cell: Send + Sync {
    fn clone(&self) -> (copy: Self)
        ensures
            copy@ == self@,
    {
        ParallelDriver { grid: self.grid.clone() }
    }
}

impl<R: RuleSet> ParallelDriver<R> where R::Cell: Send + Sync {
    /// The number of columns.
    pub fn width(&self) -> (width: usize)
        ensures
            width == self@.width,
            self@.wf(),
    {
        self.grid.width()
    }

    /// The number of rows.
    pub fn height(&self) -> (height: usize)
        ensures
            height == self@.height(),
            self@.wf(),
    {
        self.grid.height()
    }

    /// The grid row by row, from top to bottom, each row a copy of its cells
    /// from left to right.
    pub fn rows(&self) -> (rows: Vec<Vec<R::Cell>>)
        ensures
            rows@.len() == self@.height(),
            forall|y: int| 0 <= y < rows@.len() ==> (#[trigger] rows@[y])@ == self@.row(y),
    {
        self.grid.rows()
    }
}

impl<R: RuleSet> CellWorld<R> for ParallelDriver<R> where R::Cell: Send + Sync {
    closed spec fn view(&self) -> Grid<R::Cell> {
        self.grid@
    }

    fn new(width: usize, height: usize) -> (world: Self) {
        ParallelDriver { grid: Driver::new_with(width, height) }
    }

    fn set_cell(&mut self, x: usize, y: usize, value: R::Cell) {
        self.grid.set(x, y, value)
    }

    fn get_cell(&self, x: usize, y: usize) -> (value: R::Cell) {
        self.grid.get(x, y)
    }

    fn step(&mut self) {
        self.grid.par_step()
    }
}

/// Stepping on one thread and stepping on worker threads agree: from the
/// same generation, a [`Driver`] and a [`ParallelDriver`] reach the same
/// generation after the same number of steps.
pub proof fn lemma_strategies_agree<R: RuleSet>(
    sequential: Driver<R>,
    sequential_after: Driver<R>,
    parallel: ParallelDriver<R>,
    parallel_after: ParallelDriver<R>,
    n: nat,
) where R::Cell: Send + Sync
    requires
        sequential@ == parallel@,
        sequential_after@ == crate::grid::advance::<R>(sequential@, n),
        parallel_after@ == crate::grid::advance::<R>(parallel@, n),
    ensures
        sequential_after@ == parallel_after@,
{
}

} // verus!

//! The mathematical model of a world: one generation as a flat, row-major
//! sequence of cells, the 3x3 neighbourhood of a cell, and the generations
//! that follow from a rule.

use crate::RuleSet;
use vstd::prelude::*;

verus! {

/// One generation of a world. The cell at column `x` of row `y` is
/// `cells[y * width + x]`; the number of rows is `cells.len() / width`.
pub struct Grid<C> {
    pub width: nat,
    pub cells: Seq<C>,
}

impl<C> Grid<C> {
    /// The rows are complete: the width is positive and divides the number
    /// of cells.
    pub open spec fn wf(self) -> bool {
        &&& self.width > 0
        &&& self.cells.len() % self.width == 0
    }

    /// The number of rows.
    pub open spec fn height(self) -> nat {
        self.cells.len() / self.width
    }

    /// Whether `(x, y)` names a cell of the grid.
    pub open spec fn in_bounds(self, x: int, y: int) -> bool {
        &&& 0 <= x < self.width
        &&& 0 <= y < self.height()
    }

    /// The place of `(x, y)` in `cells`.
    pub open spec fn index_of(self, x: int, y: int) -> int {
        y * self.width + x
    }

    /// The column of the cell stored at `idx`.
    pub open spec fn column_of(self, idx: int) -> int {
        idx % (self.width as int)
    }

    /// The row of the cell stored at `idx`.
    pub open spec fn row_of(self, idx: int) -> int {
        idx / (self.width as int)
    }

    /// The cell at `(x, y)`.
    pub open spec fn cell(self, x: int, y: int) -> C
        recommends
            self.in_bounds(x, y),
    {
        self.cells[self.index_of(x, y)]
    }

    /// The cells of row `y`, from left to right.
    pub open spec fn row(self, y: int) -> Seq<C>
        recommends
            0 <= y < self.height(),
    {
        self.cells.subrange(y * self.width, y * self.width + self.width)
    }

    /// A grid of `width` columns and `height` rows in which every cell is
    /// `fill`.
    pub open spec fn blank(width: nat, height: nat, fill: C) -> Grid<C> {
        Grid { width, cells: Seq::new(width * height, |i: int| fill) }
    }

    /// This grid with the cell at `(x, y)` replaced by `value`.
    pub open spec fn with_cell(self, x: int, y: int, value: C) -> Grid<C>
        recommends
            self.in_bounds(x, y),
    {
        Grid { width: self.width, cells: self.cells.update(self.index_of(x, y), value) }
    }

    /// What a rule sees at `(x, y)`: the cell there, or `fill` where `(x, y)`
    /// lies outside the grid. Nothing wraps around and no edge cell is
    /// repeated.
    pub open spec fn neighbor(self, x: int, y: int, fill: C) -> C {
        if self.in_bounds(x, y) {
            self.cell(x, y)
        } else {
            fill
        }
    }

    /// The 3x3 block around the cell stored at `idx`, rows from top to
    /// bottom and each row from left to right, with `fill` standing in for
    /// every position outside the grid.
    pub open spec fn neighborhood(self, idx: int, fill: C) -> [[C; 3]; 3] {
        let x = self.column_of(idx);
        let y = self.row_of(idx);
        [
            [
                self.neighbor(x - 1, y - 1, fill),
                self.neighbor(x, y - 1, fill),
                self.neighbor(x + 1, y - 1, fill),
            ],
            [
                self.neighbor(x - 1, y, fill),
                self.neighbor(x, y, fill),
                self.neighbor(x + 1, y, fill),
            ],
            [
                self.neighbor(x - 1, y + 1, fill),
                self.neighbor(x, y + 1, fill),
                self.neighbor(x + 1, y + 1, fill),
            ],
        ]
    }
}

/// The generation after `grid` under the rule `R`: every cell becomes what
/// the rule makes of its neighbourhood in `grid` itself.
pub open spec fn next_generation<R: RuleSet>(grid: Grid<R::Cell>) -> Grid<R::Cell> {
    Grid {
        width: grid.width,
        cells: Seq::new(
            grid.cells.len(),
            |i: int| R::transition(grid.neighborhood(i, R::default_cell())),
        ),
    }
}

/// The generation `n` steps after `grid` under the rule `R`.
pub open spec fn advance<R: RuleSet>(grid: Grid<R::Cell>, n: nat) -> Grid<R::Cell>
    decreases n,
{
    if n == 0 {
        grid
    } else {
        next_generation::<R>(advance::<R>(grid, (n - 1) as nat))
    }
}

/// A product of a positive width and a height is a well-formed number of
/// cells, and the height can be read back from it.
pub proof fn lemma_rows_times_width(width: nat, height: nat)
    requires
        width > 0,
    ensures
        (width * height) % width == 0,
        (width * height) / width == height,
{
    assert(width * height == height * width + 0) by (nonlinear_arith);
    vstd::arithmetic::div_mod::lemma_fundamental_div_mod_converse(
        (width * height) as int,
        width as int,
        height as int,
        0,
    );
}

/// Every index of a well-formed grid lies at exactly one in-bounds
/// position, its column and row.
pub proof fn lemma_position_of_index<C>(grid: Grid<C>, idx: int)
    requires
        grid.wf(),
        0 <= idx < grid.cells.len(),
    ensures
        grid.in_bounds(grid.column_of(idx), grid.row_of(idx)),
        grid.index_of(grid.column_of(idx), grid.row_of(idx)) == idx,
{
    let w = grid.width as int;
    let len = grid.cells.len() as int;
    vstd::arithmetic::div_mod::lemma_fundamental_div_mod(idx, w);
    vstd::arithmetic::div_mod::lemma_fundamental_div_mod(len, w);
    assert(0 <= idx % w < w && 0 <= idx / w && idx / w < len / w) by (nonlinear_arith)
        requires
            w > 0,
            0 <= idx < len,
            len == w * (len / w) + len % w,
            len % w == 0,
            idx == w * (idx / w) + idx % w,
    ;
    assert(w * (idx / w) == (idx / w) * w) by (nonlinear_arith);
}

/// Every in-bounds position of a well-formed grid has an index of its own,
/// from which its column and row can be read back.
pub proof fn lemma_index_of_position<C>(grid: Grid<C>, x: int, y: int)
    requires
        grid.wf(),
        grid.in_bounds(x, y),
    ensures
        0 <= grid.index_of(x, y) < grid.cells.len(),
        grid.column_of(grid.index_of(x, y)) == x,
        grid.row_of(grid.index_of(x, y)) == y,
{
    let w = grid.width as int;
    let len = grid.cells.len() as int;
    vstd::arithmetic::div_mod::lemma_fundamental_div_mod(len, w);
    vstd::arithmetic::div_mod::lemma_fundamental_div_mod_converse(y * w + x, w, y, x);
    assert(0 <= y * w + x < len) by (nonlinear_arith)
        requires
            0 <= x < w,
            0 <= y < len / w,
            len == w * (len / w) + len % w,
            len % w == 0,
    ;
}

/// A new grid has the shape it was asked for, and every cell of it is the
/// fill.
pub proof fn lemma_blank<C>(width: nat, height: nat, fill: C, x: int, y: int)
    requires
        width > 0,
    ensures
        Grid::blank(width, height, fill).wf(),
        Grid::blank(width, height, fill).height() == height,
        Grid::blank(width, height, fill).in_bounds(x, y) ==> Grid::blank(width, height, fill).cell(
            x,
            y,
        ) == fill,
{
    let grid = Grid::blank(width, height, fill);
    lemma_rows_times_width(width, height);
    if grid.in_bounds(x, y) {
        lemma_index_of_position(grid, x, y);
    }
}

/// Writing a cell keeps the shape of the grid, puts the value at its
/// position and leaves the cell at every other position as it was.
pub proof fn lemma_with_cell<C>(grid: Grid<C>, x: int, y: int, value: C, other_x: int, other_y: int)
    requires
        grid.wf(),
        grid.in_bounds(x, y),
    ensures
        grid.with_cell(x, y, value).wf(),
        grid.with_cell(x, y, value).width == grid.width,
        grid.with_cell(x, y, value).height() == grid.height(),
        grid.with_cell(x, y, value).cell(x, y) == value,
        grid.in_bounds(other_x, other_y) && (other_x != x || other_y != y) ==> grid.with_cell(
            x,
            y,
            value,
        ).cell(other_x, other_y) == grid.cell(other_x, other_y),
{
    lemma_index_of_position(grid, x, y);
    if grid.in_bounds(other_x, other_y) {
        lemma_index_of_position(grid, other_x, other_y);
    }
}

/// A rule sees the default cell, and nothing of the grid, at every position
/// of a neighbourhood that lies outside the grid: beyond an edge, beyond a
/// corner, and on every side of a grid of a single row or column. At a
/// position inside the grid it sees the cell that is there.
pub proof fn lemma_neighborhood_slot<C>(grid: Grid<C>, idx: int, row: int, col: int, fill: C)
    requires
        0 <= row < 3,
        0 <= col < 3,
    ensures
        !grid.in_bounds(grid.column_of(idx) + col - 1, grid.row_of(idx) + row - 1)
            ==> grid.neighborhood(idx, fill)[row][col] == fill,
        grid.in_bounds(grid.column_of(idx) + col - 1, grid.row_of(idx) + row - 1)
            ==> grid.neighborhood(idx, fill)[row][col] == grid.cell(
            grid.column_of(idx) + col - 1,
            grid.row_of(idx) + row - 1,
        ),
{
}

/// A step keeps the shape of the grid: its width, its height and the
/// number of its cells.
pub proof fn lemma_next_generation_shape<R: RuleSet>(grid: Grid<R::Cell>)
    requires
        grid.wf(),
    ensures
        next_generation::<R>(grid).wf(),
        next_generation::<R>(grid).width == grid.width,
        next_generation::<R>(grid).height() == grid.height(),
        next_generation::<R>(grid).cells.len() == grid.cells.len(),
{
}

/// After a step the cell at `(x, y)` is what the rule makes of the nine
/// positions around `(x, y)` as they were before the step.
pub proof fn lemma_next_generation_cell<R: RuleSet>(grid: Grid<R::Cell>, x: int, y: int)
    requires
        grid.wf(),
        grid.in_bounds(x, y),
    ensures
        next_generation::<R>(grid).in_bounds(x, y),
        next_generation::<R>(grid).cell(x, y) == R::transition(
            [
                [
                    grid.neighbor(x - 1, y - 1, R::default_cell()),
                    grid.neighbor(x, y - 1, R::default_cell()),
                    grid.neighbor(x + 1, y - 1, R::default_cell()),
                ],
                [
                    grid.neighbor(x - 1, y, R::default_cell()),
                    grid.neighbor(x, y, R::default_cell()),
                    grid.neighbor(x + 1, y, R::default_cell()),
                ],
                [
                    grid.neighbor(x - 1, y + 1, R::default_cell()),
                    grid.neighbor(x, y + 1, R::default_cell()),
                    grid.neighbor(x + 1, y + 1, R::default_cell()),
                ],
            ],
        ),
{
    lemma_index_of_position(grid, x, y);
}

/// No step leaves the grid as it is, and one step more is one application
/// of the rule to the result of the steps before.
pub proof fn lemma_advance_unfold<R: RuleSet>(grid: Grid<R::Cell>, n: nat)
    ensures
        advance::<R>(grid, 0) == grid,
        advance::<R>(grid, 1) == next_generation::<R>(grid),
        advance::<R>(grid, n + 1) == next_generation::<R>(advance::<R>(grid, n)),
{
    reveal_with_fuel(advance, 2);
}

/// Steps compose: `m` steps followed by `n` steps are `m + n` steps.
pub proof fn lemma_advance_add<R: RuleSet>(grid: Grid<R::Cell>, m: nat, n: nat)
    ensures
        advance::<R>(advance::<R>(grid, m), n) == advance::<R>(grid, m + n),
    decreases n,
{
    if n > 0 {
        lemma_advance_add::<R>(grid, m, (n - 1) as nat);
    }
}

/// Any number of steps keeps the shape of the grid.
pub proof fn lemma_advance_shape<R: RuleSet>(grid: Grid<R::Cell>, n: nat)
    requires
        grid.wf(),
    ensures
        advance::<R>(grid, n).wf(),
        advance::<R>(grid, n).width == grid.width,
        advance::<R>(grid, n).height() == grid.height(),
    decreases n,
{
    if n > 0 {
        lemma_advance_shape::<R>(grid, (n - 1) as nat);
        lemma_next_generation_shape::<R>(advance::<R>(grid, (n - 1) as nat));
    }
}

} // verus!

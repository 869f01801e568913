//! A generic two-dimensional cellular-automaton engine.
//!
//! A world is a fixed-size grid of cells. One step replaces every cell by
//! what a rule makes of the cell's 3x3 neighbourhood in the generation
//! before; positions outside the grid count as the rule's default cell.

pub mod drivers;
pub mod grid;
pub mod rulesets;

use crate::grid::Grid;
use vstd::prelude::*;

verus! {

/// A local transition rule over a cell type.
///
/// The engines rest on two things that an implementation owes: that
/// `Default::default()` of the cell type is one definite value, and that
/// `step` computes a function of the neighbourhood and of nothing else.
pub trait RuleSet {
    /// The cell type that this rule works on.
    type Cell: Default + Copy + PartialEq;

    /// The value that stands for every position outside the grid and fills
    /// a new grid.
    spec fn default_cell() -> Self::Cell;

    /// `Default::default()` of the cell type yields `default_cell()` and
    /// nothing else.
    proof fn default_is_unique(cell: Self::Cell)
        requires
            call_ensures(<Self::Cell as Default>::default, (), cell),
        ensures
            cell == Self::default_cell(),
    ;

    /// The rule as a function: the new value of the centre of
    /// `neighborhood`, given as
    /// `[[TL, T, TR], [L, M, R], [BL, B, BR]]`.
    spec fn transition(neighborhood: [[Self::Cell; 3]; 3]) -> Self::Cell;

    /// Computes the new value of the centre cell of `neighborhood`. The
    /// result depends on the neighbourhood alone.
    fn step(neighborhood: [[Self::Cell; 3]; 3]) -> (cell: Self::Cell)
        ensures
            cell == Self::transition(neighborhood),
    ;
}

/// A world of cells that evolves under the rule `R`. Callers construct it,
/// read and write cells and advance it through this trait, whichever engine
/// stands behind it.
pub trait CellWorld<R: RuleSet>: Sized {
    /// The current generation.
    spec fn view(&self) -> Grid<R::Cell>;

    /// Creates a world of `width` columns and `height` rows in which every
    /// cell holds the rule's default value. Both sides must be positive, and
    /// the number of cells must fit in a `usize`.
    fn new(width: usize, height: usize) -> (world: Self)
        requires
            width > 0,
            height > 0,
            width * height <= usize::MAX,
        ensures
            world@ == Grid::blank(width as nat, height as nat, R::default_cell()),
    ;

    /// Sets the cell at `(x, y)` to `value` and leaves every other cell as
    /// it was. The position must lie inside the grid.
    fn set_cell(&mut self, x: usize, y: usize, value: R::Cell)
        requires
            old(self)@.in_bounds(x as int, y as int),
        ensures
            final(self)@ == old(self)@.with_cell(x as int, y as int, value),
    ;

    /// Returns a copy of the cell at `(x, y)`. The position must lie inside
    /// the grid.
    fn get_cell(&self, x: usize, y: usize) -> (value: R::Cell)
        requires
            self@.in_bounds(x as int, y as int),
        ensures
            value == self@.cell(x as int, y as int),
    ;

    /// Applies the rule once to the whole grid. Every new cell is computed
    /// from the generation before the call.
    fn step(&mut self)
        ensures
            final(self)@ == crate::grid::next_generation::<R>(old(self)@),
    ;

    /// Applies the rule `n` times to the whole grid, one step after the
    /// other.
    fn step_many(&mut self, n: usize)
        ensures
            final(self)@ == crate::grid::advance::<R>(old(self)@, n as nat),
    {
        let mut done: usize = 0;
        while done < n
            invariant
                done <= n,
                self@ == crate::grid::advance::<R>(old(self)@, done as nat),
            decreases n - done,
        {
            self.step();
            done = done + 1;
        }
    }
}

/// Stepping is deterministic: two worlds that show the same generation,
/// whatever engine each of them is, show the same generation again after
/// each has made the same number of steps.
pub proof fn lemma_same_start_same_generation<R: RuleSet, A: CellWorld<R>, B: CellWorld<R>>(
    a_before: A,
    a_after: A,
    b_before: B,
    b_after: B,
    n: nat,
)
    requires
        a_before@ == b_before@,
        a_after@ == crate::grid::advance::<R>(a_before@, n),
        b_after@ == crate::grid::advance::<R>(b_before@, n),
    ensures
        a_after@ == b_after@,
{
}

} // verus!

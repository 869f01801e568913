//! Rules that come with the engine.

use crate::RuleSet;
use vstd::prelude::*;

verus! {

/// A cell that is either alive or dead.
#[derive(Clone, Copy, Debug, PartialEq, Eq, Structural)]
pub enum BinaryCell {
    Live,
    Dead,
}

impl Default for BinaryCell {
    fn default() -> (cell: Self)
        ensures
            cell == BinaryCell::Dead,
    {
        BinaryCell::Dead
    }
}

/// 1 for a live cell and 0 for a dead one.
pub open spec fn live(cell: BinaryCell) -> nat {
    if cell == BinaryCell::Live {
        1
    } else {
        0
    }
}

/// The number of live cells among the eight that surround the centre of
/// `neighborhood`.
pub open spec fn live_neighbors(neighborhood: [[BinaryCell; 3]; 3]) -> nat {
    live(neighborhood[0][0]) + live(neighborhood[0][1]) + live(neighborhood[0][2])
        + live(neighborhood[1][0]) + live(neighborhood[1][2])
        + live(neighborhood[2][0]) + live(neighborhood[2][1]) + live(neighborhood[2][2])
}

fn count_live(cell: BinaryCell) -> (n: u8)
    ensures
        n == live(cell),
{
    match cell {
        BinaryCell::Live => 1,
        BinaryCell::Dead => 0,
    }
}

/// Conway's Game of Life.
#[derive(Debug)]
pub struct GameOfLife;

impl RuleSet for GameOfLife {
    type Cell = BinaryCell;

    open spec fn default_cell() -> BinaryCell {
        BinaryCell::Dead
    }

    proof fn default_is_unique(cell: BinaryCell) {
    }

    /// A cell with exactly three live neighbours is alive in the next
    /// generation, a live cell with exactly two stays alive, and every
    /// other cell is dead.
    open spec fn transition(neighborhood: [[BinaryCell; 3]; 3]) -> BinaryCell {
        let around = live_neighbors(neighborhood);
        if around == 3 || (around == 2 && neighborhood[1][1] == BinaryCell::Live) {
            BinaryCell::Live
        } else {
            BinaryCell::Dead
        }
    }

    fn step(neighborhood: [[BinaryCell; 3]; 3]) -> (cell: BinaryCell) {
        let top: u8 = count_live(neighborhood[0][0]) + count_live(neighborhood[0][1]) + count_live(
            neighborhood[0][2],
        );
        let sides: u8 = count_live(neighborhood[1][0]) + count_live(neighborhood[1][2]);
        let bottom: u8 = count_live(neighborhood[2][0]) + count_live(neighborhood[2][1])
            + count_live(neighborhood[2][2]);
        let around: u8 = top + sides + bottom;
        match (neighborhood[1][1], around) {
            (_, 3) => BinaryCell::Live,
            (BinaryCell::Live, 2) => BinaryCell::Live,
            _ => BinaryCell::Dead,
        }
    }
}

} // verus!

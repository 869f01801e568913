use cellworld::drivers::{Driver, ParallelDriver};
use cellworld::rulesets::{BinaryCell, GameOfLife};
use cellworld::{CellWorld, RuleSet};

/// A very simple diffusion: each cell keeps 0.4 of its value and takes 0.1
/// of each orthogonal and 0.05 of each diagonal neighbour.
#[derive(Debug)]
struct Diffusion;

impl RuleSet for Diffusion {
    type Cell = f32;

    fn default_cell() -> f32 {
        0.0
    }

    fn default_is_unique(_cell: f32) {}

    fn transition(n: [[f32; 3]; 3]) -> f32 {
        Self::step(n)
    }

    fn step(n: [[f32; 3]; 3]) -> f32 {
        0.05 * n[0][0] + 0.1 * n[0][1] + 0.05 * n[0][2]
            + 0.1 * n[1][0] + 0.4 * n[1][1] + 0.1 * n[1][2]
            + 0.05 * n[2][0] + 0.1 * n[2][1] + 0.05 * n[2][2]
    }
}

const LIVE: BinaryCell = BinaryCell::Live;
const DEAD: BinaryCell = BinaryCell::Dead;

fn cells_of<W: CellWorld<GameOfLife>>(world: &W, width: usize, height: usize) -> Vec<BinaryCell> {
    let mut cells = Vec::new();
    for y in 0..height {
        for x in 0..width {
            cells.push(world.get_cell(x, y));
        }
    }
    cells
}

fn seed_glider<W: CellWorld<GameOfLife>>(world: &mut W) {
    world.set_cell(1, 0, LIVE);
    world.set_cell(2, 1, LIVE);
    world.set_cell(0, 2, LIVE);
    world.set_cell(1, 2, LIVE);
    world.set_cell(2, 2, LIVE);
}

#[test]
fn test_diffusion() {
    let mut diff: Driver<Diffusion> = Driver::new(3, 3);
    diff.set_cell(0, 0, 100f32);
    diff.step();

    assert_eq!(diff.get_cell(0, 0), 40f32);
    assert_eq!(diff.get_cell(1, 0), 10f32);
    assert_eq!(diff.get_cell(2, 0), 0f32);
    assert_eq!(diff.get_cell(0, 1), 10f32);
    assert_eq!(diff.get_cell(1, 1), 5f32);
    assert_eq!(diff.get_cell(2, 1), 0f32);
    assert_eq!(diff.get_cell(0, 2), 0f32);
    assert_eq!(diff.get_cell(1, 2), 0f32);
    assert_eq!(diff.get_cell(2, 2), 0f32);
}

#[test]
fn test_gol() {
    let mut gol: Driver<GameOfLife> = Driver::new(3, 3);
    gol.set_cell(1, 0, BinaryCell::Live);
    gol.set_cell(1, 1, BinaryCell::Live);
    gol.set_cell(1, 2, BinaryCell::Live);

    for _ in 0..10 {
        gol.step();

        assert_eq!(gol.get_cell(0, 0), BinaryCell::Dead);
        assert_eq!(gol.get_cell(1, 0), BinaryCell::Dead);
        assert_eq!(gol.get_cell(2, 0), BinaryCell::Dead);
        assert_eq!(gol.get_cell(0, 1), BinaryCell::Live);
        assert_eq!(gol.get_cell(1, 1), BinaryCell::Live);
        assert_eq!(gol.get_cell(2, 1), BinaryCell::Live);
        assert_eq!(gol.get_cell(0, 2), BinaryCell::Dead);
        assert_eq!(gol.get_cell(1, 2), BinaryCell::Dead);
        assert_eq!(gol.get_cell(2, 2), BinaryCell::Dead);

        gol.step();

        assert_eq!(gol.get_cell(0, 0), BinaryCell::Dead);
        assert_eq!(gol.get_cell(1, 0), BinaryCell::Live);
        assert_eq!(gol.get_cell(2, 0), BinaryCell::Dead);
        assert_eq!(gol.get_cell(0, 1), BinaryCell::Dead);
        assert_eq!(gol.get_cell(1, 1), BinaryCell::Live);
        assert_eq!(gol.get_cell(2, 1), BinaryCell::Dead);
        assert_eq!(gol.get_cell(0, 2), BinaryCell::Dead);
        assert_eq!(gol.get_cell(1, 2), BinaryCell::Live);
        assert_eq!(gol.get_cell(2, 2), BinaryCell::Dead);
    }

    let mut gol2: Driver<GameOfLife> = Driver::new(2, 2);
    gol2.set_cell(0, 0, BinaryCell::Live);
    gol2.set_cell(0, 1, BinaryCell::Live);
    gol2.set_cell(1, 0, BinaryCell::Live);
    gol2.set_cell(1, 1, BinaryCell::Live);

    gol.step_many(100);

    assert_eq!(gol2.get_cell(0, 0), BinaryCell::Live);
    assert_eq!(gol2.get_cell(0, 1), BinaryCell::Live);
    assert_eq!(gol2.get_cell(1, 0), BinaryCell::Live);
    assert_eq!(gol2.get_cell(1, 1), BinaryCell::Live);
}

#[test]
fn diffusion_on_worker_threads_gives_the_same_values() {
    let mut diff: ParallelDriver<Diffusion> = ParallelDriver::new(3, 3);
    diff.set_cell(0, 0, 100f32);
    diff.step();

    assert_eq!(diff.get_cell(0, 0), 40f32);
    assert_eq!(diff.get_cell(1, 0), 10f32);
    assert_eq!(diff.get_cell(2, 0), 0f32);
    assert_eq!(diff.get_cell(0, 1), 10f32);
    assert_eq!(diff.get_cell(1, 1), 5f32);
    assert_eq!(diff.get_cell(2, 1), 0f32);
    assert_eq!(diff.get_cell(0, 2), 0f32);
    assert_eq!(diff.get_cell(1, 2), 0f32);
    assert_eq!(diff.get_cell(2, 2), 0f32);
}

#[test]
fn diffusion_is_bit_identical_on_both_engines() {
    let mut one: Driver<Diffusion> = Driver::new(7, 5);
    let mut many: ParallelDriver<Diffusion> = ParallelDriver::new(7, 5);
    for (x, y, value) in [(0, 0, 100.0f32), (6, 4, 37.5), (3, 2, 1.0e-3), (6, 0, 9.0e8)] {
        one.set_cell(x, y, value);
        many.set_cell(x, y, value);
    }
    for _ in 0..25 {
        one.step();
        many.step();
        for y in 0..5 {
            for x in 0..7 {
                assert_eq!(one.get_cell(x, y).to_bits(), many.get_cell(x, y).to_bits());
            }
        }
    }
}

#[test]
fn blinker_turns_and_returns() {
    let mut gol: Driver<GameOfLife> = Driver::new(3, 3);
    gol.set_cell(1, 0, LIVE);
    gol.set_cell(1, 1, LIVE);
    gol.set_cell(1, 2, LIVE);
    let upright = vec![DEAD, LIVE, DEAD, DEAD, LIVE, DEAD, DEAD, LIVE, DEAD];
    let flat = vec![DEAD, DEAD, DEAD, LIVE, LIVE, LIVE, DEAD, DEAD, DEAD];
    assert_eq!(cells_of(&gol, 3, 3), upright);
    gol.step();
    assert_eq!(cells_of(&gol, 3, 3), flat);
    gol.step();
    assert_eq!(cells_of(&gol, 3, 3), upright);
}

#[test]
fn blinker_turns_and_returns_on_worker_threads() {
    let mut gol: ParallelDriver<GameOfLife> = ParallelDriver::new(3, 3);
    gol.set_cell(1, 0, LIVE);
    gol.set_cell(1, 1, LIVE);
    gol.set_cell(1, 2, LIVE);
    let upright = vec![DEAD, LIVE, DEAD, DEAD, LIVE, DEAD, DEAD, LIVE, DEAD];
    let flat = vec![DEAD, DEAD, DEAD, LIVE, LIVE, LIVE, DEAD, DEAD, DEAD];
    gol.step();
    assert_eq!(cells_of(&gol, 3, 3), flat);
    gol.step();
    assert_eq!(cells_of(&gol, 3, 3), upright);
    gol.step_many(7);
    assert_eq!(cells_of(&gol, 3, 3), flat);
}

#[test]
fn block_of_four_is_a_still_life() {
    let mut gol: Driver<GameOfLife> = Driver::new(2, 2);
    gol.set_cell(0, 0, LIVE);
    gol.set_cell(0, 1, LIVE);
    gol.set_cell(1, 0, LIVE);
    gol.set_cell(1, 1, LIVE);
    gol.step();
    assert_eq!(cells_of(&gol, 2, 2), vec![LIVE; 4]);
    gol.step_many(100);
    assert_eq!(cells_of(&gol, 2, 2), vec![LIVE; 4]);
}

#[test]
fn block_of_four_is_a_still_life_on_worker_threads() {
    let mut gol: ParallelDriver<GameOfLife> = ParallelDriver::new(2, 2);
    gol.set_cell(0, 0, LIVE);
    gol.set_cell(0, 1, LIVE);
    gol.set_cell(1, 0, LIVE);
    gol.set_cell(1, 1, LIVE);
    gol.step_many(100);
    assert_eq!(cells_of(&gol, 2, 2), vec![LIVE; 4]);
}

#[test]
fn same_state_steps_to_same_state() {
    let mut a: Driver<GameOfLife> = Driver::new(6, 5);
    seed_glider(&mut a);
    let mut b = a.clone();
    assert_eq!(cells_of(&a, 6, 5), cells_of(&b, 6, 5));
    for _ in 0..10 {
        a.step();
        b.step();
        assert_eq!(cells_of(&a, 6, 5), cells_of(&b, 6, 5));
    }
}

#[test]
fn step_many_equals_repeated_steps() {
    for n in 0..12 {
        let mut at_once: Driver<GameOfLife> = Driver::new(6, 5);
        seed_glider(&mut at_once);
        let mut one_by_one = at_once.clone();
        at_once.step_many(n);
        for _ in 0..n {
            one_by_one.step();
        }
        assert_eq!(cells_of(&at_once, 6, 5), cells_of(&one_by_one, 6, 5));
    }
}

#[test]
fn step_many_equals_repeated_steps_on_worker_threads() {
    for n in 0..12 {
        let mut at_once: ParallelDriver<GameOfLife> = ParallelDriver::new(6, 5);
        seed_glider(&mut at_once);
        let mut one_by_one = at_once.clone();
        at_once.step_many(n);
        for _ in 0..n {
            one_by_one.step();
        }
        assert_eq!(cells_of(&at_once, 6, 5), cells_of(&one_by_one, 6, 5));
    }
}

#[test]
fn no_steps_leave_the_grid_unchanged() {
    let mut gol: Driver<GameOfLife> = Driver::new(4, 4);
    seed_glider(&mut gol);
    let before = cells_of(&gol, 4, 4);
    gol.step_many(0);
    assert_eq!(cells_of(&gol, 4, 4), before);
}

#[test]
fn both_engines_walk_through_the_same_generations() {
    let mut one: Driver<GameOfLife> = Driver::new(9, 8);
    let mut many: ParallelDriver<GameOfLife> = ParallelDriver::new(9, 8);
    seed_glider(&mut one);
    seed_glider(&mut many);
    for _ in 0..40 {
        one.step();
        many.step();
        assert_eq!(cells_of(&one, 9, 8), cells_of(&many, 9, 8));
    }
    one.step_many(13);
    many.step_many(13);
    assert_eq!(cells_of(&one, 9, 8), cells_of(&many, 9, 8));
}

#[test]
fn glider_moves_one_cell_diagonally_in_four_steps() {
    let mut gol: Driver<GameOfLife> = Driver::new(6, 6);
    seed_glider(&mut gol);
    gol.step_many(4);
    let mut live = Vec::new();
    for y in 0..6 {
        for x in 0..6 {
            if gol.get_cell(x, y) == LIVE {
                live.push((x, y));
            }
        }
    }
    assert_eq!(live, vec![(2, 1), (3, 2), (1, 3), (2, 3), (3, 3)]);
}

#[test]
fn hot_corner_spreads_only_into_the_grid() {
    for (x, y) in [(0usize, 0usize), (2, 0), (0, 2), (2, 2)] {
        let mut diff: Driver<Diffusion> = Driver::new(3, 3);
        diff.set_cell(x, y, 100f32);
        diff.step();
        let mut total = 0f32;
        for cy in 0..3 {
            for cx in 0..3 {
                let dx = if cx > x { cx - x } else { x - cx };
                let dy = if cy > y { cy - y } else { y - cy };
                let expected = match (dx, dy) {
                    (0, 0) => 40f32,
                    (1, 0) | (0, 1) => 10f32,
                    (1, 1) => 5f32,
                    _ => 0f32,
                };
                assert_eq!(diff.get_cell(cx, cy), expected);
                total += diff.get_cell(cx, cy);
            }
        }
        assert_eq!(total, 65f32);
    }
}

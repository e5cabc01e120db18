use std::collections::HashSet;

use gamevim::catalog::Catalog;
use gamevim::command::MotionKind;
use gamevim::grid::{GridState, Tile};
use gamevim::level::{GridSpec, LevelKind};
use gamevim::maze::carve_count_friendly_maze;
use gamevim::pos::Pos;
use gamevim::rng::Lcg;
use gamevim::time::Duration;

fn reachable(grid: &GridState) -> bool {
    let mut seen = HashSet::new();
    let mut stack = vec![grid.player];
    while let Some(pos) = stack.pop() {
        if !seen.insert(pos) {
            continue;
        }
        if pos == grid.goal {
            return true;
        }
        for next in [
            Pos {
                x: pos.x.saturating_sub(1),
                y: pos.y,
            },
            Pos {
                x: pos.x + 1,
                y: pos.y,
            },
            Pos {
                x: pos.x,
                y: pos.y.saturating_sub(1),
            },
            Pos {
                x: pos.x,
                y: pos.y + 1,
            },
        ] {
            if grid.is_floor(next) {
                stack.push(next);
            }
        }
    }
    false
}

fn rows(grid: &GridState) -> Vec<String> {
    let mut rows = Vec::new();
    for row in &grid.tiles {
        rows.push(row.iter().map(|tile| if *tile == Tile::Wall { '#' } else { '.' }).collect());
    }
    rows
}

fn small(generated: bool, mastery: bool) -> GridSpec {
    GridSpec {
        width: 15,
        height: 9,
        start: Pos { x: 2, y: 7 },
        goal: Pos { x: 12, y: 1 },
        command_budget: 9,
        lava: true,
        lava_interval_ms: Some(1_000),
        generated,
        mastery,
    }
}

#[test]
fn generated_grid_is_seed_reproducible_and_reachable() {
    let catalog = Catalog::new();
    let level = catalog.level("1-2").unwrap();
    let LevelKind::Grid(spec) = &level.kind else {
        panic!("expected grid");
    };
    let first = GridState::from_spec(spec, 99);
    let second = GridState::from_spec(spec, 99);
    assert_eq!(first.tiles, second.tiles);
    assert!(reachable(&first));
    assert!(first.lava);
}

#[test]
fn lesson_one_uses_larger_spaces_and_timed_lava() {
    let catalog = Catalog::new();
    let one_two = catalog.level("1-2").unwrap();
    let one_three = catalog.level("1-3").unwrap();
    let LevelKind::Grid(spec_two) = &one_two.kind else {
        panic!("expected grid");
    };
    let LevelKind::Grid(spec_three) = &one_three.kind else {
        panic!("expected grid");
    };
    assert!(spec_two.width >= 40);
    assert!(spec_two.height >= 20);
    assert!(spec_two.lava_interval_ms.is_some());
    assert!(spec_three.width > spec_two.width);
    assert!(spec_three.height > spec_two.height);
    assert!(spec_three.lava_interval_ms.unwrap() < spec_two.lava_interval_ms.unwrap());
}

#[test]
fn lava_rises_from_elapsed_time_without_commands() {
    let catalog = Catalog::new();
    let level = catalog.level("1-2").unwrap();
    let LevelKind::Grid(spec) = &level.kind else {
        panic!("expected grid");
    };
    let mut grid = GridState::from_spec(spec, 99);
    assert_eq!(grid.lava_rows, 1);
    grid.update_lava(Duration::from_millis(
        spec.lava_interval_ms.unwrap() * 2 + 10,
    ));
    assert_eq!(grid.lava_rows, 3);
}

#[test]
fn every_seed_gives_a_way_to_the_goal() {
    let catalog = Catalog::new();
    for level in catalog.all_levels() {
        if let LevelKind::Grid(spec) = &level.kind {
            for seed in 0..60 {
                assert!(reachable(&GridState::from_spec(spec, seed)), "{} {seed}", level.id);
            }
            assert!(reachable(&GridState::from_spec(spec, u64::MAX)));
        }
    }
}

#[test]
fn a_seed_carves_a_known_maze() {
    let grid = GridState::from_spec(&small(true, false), 7);
    assert_eq!(
        rows(&grid),
        vec![
            "###############",
            "######.......##",
            "######.########",
            "##.....########",
            "##.############",
            "##.############",
            "##.############",
            "##.############",
            "###############",
        ]
    );
    assert_eq!(
        rows(&GridState::from_spec(&small(true, true), 0)),
        vec![
            "###############",
            "#............##",
            "#.#############",
            "#...###########",
            "#.#############",
            "#......########",
            "##...##########",
            "##.############",
            "###############",
        ]
    );
    assert_eq!(grid.player, Pos { x: 2, y: 7 });
    assert_eq!(grid.goal, Pos { x: 12, y: 1 });
    assert_eq!(grid.command_budget, 9);
}

#[test]
fn carving_works_on_tiles_alone() {
    let mut tiles = vec![vec![Tile::Wall; 15]; 9];
    carve_count_friendly_maze(&mut tiles, Pos { x: 2, y: 7 }, Pos { x: 12, y: 1 }, 7, false);
    assert_eq!(tiles, GridState::from_spec(&small(true, false), 7).tiles);
}

#[test]
fn the_tutorial_has_one_inner_wall() {
    let grid = GridState::from_spec(&small(false, false), 3);
    assert_eq!(
        rows(&grid),
        vec![
            "###############",
            "#.............#",
            "#.............#",
            "#..###.#####..#",
            "#.............#",
            "#.............#",
            "#.............#",
            "#.............#",
            "###############",
        ]
    );
}

#[test]
fn motions_stop_at_walls() {
    let mut grid = GridState::from_spec(&small(true, false), 7);
    grid.apply_motion(MotionKind::Up, 100);
    assert_eq!(grid.player, Pos { x: 2, y: 3 });
    grid.apply_motion(MotionKind::Right, 2);
    assert_eq!(grid.player, Pos { x: 4, y: 3 });
    grid.apply_motion(MotionKind::Right, usize::MAX);
    assert_eq!(grid.player, Pos { x: 6, y: 3 });
    grid.apply_motion(MotionKind::WordForward, 4);
    grid.apply_motion(MotionKind::WordBackward, 1);
    grid.apply_motion(MotionKind::WordEndForward, 1);
    grid.apply_motion(MotionKind::WordEndBackward, 1);
    assert_eq!(grid.player, Pos { x: 6, y: 3 });
    grid.apply_motion(MotionKind::Left, 1);
    grid.apply_motion(MotionKind::Down, 1);
    assert_eq!(grid.player, Pos { x: 5, y: 3 });
}

#[test]
fn two_motions_make_one_longer_motion() {
    let mut once = GridState::from_spec(&small(true, false), 7);
    let mut twice = GridState::from_spec(&small(true, false), 7);
    once.apply_motion(MotionKind::Up, 3);
    twice.apply_motion(MotionKind::Up, 1);
    twice.apply_motion(MotionKind::Up, 2);
    assert_eq!(once.player, twice.player);
}

#[test]
fn floor_ends_at_the_edge() {
    let grid = GridState::from_spec(&small(true, false), 7);
    assert!(grid.is_floor(Pos { x: 2, y: 7 }));
    assert!(!grid.is_floor(Pos { x: 0, y: 0 }));
    assert!(!grid.is_floor(Pos { x: 15, y: 7 }));
    assert!(!grid.is_floor(Pos { x: 2, y: 9 }));
}

#[test]
fn lava_spares_the_topmost_row() {
    let mut grid = GridState::from_spec(&small(true, false), 7);
    assert!(!grid.player_in_lava());
    grid.update_lava(Duration::from_millis(999));
    assert_eq!(grid.lava_rows, 1);
    grid.update_lava(Duration::from_millis(1_000));
    assert_eq!(grid.lava_rows, 2);
    assert!(grid.player_in_lava());
    grid.update_lava(Duration { secs: u64::MAX, nanos: 999_999_999 });
    assert_eq!(grid.lava_rows, 8);
    grid.player = Pos { x: 7, y: 0 };
    assert!(!grid.player_in_lava());
    grid.lava = false;
    grid.player = Pos { x: 7, y: 8 };
    assert!(!grid.player_in_lava());
}

#[test]
fn lava_without_a_rhythm_stays() {
    let mut spec = small(true, false);
    spec.lava_interval_ms = None;
    let mut grid = GridState::from_spec(&spec, 7);
    grid.update_lava(Duration::from_millis(1_000_000));
    assert_eq!(grid.lava_rows, 1);
    assert_eq!(grid.lava_status("1.0"), None);
    assert_eq!(grid.lava_remaining_ms(Duration::from_millis(5)), None);
    spec.lava_interval_ms = Some(0);
    let mut quick = GridState::from_spec(&spec, 7);
    quick.update_lava(Duration::from_millis(3));
    assert_eq!(quick.lava_rows, 4);
    assert_eq!(quick.lava_remaining_ms(Duration::from_millis(3)), Some(1));
}

#[test]
fn lava_tells_when_it_rises() {
    let grid = GridState::from_spec(&small(true, false), 7);
    assert_eq!(grid.lava_remaining_ms(Duration::from_millis(0)), Some(1_000));
    assert_eq!(grid.lava_remaining_ms(Duration::from_millis(2_300)), Some(700));
    assert_eq!(
        grid.lava_status("0.7").unwrap(),
        " | Lava: 1 rows, next rise in 0.7s"
    );
}

#[test]
fn the_generator_gives_known_numbers() {
    let mut rng = Lcg::new(7);
    assert_eq!(rng.next(), 9098160460397411210);
    assert_eq!(rng.next(), 17628806926561717905);
    assert_eq!(rng.next(), 16723372171710603212);
    let mut rng = Lcg::new(7);
    let drawn: Vec<usize> = (0..5).map(|_| rng.range(10)).collect();
    assert_eq!(drawn, vec![0, 5, 2, 3, 4]);
    assert_eq!(rng.range(0), 0);
    let mut zero = Lcg::new(0);
    assert_eq!(zero.next(), 7806831264735756412);
    assert_eq!(zero.next() % 2, 1);
}

#[test]
fn spans_keep_their_milliseconds() {
    let span = Duration::from_millis(61_234);
    assert_eq!(span, Duration { secs: 61, nanos: 234_000_000 });
    assert_eq!(span.as_millis(), 61_234);
    assert_eq!(span.as_secs(), 61);
    assert_eq!(Duration { secs: u64::MAX, nanos: 999_999_999 }.as_millis(), 18446744073709551615999);
}

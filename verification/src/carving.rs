//! What a seed carves, cell by cell.

use crate::grid;
use crate::grid::{GridView, Tile};
use crate::level::GridSpec;
use crate::maze;
use crate::maze::Corridor;
use crate::pos::Pos;
use crate::reach;
use crate::rng;
use vstd::prelude::*;

verus! {

proof fn lemma_small_draw(state: u64)
    ensures
        rng::range_value(state, 4) == rng::next_state(state) % 4,
{
    let n = rng::next_state(state);
    assert((n as usize) % 4 == n % 4) by (bit_vector);
}

/// One leg of the corridor goes up its column by two to five rows, as the next number of
/// the generator says, but not past the goal's row; it then goes along that row to the
/// goal's column, where the goal is close, and to a drawn one elsewhere. It opens exactly
/// the cells that it goes over.
pub proof fn a_leg_climbs_and_turns(c: Corridor, goal: Pos, width: nat, x: int, y: int)
    requires
        c.y > goal.y,
        2 <= width <= usize::MAX,
        0 <= y < c.tiles.len(),
        0 <= x < c.tiles[y].len(),
    ensures
        ({
            let one = rng::next_state(c.state);
            let two = rng::next_state(one);
            let top = if c.y - (2 + one % 4) < goal.y {
                goal.y as int
            } else {
                c.y - (2 + one % 4)
            };
            let close = top <= goal.y + 1;
            let column = if close {
                goal.x as int
            } else if width == 2 {
                1
            } else {
                1 + (two as usize) as int % (width - 2)
            };
            let next = c.next(goal, width);
            &&& next.y == top
            &&& next.x == column
            &&& next.state == if close || width == 2 {
                one
            } else {
                two
            }
            &&& next.tiles.len() == c.tiles.len()
            &&& next.tiles[y].len() == c.tiles[y].len()
            &&& next.tiles[y][x] == if (x == c.x && top <= y < c.y) || (y == top && (c.x <= x <= column
                || column <= x <= c.x)) {
                Tile::Floor
            } else {
                c.tiles[y][x]
            }
        }),
{
    lemma_small_draw(c.state);
}

/// The corridor takes one leg after the other until it has come to the goal's row.
pub proof fn legs_lead_to_the_goals_row(c: Corridor, goal: Pos, width: nat)
    ensures
        c.y <= goal.y ==> c.climbed(goal, width) == c,
        c.y > goal.y ==> c.climbed(goal, width) == c.next(goal, width).climbed(goal, width),
        c.y >= goal.y ==> c.climbed(goal, width).y == goal.y,
    decreases c.y - goal.y,
{
    if c.y > goal.y {
        legs_lead_to_the_goals_row(c.next(goal, width), goal, width);
    }
}

/// A side room runs from a cell of floor along its row, as long as it is asked to be but
/// not onto the border, and opens no other cell.
pub proof fn a_room_runs_along_its_row(
    tiles: Seq<Seq<Tile>>,
    x: int,
    y: int,
    right: bool,
    len: nat,
    width: int,
)
    requires
        0 <= y < tiles.len(),
        1 <= x <= width - 2,
        width == tiles[y].len(),
        tiles[y][x] == Tile::Floor,
    ensures
        ({
            let after = maze::with_room(tiles, x, y, right, len, width);
            &&& after.len() == tiles.len()
            &&& forall|j: int| 0 <= j < tiles.len() ==> (#[trigger] after[j]).len() == tiles[j].len()
            &&& forall|i: int, j: int|
                0 <= j < tiles.len() && 0 <= i < tiles[j].len() ==> #[trigger] after[j][i] == if j == y
                    && 1 <= i <= width - 2 && (if right {
                    x <= i <= x + len
                } else {
                    x - len <= i <= x
                }) {
                    Tile::Floor
                } else {
                    tiles[j][i]
                }
        }),
    decreases len,
{
    if len > 0 {
        let next = if right {
            if x + 1 < width - 2 {
                x + 1
            } else {
                width - 2
            }
        } else if x > 1 {
            x - 1
        } else {
            1
        };
        let opened = maze::opened(tiles, next, y);
        a_room_runs_along_its_row(opened, next, y, right, (len - 1) as nat, width);
        let after = maze::with_room(tiles, x, y, right, len, width);
        assert(after == maze::with_room(opened, next, y, right, (len - 1) as nat, width));
        assert forall|j: int| 0 <= j < tiles.len() implies (#[trigger] after[j]).len()
            == tiles[j].len() by {
            assert(opened[j].len() == tiles[j].len());
        }
        assert forall|i: int, j: int|
            0 <= j < tiles.len() && 0 <= i < tiles[j].len() implies #[trigger] after[j][i] == if j
            == y && 1 <= i <= width - 2 && (if right {
            x <= i <= x + len
        } else {
            x - len <= i <= x
        }) {
            Tile::Floor
        } else {
            tiles[j][i]
        } by {
            assert(opened[j].len() == tiles[j].len());
            assert(opened[j][i] == if i == next && j == y {
                Tile::Floor
            } else {
                tiles[j][i]
            });
        }
    }
}

/// An attempt at a side room draws a row and a column off the border. Where that cell is
/// wall nothing happens; where it is floor, the length (one to four) and the direction are
/// drawn, and the room is opened.
pub proof fn rooms_are_tried_one_by_one(
    tiles: Seq<Seq<Tile>>,
    state: u64,
    count: nat,
    width: nat,
    height: nat,
)
    requires
        2 < width <= usize::MAX,
        2 < height <= usize::MAX,
    ensures
        maze::with_rooms(tiles, state, 0, width, height) == tiles,
        ({
            let one = rng::next_state(state);
            let two = rng::next_state(one);
            let three = rng::next_state(two);
            let four = rng::next_state(three);
            let y = 1 + (one as usize) as int % (height - 2);
            let x = 1 + (two as usize) as int % (width - 2);
            maze::with_rooms(tiles, state, count + 1, width, height) == if tiles[y][x]
                == Tile::Floor {
                maze::with_rooms(
                    maze::with_room(
                        tiles,
                        x,
                        y,
                        four % 2 == 0,
                        (1 + three % 4) as nat,
                        width as int,
                    ),
                    four,
                    count,
                    width,
                    height,
                )
            } else {
                maze::with_rooms(tiles, two, count, width, height)
            }
        }),
{
    lemma_small_draw(rng::next_state(rng::next_state(state)));
}

/// `tiles` is solid wall of this size but for the cell at `start`.
pub open spec fn solid_but_for(tiles: Seq<Seq<Tile>>, start: Pos, width: nat, height: nat) -> bool {
    &&& tiles.len() == height
    &&& forall|y: int| 0 <= y < height ==> (#[trigger] tiles[y]).len() == width
    &&& forall|x: int, y: int|
        0 <= x < width && 0 <= y < height ==> #[trigger] tiles[y][x] == if x == start.x && y
            == start.y {
            Tile::Floor
        } else {
            Tile::Wall
        }
}

/// `after` is `before` with row `y` opened from column `a` to column `b`.
pub open spec fn opened_between(
    before: Seq<Seq<Tile>>,
    after: Seq<Seq<Tile>>,
    y: int,
    a: int,
    b: int,
) -> bool {
    &&& after.len() == before.len()
    &&& forall|j: int| 0 <= j < before.len() ==> (#[trigger] after[j]).len() == before[j].len()
    &&& forall|i: int, j: int|
        0 <= j < before.len() && 0 <= i < before[j].len() ==> #[trigger] after[j][i] == if j == y && (
        a <= i <= b || b <= i <= a) {
            Tile::Floor
        } else {
            before[j][i]
        }
}

/// The maze of a generated level: a corridor from the start, in solid wall, with the numbers
/// of the level's own seed; then along the goal's row to the goal; then eight attempts at a
/// side room, or sixteen for mastery, with the numbers that follow.
pub proof fn a_maze_is_a_corridor_with_rooms(
    spec: GridSpec,
    seed: u64,
    solid: Seq<Seq<Tile>>,
    passage: Seq<Seq<Tile>>,
)
    requires
        spec.wf(),
        spec.generated,
        spec.goal.y <= spec.start.y,
        solid_but_for(solid, spec.start, spec.width as nat, spec.height as nat),
        ({
            let up = (Corridor {
                tiles: solid,
                state: if seed == 0 {
                    1
                } else {
                    seed
                },
                x: spec.start.x as int,
                y: spec.start.y as int,
            }).climbed(spec.goal, spec.width as nat);
            opened_between(up.tiles, passage, spec.goal.y as int, up.x, spec.goal.x as int)
        }),
    ensures
        ({
            let up = (Corridor {
                tiles: solid,
                state: if seed == 0 {
                    1
                } else {
                    seed
                },
                x: spec.start.x as int,
                y: spec.start.y as int,
            }).climbed(spec.goal, spec.width as nat);
            maze::laid_out(spec, seed) == maze::with_rooms(
                passage,
                up.state,
                if spec.mastery {
                    16
                } else {
                    8
                },
                spec.width as nat,
                spec.height as nat,
            )
        }),
{
    let width = spec.width as nat;
    let height = spec.height as nat;
    let start = spec.start;
    let goal = spec.goal;
    let base = maze::bordered(width, height);
    assert(base[0].len() == width);
    let walls = maze::filled(base, 1, width - 1, 1, height - 1, Tile::Wall);
    let opened = maze::opened(walls, start.x as int, start.y as int);
    assert(walls[0].len() == width);
    assert forall|y: int| 0 <= y < height implies #[trigger] opened[y] =~= solid[y] by {
        assert(walls[y].len() == width);
        assert forall|x: int| 0 <= x < width implies opened[y][x] == solid[y][x] by {
            assert(walls[y][x] == Tile::Wall);
        }
    }
    assert(opened =~= solid);
    let first = Corridor {
        tiles: solid,
        state: rng::first_state(seed),
        x: start.x as int,
        y: start.y as int,
    };
    let up = first.climbed(goal, width);
    legs_lead_to_the_goals_row(first, goal, width);
    reach::lemma_climbed_keeps_floor(first, goal, width, height);
    let along = maze::opened_along(up.tiles, up.y, up.x, goal.x as int);
    let marked = maze::opened(along, goal.x as int, goal.y as int);
    assert(up.tiles[goal.y as int].len() == width);
    assert forall|j: int| 0 <= j < height implies #[trigger] marked[j] =~= passage[j] by {
        assert(up.tiles[j].len() == width);
        assert(along[j].len() == width);
        assert forall|i: int| 0 <= i < width implies marked[j][i] == passage[j][i] by {
            assert(along[j][i] == if j == up.y && (up.x < i <= goal.x || goal.x <= i < up.x) {
                Tile::Floor
            } else {
                up.tiles[j][i]
            });
            if j == up.y && i == up.x {
                assert(up.tiles[j][i] == Tile::Floor);
            }
        }
    }
    assert(marked =~= passage);
    let count: nat = if spec.mastery {
        16
    } else {
        8
    };
    reach::lemma_rooms(marked, up.state, count, width, height);
    let carved = maze::with_rooms(marked, up.state, count, width, height);
    assert(carved == maze::maze(base, start, goal, seed, spec.mastery));
    assert(grid::floor_at(solid, start.x as int, start.y as int));
    assert(grid::floor_at(up.tiles, start.x as int, start.y as int));
    assert(marked[start.y as int].len() == width);
    assert(up.tiles[start.y as int].len() == width);
    assert(along[start.y as int].len() == width);
    assert(grid::floor_at(marked, start.x as int, start.y as int));
    assert(grid::floor_at(marked, goal.x as int, goal.y as int));
    assert(grid::floor_at(carved, start.x as int, start.y as int));
    assert(grid::floor_at(carved, goal.x as int, goal.y as int));
    let laid = maze::laid_out(spec, seed);
    assert forall|j: int| 0 <= j < height implies #[trigger] laid[j] =~= carved[j] by {
        assert(carved[j].len() == width);
    }
    assert(laid =~= carved);
}

/// A tutorial level is open floor inside a border of wall, with one wall across its fourth
/// row that leaves two columns on both sides and the seventh column; its start and goal are
/// floor.
pub proof fn a_tutorial_has_one_wall(spec: GridSpec, seed: u64, x: int, y: int)
    requires
        spec.wf(),
        !spec.generated,
        0 <= x < spec.width,
        0 <= y < spec.height,
    ensures
        ({
            let tiles = maze::laid_out(spec, seed);
            &&& tiles.len() == spec.height
            &&& tiles[y].len() == spec.width
            &&& tiles[y][x] == if (x == spec.start.x && y == spec.start.y) || (x == spec.goal.x && y
                == spec.goal.y) {
                Tile::Floor
            } else if x == 0 || y == 0 || x + 1 == spec.width || y + 1 == spec.height {
                Tile::Wall
            } else if y == 3 && 3 <= x && x + 3 < spec.width && x != 6 {
                Tile::Wall
            } else {
                Tile::Floor
            }
        }),
{
}

/// The cells on the border are wall.
pub open spec fn walled(tiles: Seq<Seq<Tile>>, width: int, height: int) -> bool {
    &&& tiles.len() == height
    &&& forall|y: int| 0 <= y < height ==> (#[trigger] tiles[y]).len() == width
    &&& forall|x: int, y: int|
        0 <= x < width && 0 <= y < height && (x == 0 || y == 0 || x == width - 1 || y == height - 1)
            ==> #[trigger] tiles[y][x] == Tile::Wall
}

proof fn lemma_filled_walled(
    tiles: Seq<Seq<Tile>>,
    x0: int,
    x1: int,
    y0: int,
    y1: int,
    width: int,
    height: int,
)
    requires
        walled(tiles, width, height),
        1 <= x0,
        x1 <= width - 1,
        1 <= y0,
        y1 <= height - 1,
    ensures
        walled(maze::filled(tiles, x0, x1, y0, y1, Tile::Floor), width, height),
{
    let after = maze::filled(tiles, x0, x1, y0, y1, Tile::Floor);
    assert forall|x: int, y: int|
        0 <= x < width && 0 <= y < height && (x == 0 || y == 0 || x == width - 1 || y == height
            - 1) implies #[trigger] after[y][x] == Tile::Wall by {
        assert(tiles[y].len() == width);
        assert(tiles[y][x] == Tile::Wall);
    }
}

proof fn lemma_climbed_walled(c: Corridor, goal: Pos, width: nat, height: nat)
    requires
        3 <= width <= usize::MAX,
        walled(c.tiles, width as int, height as int),
        1 <= c.x <= width - 2,
        1 <= goal.y <= c.y <= height - 2,
        1 <= goal.x <= width - 2,
    ensures
        walled(c.climbed(goal, width).tiles, width as int, height as int),
        1 <= c.climbed(goal, width).x <= width - 2,
        c.climbed(goal, width).y == goal.y,
    decreases c.y - goal.y,
{
    if c.y > goal.y {
        let n = c.next(goal, width);
        let top = c.y - c.rise(goal);
        let mid = maze::filled(c.tiles, c.x, c.x + 1, top, c.y, Tile::Floor);
        lemma_filled_walled(c.tiles, c.x, c.x + 1, top, c.y, width as int, height as int);
        rng::draws_are_remainders(rng::state_after_range(c.state, 4), maze::inner(width));
        if c.x < n.x {
            lemma_filled_walled(mid, c.x + 1, n.x + 1, top, top + 1, width as int, height as int);
        } else {
            lemma_filled_walled(mid, n.x, c.x, top, top + 1, width as int, height as int);
        }
        lemma_climbed_walled(n, goal, width, height);
    }
}

proof fn lemma_room_walled(
    tiles: Seq<Seq<Tile>>,
    x: int,
    y: int,
    right: bool,
    len: nat,
    width: int,
    height: int,
)
    requires
        3 <= width,
        walled(tiles, width, height),
        1 <= x <= width - 2,
        1 <= y <= height - 2,
    ensures
        walled(maze::with_room(tiles, x, y, right, len, width), width, height),
    decreases len,
{
    if len > 0 {
        let next = if right {
            if x + 1 < width - 2 {
                x + 1
            } else {
                width - 2
            }
        } else if x > 1 {
            x - 1
        } else {
            1
        };
        lemma_filled_walled(tiles, next, next + 1, y, y + 1, width, height);
        lemma_room_walled(
            maze::opened(tiles, next, y),
            next,
            y,
            right,
            (len - 1) as nat,
            width,
            height,
        );
    }
}

proof fn lemma_rooms_walled(tiles: Seq<Seq<Tile>>, state: u64, count: nat, width: nat, height: nat)
    requires
        3 <= width <= usize::MAX,
        3 <= height <= usize::MAX,
        walled(tiles, width as int, height as int),
    ensures
        walled(maze::with_rooms(tiles, state, count, width, height), width as int, height as int),
    decreases count,
{
    if count > 0 {
        rng::draws_are_remainders(state, maze::inner(height));
        let y = 1 + rng::range_value(state, maze::inner(height)) as int;
        let state = rng::state_after_range(state, maze::inner(height));
        rng::draws_are_remainders(state, maze::inner(width));
        let x = 1 + rng::range_value(state, maze::inner(width)) as int;
        let state = rng::state_after_range(state, maze::inner(width));
        if tiles[y][x] == Tile::Floor {
            let len = 1 + rng::range_value(state, 4);
            let state = rng::next_state(rng::state_after_range(state, 4));
            lemma_room_walled(tiles, x, y, state % 2 == 0, len, width as int, height as int);
            let room = maze::with_room(tiles, x, y, state % 2 == 0, len, width as int);
            lemma_rooms_walled(room, state, (count - 1) as nat, width, height);
        } else {
            lemma_rooms_walled(tiles, state, (count - 1) as nat, width, height);
        }
    }
}

/// A maze whose start and goal lie off the border never opens the border: no motion leads
/// out of it.
pub proof fn mazes_are_closed(spec: GridSpec, seed: u64)
    requires
        spec.generated,
        3 <= spec.width,
        3 <= spec.height,
        1 <= spec.start.x <= spec.width - 2,
        1 <= spec.goal.x <= spec.width - 2,
        1 <= spec.goal.y <= spec.start.y <= spec.height - 2,
    ensures
        walled(maze::laid_out(spec, seed), spec.width as int, spec.height as int),
{
    let width = spec.width as nat;
    let height = spec.height as nat;
    let w = width as int;
    let h = height as int;
    let start = spec.start;
    let goal = spec.goal;
    let base = maze::bordered(width, height);
    assert(base[0].len() == width);
    let walls = maze::filled(base, 1, width - 1, 1, height - 1, Tile::Wall);
    assert(walls[0].len() == width);
    assert(walled(walls, w, h));
    lemma_filled_walled(walls, start.x as int, start.x + 1, start.y as int, start.y + 1, w, h);
    let first = Corridor {
        tiles: maze::opened(walls, start.x as int, start.y as int),
        state: rng::first_state(seed),
        x: start.x as int,
        y: start.y as int,
    };
    lemma_climbed_walled(first, goal, width, height);
    let up = first.climbed(goal, width);
    if up.x < goal.x {
        lemma_filled_walled(up.tiles, up.x + 1, goal.x + 1, up.y, up.y + 1, w, h);
    } else {
        lemma_filled_walled(up.tiles, goal.x as int, up.x, up.y, up.y + 1, w, h);
    }
    let along = maze::opened_along(up.tiles, up.y, up.x, goal.x as int);
    lemma_filled_walled(along, goal.x as int, goal.x + 1, goal.y as int, goal.y + 1, w, h);
    let marked = maze::opened(along, goal.x as int, goal.y as int);
    let count: nat = if spec.mastery {
        16
    } else {
        8
    };
    lemma_rooms_walled(marked, up.state, count, width, height);
    let carved = maze::with_rooms(marked, up.state, count, width, height);
    assert(carved == maze::maze(base, start, goal, seed, spec.mastery));
    lemma_filled_walled(carved, start.x as int, start.x + 1, start.y as int, start.y + 1, w, h);
    let once = maze::opened(carved, start.x as int, start.y as int);
    lemma_filled_walled(once, goal.x as int, goal.x + 1, goal.y as int, goal.y + 1, w, h);
}

/// A grid level starts with the maze of its own seed, the player on the start, and one row
/// of lava if there is lava at all.
pub proof fn grid_levels_start_from_their_seed(spec: GridSpec, seed: u64)
    ensures
        ({
            let grid = GridView::of_spec(spec, seed);
            &&& grid.tiles == maze::laid_out(spec, seed)
            &&& grid.player == spec.start
            &&& grid.goal == spec.goal
            &&& grid.command_budget == spec.command_budget
            &&& grid.lava == spec.lava
            &&& grid.lava_rows == if spec.lava {
                1int
            } else {
                0
            }
            &&& spec.lava_interval_ms is None <==> grid.lava_interval is None
            &&& spec.lava_interval_ms matches Some(ms) ==> (grid.lava_interval matches Some(interval)
                && interval.secs == ms / 1000 && interval.nanos == ms % 1000 * 1_000_000)
        }),
{
}

/// The first leg of a maze follows from its seed: from the start straight up by two to five
/// rows, as the seed's remainder by four says, and along that row to the column that the second
/// number of the generator says. All of that is floor, whatever is carved later.
pub proof fn the_first_leg_follows_from_the_seed(spec: GridSpec, seed: u64, x: int, y: int)
    requires
        spec.wf(),
        spec.generated,
        seed > 0,
        spec.width > 2,
        spec.goal.y + 6 < spec.start.y,
        ({
            let top = spec.start.y - (2 + (seed + 3) % 4);
            let column = 1 + (rng::next_state(rng::next_state(seed)) as usize) as int % (spec.width
                - 2);
            (x == spec.start.x && top <= y <= spec.start.y) || (y == top && (spec.start.x <= x
                <= column || column <= x <= spec.start.x))
        }),
    ensures
        maze::laid_out(spec, seed)[y][x] == Tile::Floor,
{
    let width = spec.width as nat;
    let height = spec.height as nat;
    let start = spec.start;
    let goal = spec.goal;
    rng::remainders_by_four_count_down(seed);
    lemma_shift_by_three(seed as int);
    let solid = Seq::new(
        height,
        |j: int|
            Seq::new(
                width,
                |i: int|
                    if i == start.x && j == start.y {
                        Tile::Floor
                    } else {
                        Tile::Wall
                    },
            ),
    );
    assert(solid_but_for(solid, start, width, height));
    let first = Corridor { tiles: solid, state: seed, x: start.x as int, y: start.y as int };
    let next = first.next(goal, width);
    let up = first.climbed(goal, width);
    legs_lead_to_the_goals_row(first, goal, width);
    let column = 1 + (rng::next_state(rng::next_state(seed)) as usize) as int % (spec.width - 2);
    vstd::arithmetic::div_mod::lemma_mod_bound(
        (rng::next_state(rng::next_state(seed)) as usize) as int,
        spec.width - 2,
    );
    assert(0 <= y < height && 0 <= x < width);
    a_leg_climbs_and_turns(first, goal, width, x, y);
    assert(next.tiles[y][x] == Tile::Floor);
    assert(grid::has_size(next.tiles, width as int, height as int)) by {
        assert forall|j: int| 0 <= j < height implies (#[trigger] next.tiles[j]).len() == width by {
            assert(solid[j].len() == width);
        }
    }
    a_leg_climbs_and_turns(first, goal, width, next.x, next.y);
    assert(grid::floor_at(next.tiles, next.x, next.y));
    reach::lemma_climbed_keeps_floor(next, goal, width, height);
    assert(grid::floor_at(next.tiles, x, y));
    assert(grid::floor_at(up.tiles, x, y));
    let passage = Seq::new(
        height,
        |j: int|
            Seq::new(
                width,
                |i: int|
                    if j == goal.y && (up.x <= i <= goal.x || goal.x <= i <= up.x) {
                        Tile::Floor
                    } else {
                        up.tiles[j][i]
                    },
            ),
    );
    assert forall|j: int| 0 <= j < up.tiles.len() implies (#[trigger] passage[j]).len()
        == up.tiles[j].len() by {}
    assert(opened_between(up.tiles, passage, goal.y as int, up.x, goal.x as int));
    a_maze_is_a_corridor_with_rooms(spec, seed, solid, passage);
    assert(grid::has_size(passage, width as int, height as int));
    assert(passage[y][x] == Tile::Floor);
    assert(grid::floor_at(passage, x, y));
    let count: nat = if spec.mastery {
        16
    } else {
        8
    };
    reach::lemma_rooms(passage, up.state, count, width, height);
    assert(grid::floor_at(maze::with_rooms(passage, up.state, count, width, height), x, y));
}

proof fn lemma_shift_by_three(n: int)
    ensures
        0 <= (n + 3) % 4 <= 3,
{
}

/// What stood inside the border does not matter to a maze: grids of one size that agree on
/// their borders are carved alike.
pub proof fn what_stood_inside_is_carved_away(
    one: Seq<Seq<Tile>>,
    other: Seq<Seq<Tile>>,
    start: Pos,
    goal: Pos,
    seed: u64,
    mastery: bool,
)
    requires
        one.len() == other.len(),
        one.len() > 0,
        forall|y: int|
            0 <= y < one.len() ==> (#[trigger] one[y]).len() == one[0].len() && other[y].len()
                == one[0].len(),
        forall|x: int, y: int|
            0 <= y < one.len() && 0 <= x < one[0].len() && (x == 0 || y == 0 || x + 1
                == one[0].len() || y + 1 == one.len()) ==> #[trigger] one[y][x] == other[y][x],
    ensures
        maze::maze(one, start, goal, seed, mastery) == maze::maze(other, start, goal, seed, mastery),
{
    let width = one[0].len();
    let height = one.len();
    let solid = maze::filled(one, 1, width - 1, 1, height - 1, Tile::Wall);
    let same = maze::filled(other, 1, width - 1, 1, height - 1, Tile::Wall);
    assert(other[0].len() == width);
    assert forall|y: int| 0 <= y < height implies #[trigger] solid[y] =~= same[y] by {
        assert(one[y].len() == width);
        assert forall|x: int| 0 <= x < width implies solid[y][x] == same[y][x] by {
            if !(1 <= x < width - 1 && 1 <= y < height - 1) {
                assert(one[y][x] == other[y][x]);
            }
        }
    }
    assert(solid =~= same);
}

/// Where the goal lies below the start nothing is climbed: the row of the start is opened up
/// to the goal's column, the goal is opened by itself, and the attempts at side rooms follow
/// with the numbers of the level's own seed.
pub proof fn a_goal_below_is_opened_by_itself(
    spec: GridSpec,
    seed: u64,
    passage: Seq<Seq<Tile>>,
)
    requires
        spec.wf(),
        spec.generated,
        spec.goal.y > spec.start.y,
        passage.len() == spec.height,
        forall|y: int| 0 <= y < spec.height ==> (#[trigger] passage[y]).len() == spec.width,
        forall|x: int, y: int|
            0 <= x < spec.width && 0 <= y < spec.height ==> #[trigger] passage[y][x] == if (y
                == spec.start.y && (spec.start.x <= x <= spec.goal.x || spec.goal.x <= x
                <= spec.start.x)) || (x == spec.goal.x && y == spec.goal.y) {
                Tile::Floor
            } else {
                Tile::Wall
            },
    ensures
        maze::laid_out(spec, seed) == maze::with_rooms(
            passage,
            if seed == 0 {
                1
            } else {
                seed
            },
            if spec.mastery {
                16
            } else {
                8
            },
            spec.width as nat,
            spec.height as nat,
        ),
{
    let width = spec.width as nat;
    let height = spec.height as nat;
    let start = spec.start;
    let goal = spec.goal;
    let base = maze::bordered(width, height);
    assert(base[0].len() == width);
    let walls = maze::filled(base, 1, width - 1, 1, height - 1, Tile::Wall);
    let opened = maze::opened(walls, start.x as int, start.y as int);
    assert(walls[0].len() == width);
    let along = maze::opened_along(opened, start.y as int, start.x as int, goal.x as int);
    let marked = maze::opened(along, goal.x as int, goal.y as int);
    assert forall|j: int| 0 <= j < height implies #[trigger] marked[j] =~= passage[j] by {
        assert(walls[j].len() == width);
        assert(opened[j].len() == width);
        assert(along[j].len() == width);
        assert(passage[j].len() == width);
        assert forall|i: int| 0 <= i < width implies marked[j][i] == passage[j][i] by {
            assert(walls[j][i] == Tile::Wall);
            assert(opened[j][i] == if i == start.x && j == start.y {
                Tile::Floor
            } else {
                Tile::Wall
            });
        }
    }
    assert(marked =~= passage);
    let count: nat = if spec.mastery {
        16
    } else {
        8
    };
    let state = rng::first_state(seed);
    let first = Corridor { tiles: opened, state, x: start.x as int, y: start.y as int };
    assert(first.climbed(goal, width) == first);
    assert forall|j: int| 0 <= j < height implies (#[trigger] passage[j]).len() == width by {}
    reach::lemma_rooms(passage, state, count, width, height);
    let carved = maze::with_rooms(passage, state, count, width, height);
    assert(carved == maze::maze(base, start, goal, seed, spec.mastery));
    assert(passage[start.y as int].len() == width && passage[goal.y as int].len() == width);
    assert(grid::floor_at(passage, start.x as int, start.y as int));
    assert(grid::floor_at(passage, goal.x as int, goal.y as int));
    assert(grid::floor_at(carved, start.x as int, start.y as int));
    assert(grid::floor_at(carved, goal.x as int, goal.y as int));
    let laid = maze::laid_out(spec, seed);
    assert forall|j: int| 0 <= j < height implies #[trigger] laid[j] =~= carved[j] by {
        assert(carved[j].len() == width);
    }
    assert(laid =~= carved);
}

} // verus!

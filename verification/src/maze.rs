//! Laying out the tiles of a grid level.
//!
//! A generated grid starts as solid wall. A corridor is carved from the start up
//! to the row of the goal and along it, in stretches long enough for counts to
//! pay off, and side rooms are then opened off what is already floor. The seed
//! decides every choice.

use crate::grid;
use crate::grid::Tile;
use crate::level::GridSpec;
use crate::pos::Pos;
use crate::rng;
use crate::rng::Lcg;
use vstd::prelude::*;

verus! {

/// The tiles with the cells in columns `x0` up to `x1` of rows `y0` up to `y1`
/// turned to `tile`.
pub open spec fn filled(
    tiles: Seq<Seq<Tile>>,
    x0: int,
    x1: int,
    y0: int,
    y1: int,
    tile: Tile,
) -> Seq<Seq<Tile>> {
    Seq::new(
        tiles.len(),
        |y: int|
            Seq::new(
                tiles[y].len(),
                |x: int|
                    if x0 <= x < x1 && y0 <= y < y1 {
                        tile
                    } else {
                        tiles[y][x]
                    },
            ),
    )
}

/// The tiles with one cell turned to floor.
pub open spec fn opened(tiles: Seq<Seq<Tile>>, x: int, y: int) -> Seq<Seq<Tile>> {
    filled(tiles, x, x + 1, y, y + 1, Tile::Floor)
}

/// The tiles with the cells after column `from` up to and with column `to`, in
/// either direction, turned to floor.
pub open spec fn opened_along(tiles: Seq<Seq<Tile>>, y: int, from: int, to: int) -> Seq<Seq<Tile>> {
    if from < to {
        filled(tiles, from + 1, to + 1, y, y + 1, Tile::Floor)
    } else {
        filled(tiles, to, from, y, y + 1, Tile::Floor)
    }
}

/// `n` less two, or zero.
pub open spec fn inner(n: nat) -> nat {
    if n < 2 {
        0
    } else {
        (n - 2) as nat
    }
}

/// A corridor being carved: the tiles, the state of the generator, and the column
/// and row that the corridor has reached.
#[verifier::ext_equal]
pub struct Corridor {
    pub tiles: Seq<Seq<Tile>>,
    pub state: u64,
    pub x: int,
    pub y: int,
}

impl Corridor {
    /// How many rows the next climb takes: two to five, but not past the goal.
    pub open spec fn rise(self, goal: Pos) -> int {
        let drawn = 2 + rng::range_value(self.state, 4) as int;
        if self.y - goal.y < drawn {
            self.y - goal.y
        } else {
            drawn
        }
    }

    /// The corridor after one climb and one stretch along the row it led to. Close
    /// to the goal the stretch leads to the goal's column, and elsewhere to a drawn
    /// one.
    pub open spec fn next(self, goal: Pos, width: nat) -> Corridor {
        let top = self.y - self.rise(goal);
        let tiles = filled(self.tiles, self.x, self.x + 1, top, self.y, Tile::Floor);
        let state = rng::state_after_range(self.state, 4);
        let near = top <= goal.y + 1;
        let x = if near {
            goal.x as int
        } else {
            1 + rng::range_value(state, inner(width)) as int
        };
        Corridor {
            tiles: opened_along(tiles, top, self.x, x),
            state: if near {
                state
            } else {
                rng::state_after_range(state, inner(width))
            },
            x,
            y: top,
        }
    }

    /// The corridor once it has reached the row of the goal.
    pub open spec fn climbed(self, goal: Pos, width: nat) -> Corridor
        decreases self.y - goal.y,
    {
        if self.y <= goal.y {
            self
        } else {
            self.next(goal, width).climbed(goal, width)
        }
    }
}

/// The tiles with a side room of `len` cells opened from column `x` of row `y`,
/// kept off the first and the last column.
pub open spec fn with_room(
    tiles: Seq<Seq<Tile>>,
    x: int,
    y: int,
    right: bool,
    len: nat,
    width: int,
) -> Seq<Seq<Tile>>
    decreases len,
{
    if len == 0 {
        tiles
    } else {
        let next = if right {
            if x + 1 < width - 2 {
                x + 1
            } else {
                width - 2
            }
        } else if x > 1 {
            x - 1
        } else {
            1
        };
        with_room(opened(tiles, next, y), next, y, right, (len - 1) as nat, width)
    }
}

/// The tiles after `count` attempts at a side room. An attempt draws a cell, and
/// opens a room from it if the cell is floor.
pub open spec fn with_rooms(
    tiles: Seq<Seq<Tile>>,
    state: u64,
    count: nat,
    width: nat,
    height: nat,
) -> Seq<Seq<Tile>>
    decreases count,
{
    if count == 0 {
        tiles
    } else {
        let y = 1 + rng::range_value(state, inner(height)) as int;
        let state = rng::state_after_range(state, inner(height));
        let x = 1 + rng::range_value(state, inner(width)) as int;
        let state = rng::state_after_range(state, inner(width));
        if tiles[y][x] == Tile::Floor {
            let len = 1 + rng::range_value(state, 4);
            let state = rng::state_after_range(state, 4);
            let state = rng::next_state(state);
            let room = with_room(tiles, x, y, state % 2 == 0, len, width as int);
            with_rooms(room, state, (count - 1) as nat, width, height)
        } else {
            with_rooms(tiles, state, (count - 1) as nat, width, height)
        }
    }
}

/// The corridor from `start` up to the row of `goal` and along it.
pub open spec fn corridor(tiles: Seq<Seq<Tile>>, start: Pos, goal: Pos, seed: u64) -> Corridor {
    let first = Corridor {
        tiles: opened(tiles, start.x as int, start.y as int),
        state: rng::first_state(seed),
        x: start.x as int,
        y: start.y as int,
    };
    let up = first.climbed(goal, tiles[0].len());
    Corridor { tiles: opened_along(up.tiles, up.y, up.x, goal.x as int), x: goal.x as int, ..up }
}

/// The maze that a seed carves into `tiles`.
pub open spec fn maze(
    tiles: Seq<Seq<Tile>>,
    start: Pos,
    goal: Pos,
    seed: u64,
    mastery: bool,
) -> Seq<Seq<Tile>> {
    let width = tiles[0].len();
    let height = tiles.len();
    let solid = filled(tiles, 1, width - 1, 1, height - 1, Tile::Wall);
    let passage = corridor(solid, start, goal, seed);
    with_rooms(
        opened(passage.tiles, goal.x as int, goal.y as int),
        passage.state,
        if mastery {
            16
        } else {
            8
        },
        width,
        height,
    )
}

/// Floor inside a border of wall.
pub open spec fn bordered(width: nat, height: nat) -> Seq<Seq<Tile>> {
    Seq::new(
        height,
        |y: int|
            Seq::new(
                width,
                |x: int|
                    if x == 0 || y == 0 || x == width - 1 || y == height - 1 {
                        Tile::Wall
                    } else {
                        Tile::Floor
                    },
            ),
    )
}

/// The tutorial's grid: one long wall across row three, with a gap in column six
/// and at both ends.
pub open spec fn tutorial(width: nat, height: nat) -> Seq<Seq<Tile>> {
    let open = bordered(width, height);
    Seq::new(
        height,
        |y: int|
            Seq::new(
                width,
                |x: int|
                    if y == 3 && 3 <= x < width - 3 && x != 6 {
                        Tile::Wall
                    } else {
                        open[y][x]
                    },
            ),
    )
}

/// The tiles of a level for a seed. Start and goal are always floor.
pub open spec fn laid_out(spec: GridSpec, seed: u64) -> Seq<Seq<Tile>> {
    let width = spec.width as nat;
    let height = spec.height as nat;
    let tiles = if spec.generated {
        maze(bordered(width, height), spec.start, spec.goal, seed, spec.mastery)
    } else {
        tutorial(width, height)
    };
    opened(
        opened(tiles, spec.start.x as int, spec.start.y as int),
        spec.goal.x as int,
        spec.goal.y as int,
    )
}

/// Turns one cell to floor.
fn open_cell(tiles: &mut Vec<Vec<Tile>>, x: usize, y: usize)
    requires
        y < grid::tiles_view(old(tiles)@).len(),
        x < grid::tiles_view(old(tiles)@)[y as int].len(),
    ensures
        grid::tiles_view(final(tiles)@) == opened(
            grid::tiles_view(old(tiles)@),
            x as int,
            y as int,
        ),
{
    tiles[y][x] = Tile::Floor;
    proof {
        let before = grid::tiles_view(old(tiles)@);
        let after = grid::tiles_view(tiles@);
        let wanted = opened(before, x as int, y as int);
        assert forall|j: int| 0 <= j < after.len() implies #[trigger] after[j] =~= wanted[j] by {}
        assert(after =~= wanted);
    }
}

/// Turns every cell off the border to wall.
fn wall_in(tiles: &mut Vec<Vec<Tile>>, width: usize, height: usize)
    requires
        width >= 2,
        height >= 2,
        grid::has_size(grid::tiles_view(old(tiles)@), width as int, height as int),
    ensures
        grid::tiles_view(final(tiles)@) == filled(
            grid::tiles_view(old(tiles)@),
            1,
            width - 1,
            1,
            height - 1,
            Tile::Wall,
        ),
{
    let ghost before = grid::tiles_view(tiles@);
    let mut y: usize = 1;
    assert(filled(before, 1, width - 1, 1, 1, Tile::Wall) =~~= before);
    while y < height - 1
        invariant
            width >= 2,
            1 <= y <= height - 1,
            grid::has_size(before, width as int, height as int),
            grid::tiles_view(tiles@) == filled(before, 1, width - 1, 1, y as int, Tile::Wall),
        decreases height - y,
    {
        let mut x: usize = 1;
        let ghost row_before = grid::tiles_view(tiles@);
        assert(filled(row_before, 1, 1, y as int, y + 1, Tile::Wall) =~~= row_before);
        while x < width - 1
            invariant
                1 <= x <= width - 1,
                1 <= y < height - 1,
                grid::has_size(row_before, width as int, height as int),
                grid::tiles_view(tiles@) == filled(
                    row_before,
                    1,
                    x as int,
                    y as int,
                    y + 1,
                    Tile::Wall,
                ),
            decreases width - x,
        {
            let ghost now = grid::tiles_view(tiles@);
            assert(now[y as int].len() == width);
            assert(now.len() == tiles@.len());
            tiles[y][x] = Tile::Wall;
            x += 1;
            proof {
                let after = grid::tiles_view(tiles@);
                let wanted = filled(row_before, 1, x as int, y as int, y + 1, Tile::Wall);
                assert forall|j: int| 0 <= j < after.len() implies #[trigger] after[j]
                    =~= wanted[j] by {
                    if j != y {
                        assert(after[j] == now[j]);
                    }
                }
                assert(after =~= wanted);
            }
        }
        y += 1;
        assert(grid::tiles_view(tiles@) =~~= filled(
            before,
            1,
            width - 1,
            1,
            y as int,
            Tile::Wall,
        ));
    }
}

/// Opens `steps` cells upwards from row `y` of column `x`.
fn open_upwards(tiles: &mut Vec<Vec<Tile>>, x: usize, y: usize, steps: usize)
    requires
        steps <= y < grid::tiles_view(old(tiles)@).len(),
        forall|j: int|
            0 <= j < grid::tiles_view(old(tiles)@).len() ==> x < (#[trigger] grid::tiles_view(
                old(tiles)@,
            )[j]).len(),
    ensures
        grid::tiles_view(final(tiles)@) == filled(
            grid::tiles_view(old(tiles)@),
            x as int,
            x + 1,
            y - steps,
            y as int,
            Tile::Floor,
        ),
{
    let ghost before = grid::tiles_view(tiles@);
    let mut row: usize = y;
    assert(filled(before, x as int, x + 1, y as int, y as int, Tile::Floor) =~~= before);
    while row > y - steps
        invariant
            y - steps <= row <= y < before.len(),
            steps <= y,
            forall|j: int| 0 <= j < before.len() ==> x < (#[trigger] before[j]).len(),
            grid::tiles_view(tiles@) == filled(
                before,
                x as int,
                x + 1,
                row as int,
                y as int,
                Tile::Floor,
            ),
        decreases row,
    {
        row -= 1;
        assert(before[row as int].len() == grid::tiles_view(tiles@)[row as int].len());
        open_cell(tiles, x, row);
        assert(grid::tiles_view(tiles@) =~~= filled(
            before,
            x as int,
            x + 1,
            row as int,
            y as int,
            Tile::Floor,
        ));
    }
}

/// Opens the cells of row `y` after column `from` up to and with column `to`.
fn open_along(tiles: &mut Vec<Vec<Tile>>, y: usize, from: usize, to: usize)
    requires
        y < grid::tiles_view(old(tiles)@).len(),
        from < grid::tiles_view(old(tiles)@)[y as int].len(),
        to < grid::tiles_view(old(tiles)@)[y as int].len(),
    ensures
        grid::tiles_view(final(tiles)@) == opened_along(
            grid::tiles_view(old(tiles)@),
            y as int,
            from as int,
            to as int,
        ),
{
    let ghost before = grid::tiles_view(tiles@);
    let mut x: usize = from;
    assert(opened_along(before, y as int, from as int, from as int) =~~= before);
    while x != to
        invariant
            y < before.len(),
            from < before[y as int].len(),
            to < before[y as int].len(),
            from <= x <= to || to <= x <= from,
            grid::tiles_view(tiles@) == opened_along(before, y as int, from as int, x as int),
        decreases (if x < to { to - x } else { x - to }),
    {
        x = if x < to {
            x + 1
        } else {
            x - 1
        };
        assert(before[y as int].len() == grid::tiles_view(tiles@)[y as int].len());
        open_cell(tiles, x, y);
        assert(grid::tiles_view(tiles@) =~~= opened_along(before, y as int, from as int, x as int));
    }
}

/// Opens a side room of `len` cells from column `x` of row `y`.
fn open_room(tiles: &mut Vec<Vec<Tile>>, x: usize, y: usize, right: bool, len: usize, width: usize)
    requires
        width >= 2,
        y < old(tiles)@.len(),
        grid::has_size(grid::tiles_view(old(tiles)@), width as int, old(tiles)@.len() as int),
        x < width,
    ensures
        grid::tiles_view(final(tiles)@) == with_room(
            grid::tiles_view(old(tiles)@),
            x as int,
            y as int,
            right,
            len as nat,
            width as int,
        ),
        grid::has_size(grid::tiles_view(final(tiles)@), width as int, old(tiles)@.len() as int),
{
    let ghost wanted = with_room(
        grid::tiles_view(tiles@),
        x as int,
        y as int,
        right,
        len as nat,
        width as int,
    );
    let ghost height = tiles@.len() as int;
    let mut column: usize = x;
    let mut left: usize = len;
    while left > 0
        invariant
            width >= 2,
            column < width,
            y < height,
            grid::has_size(grid::tiles_view(tiles@), width as int, height),
            wanted == with_room(
                grid::tiles_view(tiles@),
                column as int,
                y as int,
                right,
                left as nat,
                width as int,
            ),
        decreases left,
    {
        column = if right {
            (column + 1).min(width - 2)
        } else {
            column.saturating_sub(1).max(1)
        };
        assert(grid::tiles_view(tiles@)[y as int].len() == width);
        open_cell(tiles, column, y);
        left -= 1;
    }
}

/// Carves the maze of `seed` into the tiles: a corridor from `start` to `goal`,
/// and side rooms.
pub fn carve_count_friendly_maze(
    tiles: &mut Vec<Vec<Tile>>,
    start: Pos,
    goal: Pos,
    seed: u64,
    mastery: bool,
)
    requires
        old(tiles)@.len() >= 2,
        old(tiles)@[0]@.len() >= 2,
        grid::has_size(
            grid::tiles_view(old(tiles)@),
            old(tiles)@[0]@.len() as int,
            old(tiles)@.len() as int,
        ),
        start.x < old(tiles)@[0]@.len() && start.y < old(tiles)@.len(),
        goal.x < old(tiles)@[0]@.len() && goal.y < old(tiles)@.len(),
    ensures
        grid::tiles_view(final(tiles)@) == maze(
            grid::tiles_view(old(tiles)@),
            start,
            goal,
            seed,
            mastery,
        ),
        grid::has_size(
            grid::tiles_view(final(tiles)@),
            old(tiles)@[0]@.len() as int,
            old(tiles)@.len() as int,
        ),
{
    let height: usize = tiles.len();
    let width: usize = tiles[0].len();
    let ghost before = grid::tiles_view(tiles@);
    wall_in(tiles, width, height);
    let ghost solid = grid::tiles_view(tiles@);

    let mut rng: Lcg = Lcg::new(seed);
    let mut current: Pos = start;
    assert(solid[start.y as int].len() == width);
    open_cell(tiles, start.x, start.y);
    let ghost first = Corridor {
        tiles: grid::tiles_view(tiles@),
        state: rng.state,
        x: start.x as int,
        y: start.y as int,
    };
    while current.y > goal.y
        invariant
            width >= 2,
            current.x < width && current.y < height,
            goal.x < width && goal.y < height,
            grid::has_size(grid::tiles_view(tiles@), width as int, height as int),
            first.climbed(goal, width as nat) == (Corridor {
                tiles: grid::tiles_view(tiles@),
                state: rng.state,
                x: current.x as int,
                y: current.y as int,
            }).climbed(goal, width as nat),
        decreases current.y,
    {
        let rise: usize = (current.y - goal.y).min(2 + rng.range(4));
        open_upwards(tiles, current.x, current.y, rise);
        current.y = current.y - rise;
        let target_x: usize = if current.y <= goal.y + 1 {
            goal.x
        } else {
            1 + rng.range(width.saturating_sub(2))
        };
        let ghost mid = grid::tiles_view(tiles@);
        assert(mid[current.y as int].len() == width);
        open_along(tiles, current.y, current.x, target_x);
        current.x = target_x;
    }
    assert(grid::tiles_view(tiles@)[current.y as int].len() == width);
    open_along(tiles, current.y, current.x, goal.x);
    assert(grid::tiles_view(tiles@)[goal.y as int].len() == width);
    open_cell(tiles, goal.x, goal.y);

    let ghost wanted = maze(before, start, goal, seed, mastery);
    let mut rooms: usize = if mastery {
        16
    } else {
        8
    };
    while rooms > 0
        invariant
            width >= 2,
            height >= 2,
            grid::has_size(grid::tiles_view(tiles@), width as int, height as int),
            wanted == with_rooms(
                grid::tiles_view(tiles@),
                rng.state,
                rooms as nat,
                width as nat,
                height as nat,
            ),
        decreases rooms,
    {
        let y: usize = 1 + rng.range(height.saturating_sub(2));
        let x: usize = 1 + rng.range(width.saturating_sub(2));
        assert(grid::tiles_view(tiles@)[y as int].len() == width);
        if tiles[y][x] == Tile::Floor {
            let len: usize = 1 + rng.range(4);
            let right: bool = rng.next() % 2 == 0;
            open_room(tiles, x, y, right, len, width);
        }
        rooms -= 1;
    }
}

/// Lays out floor inside a border of wall.
fn lay_border(width: usize, height: usize) -> (tiles: Vec<Vec<Tile>>)
    ensures
        grid::tiles_view(tiles@) == bordered(width as nat, height as nat),
{
    let mut tiles: Vec<Vec<Tile>> = Vec::new();
    let mut y: usize = 0;
    while y < height
        invariant
            y <= height,
            tiles@.len() == y,
            forall|j: int|
                0 <= j < y ==> (#[trigger] tiles@[j])@ == bordered(width as nat, height as nat)[j],
        decreases height - y,
    {
        let mut row: Vec<Tile> = Vec::new();
        let mut x: usize = 0;
        while x < width
            invariant
                y < height,
                x <= width,
                row@ == bordered(width as nat, height as nat)[y as int].take(x as int),
            decreases width - x,
        {
            let border: bool = x == 0 || y == 0 || x == width - 1 || y == height - 1;
            row.push(
                if border {
                    Tile::Wall
                } else {
                    Tile::Floor
                },
            );
            x += 1;
        }
        tiles.push(row);
        y += 1;
    }
    assert(grid::tiles_view(tiles@) =~= bordered(width as nat, height as nat));
    tiles
}

/// Builds the tutorial's long wall across row three.
fn build_tutorial_wall(tiles: &mut Vec<Vec<Tile>>, width: usize, height: usize)
    requires
        grid::tiles_view(old(tiles)@) == bordered(width as nat, height as nat),
    ensures
        grid::tiles_view(final(tiles)@) == tutorial(width as nat, height as nat),
{
    let ghost open = bordered(width as nat, height as nat);
    let ghost wanted = tutorial(width as nat, height as nat);
    assert(grid::tiles_view(tiles@).len() == height);
    if tiles.len() <= 3 {
        assert(open =~~= wanted);
        return;
    }
    let limit: usize = width.saturating_sub(3);
    let mut x: usize = 3;
    while x < limit
        invariant
            3 <= x,
            x <= limit || limit < 3,
            limit == (if width >= 3 { width - 3 } else { 0 }),
            open == bordered(width as nat, height as nat),
            height > 3,
            tiles@.len() == height,
            forall|j: int| 0 <= j < height && j != 3 ==> (#[trigger] tiles@[j])@ == open[j],
            tiles@[3]@.len() == width,
            forall|i: int|
                0 <= i < width ==> #[trigger] tiles@[3]@[i] == if 3 <= i < x && i < limit && i
                    != 6 {
                    Tile::Wall
                } else {
                    open[3][i]
                },
        decreases limit - x,
    {
        if x != 6 {
            tiles[3][x] = Tile::Wall;
        }
        x += 1;
    }
    proof {
        let after = grid::tiles_view(tiles@);
        assert forall|j: int| 0 <= j < height implies #[trigger] after[j] =~= wanted[j] by {
            if j != 3 {
                assert(tiles@[j]@ == open[j]);
            }
        }
        assert(after =~= wanted);
    }
}

/// Lays out the tiles of a level for a seed.
pub fn lay_out(spec: &GridSpec, seed: u64) -> (tiles: Vec<Vec<Tile>>)
    requires
        spec.wf(),
    ensures
        grid::tiles_view(tiles@) == laid_out(*spec, seed),
        grid::has_size(grid::tiles_view(tiles@), spec.width as int, spec.height as int),
        grid::floor_at(grid::tiles_view(tiles@), spec.start.x as int, spec.start.y as int),
        grid::floor_at(grid::tiles_view(tiles@), spec.goal.x as int, spec.goal.y as int),
{
    let mut tiles: Vec<Vec<Tile>> = lay_border(spec.width, spec.height);
    proof {
        let view = grid::tiles_view(tiles@);
        assert(view.len() == tiles@.len());
        assert(view[0] == tiles@[0]@);
        assert(view[0].len() == spec.width);
    }
    if spec.generated {
        carve_count_friendly_maze(&mut tiles, spec.start, spec.goal, seed, spec.mastery);
    } else {
        build_tutorial_wall(&mut tiles, spec.width, spec.height);
    }
    open_cell(&mut tiles, spec.start.x, spec.start.y);
    open_cell(&mut tiles, spec.goal.x, spec.goal.y);
    tiles
}

} // verus!

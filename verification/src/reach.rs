//! Every generated grid can be won: floor leads from the start to the goal,
//! whatever the seed.

use crate::command::MotionKind;
use crate::grid;
use crate::grid::Tile;
use crate::level::GridSpec;
use crate::maze;
use crate::maze::Corridor;
use crate::pos::Pos;
use vstd::prelude::*;

verus! {

/// `a` and `b` are one step apart.
pub open spec fn adjacent(a: Pos, b: Pos) -> bool {
    ||| a.x == b.x && (a.y + 1 == b.y || b.y + 1 == a.y)
    ||| a.y == b.y && (a.x + 1 == b.x || b.x + 1 == a.x)
}

/// `path` goes over floor, one step at a time.
pub open spec fn is_path(tiles: Seq<Seq<Tile>>, path: Seq<Pos>) -> bool {
    &&& path.len() > 0
    &&& forall|i: int|
        0 <= i < path.len() ==> grid::floor_at(
            tiles,
            (#[trigger] path[i]).x as int,
            path[i].y as int,
        )
    &&& forall|i: int, j: int|
        0 <= i && j == i + 1 && j < path.len() ==> adjacent(#[trigger] path[i], #[trigger] path[j])
}

/// `path` leads over floor from `a` to `b`.
pub open spec fn leads(tiles: Seq<Seq<Tile>>, path: Seq<Pos>, a: Pos, b: Pos) -> bool {
    is_path(tiles, path) && path[0] == a && path.last() == b
}

/// Floor leads from `a` to `b`.
pub open spec fn connected(tiles: Seq<Seq<Tile>>, a: Pos, b: Pos) -> bool {
    exists|path: Seq<Pos>| #[trigger] leads(tiles, path, a, b)
}

/// Where single steps in the directions `moves` end.
pub open spec fn walk(tiles: Seq<Seq<Tile>>, pos: Pos, moves: Seq<MotionKind>) -> Pos
    decreases moves.len(),
{
    if moves.len() == 0 {
        pos
    } else {
        grid::step(tiles, walk(tiles, pos, moves.drop_last()), moves.last())
    }
}

/// What is floor in `before` is floor in `after`.
pub open spec fn keeps_floor(before: Seq<Seq<Tile>>, after: Seq<Seq<Tile>>) -> bool {
    forall|x: int, y: int| grid::floor_at(before, x, y) ==> #[trigger] grid::floor_at(after, x, y)
}

proof fn lemma_here(tiles: Seq<Seq<Tile>>, a: Pos)
    requires
        grid::floor_at(tiles, a.x as int, a.y as int),
    ensures
        connected(tiles, a, a),
{
    assert(leads(tiles, seq![a], a, a));
}

proof fn lemma_one_more(tiles: Seq<Seq<Tile>>, a: Pos, b: Pos, c: Pos)
    requires
        connected(tiles, a, b),
        adjacent(b, c),
        grid::floor_at(tiles, c.x as int, c.y as int),
    ensures
        connected(tiles, a, c),
{
    let path = choose|path: Seq<Pos>| #[trigger] leads(tiles, path, a, b);
    assert(leads(tiles, path.push(c), a, c));
}

proof fn lemma_more_floor(before: Seq<Seq<Tile>>, after: Seq<Seq<Tile>>, a: Pos, b: Pos)
    requires
        connected(before, a, b),
        keeps_floor(before, after),
    ensures
        connected(after, a, b),
{
    let path = choose|path: Seq<Pos>| #[trigger] leads(before, path, a, b);
    assert(leads(after, path, a, b));
}

/// Going up column `x` from row `from` to row `to`.
proof fn lemma_up(tiles: Seq<Seq<Tile>>, a: Pos, x: usize, from: usize, to: usize)
    requires
        to <= from,
        connected(tiles, a, Pos { x, y: from }),
        forall|y: int| to <= y < from ==> #[trigger] grid::floor_at(tiles, x as int, y),
    ensures
        connected(tiles, a, Pos { x, y: to }),
    decreases from - to,
{
    if to < from {
        let next = (from - 1) as usize;
        assert(grid::floor_at(tiles, x as int, next as int));
        lemma_one_more(tiles, a, Pos { x, y: from }, Pos { x, y: next });
        lemma_up(tiles, a, x, next, to);
    }
}

/// Going along row `y` from column `from` to column `to`.
proof fn lemma_along(tiles: Seq<Seq<Tile>>, a: Pos, y: usize, from: usize, to: usize)
    requires
        connected(tiles, a, Pos { x: from, y }),
        forall|x: int|
            (from < x <= to || to <= x < from) ==> #[trigger] grid::floor_at(tiles, x, y as int),
    ensures
        connected(tiles, a, Pos { x: to, y }),
    decreases (if from < to { to - from } else { from - to }),
{
    if from != to {
        let next = if from < to {
            (from + 1) as usize
        } else {
            (from - 1) as usize
        };
        assert(grid::floor_at(tiles, next as int, y as int));
        lemma_one_more(tiles, a, Pos { x: from, y }, Pos { x: next, y });
        lemma_along(tiles, a, y, next, to);
    }
}

/// A corridor carved on, from a cell of floor that `a` leads to, reaches the row
/// of the goal with floor all the way.
proof fn lemma_climbed(c: Corridor, a: Pos, goal: Pos, width: nat, height: nat)
    requires
        2 <= width <= usize::MAX,
        height <= usize::MAX,
        grid::has_size(c.tiles, width as int, height as int),
        0 <= c.x < width,
        goal.y <= c.y < height,
        goal.x < width,
        connected(c.tiles, a, Pos { x: c.x as usize, y: c.y as usize }),
    ensures
        ({
            let end = c.climbed(goal, width);
            &&& grid::has_size(end.tiles, width as int, height as int)
            &&& 0 <= end.x < width
            &&& end.y == goal.y
            &&& connected(end.tiles, a, Pos { x: end.x as usize, y: end.y as usize })
        }),
    decreases c.y - goal.y,
{
    if c.y > goal.y {
        let n = c.next(goal, width);
        let top = c.y - c.rise(goal);
        let mid = maze::filled(c.tiles, c.x, c.x + 1, top, c.y, Tile::Floor);
        assert(grid::has_size(mid, width as int, height as int));
        assert(keeps_floor(c.tiles, mid));
        lemma_more_floor(c.tiles, mid, a, Pos { x: c.x as usize, y: c.y as usize });
        assert forall|y: int| top <= y < c.y implies #[trigger] grid::floor_at(
            mid,
            (c.x as usize) as int,
            y,
        ) by {
            assert(mid[y].len() == width);
            assert(c.tiles[y].len() == width);
        }
        lemma_up(mid, a, c.x as usize, c.y as usize, top as usize);
        assert(grid::has_size(n.tiles, width as int, height as int));
        assert(keeps_floor(mid, n.tiles));
        lemma_more_floor(mid, n.tiles, a, Pos { x: c.x as usize, y: top as usize });
        assert(0 <= n.x < width);
        assert(n.tiles[top].len() == width);
        assert(mid[top].len() == width);
        lemma_along(n.tiles, a, top as usize, c.x as usize, n.x as usize);
        lemma_climbed(n, a, goal, width, height);
    }
}

/// A corridor carved on keeps its size and what is floor, and ends on floor if it began
/// there.
pub proof fn lemma_climbed_keeps_floor(c: Corridor, goal: Pos, width: nat, height: nat)
    requires
        2 <= width <= usize::MAX,
        height <= usize::MAX,
        grid::has_size(c.tiles, width as int, height as int),
        0 <= c.x < width,
        goal.y <= c.y < height,
        goal.x < width,
        grid::floor_at(c.tiles, c.x, c.y),
    ensures
        ({
            let end = c.climbed(goal, width);
            &&& grid::has_size(end.tiles, width as int, height as int)
            &&& 0 <= end.x < width
            &&& keeps_floor(c.tiles, end.tiles)
            &&& grid::floor_at(end.tiles, end.x, end.y)
        }),
    decreases c.y - goal.y,
{
    if c.y > goal.y {
        let n = c.next(goal, width);
        let top = c.y - c.rise(goal);
        let mid = maze::filled(c.tiles, c.x, c.x + 1, top, c.y, Tile::Floor);
        assert(grid::has_size(mid, width as int, height as int));
        assert(keeps_floor(c.tiles, mid));
        assert(grid::has_size(n.tiles, width as int, height as int));
        assert(keeps_floor(mid, n.tiles));
        assert(keeps_floor(c.tiles, n.tiles)) by {
            assert forall|x: int, y: int| grid::floor_at(c.tiles, x, y) implies #[trigger] grid::floor_at(
                n.tiles,
                x,
                y,
            ) by {
                assert(grid::floor_at(mid, x, y));
            }
        }
        assert(mid[top].len() == width && c.tiles[top].len() == width);
        assert(n.tiles[top].len() == width);
        assert(grid::floor_at(mid, c.x, top));
        assert(grid::floor_at(n.tiles, n.x, top));
        lemma_climbed_keeps_floor(n, goal, width, height);
        let end = c.climbed(goal, width);
        assert forall|x: int, y: int| grid::floor_at(c.tiles, x, y) implies #[trigger] grid::floor_at(
            end.tiles,
            x,
            y,
        ) by {
            assert(grid::floor_at(n.tiles, x, y));
        }
    }
}

proof fn lemma_room(
    tiles: Seq<Seq<Tile>>,
    x: int,
    y: int,
    right: bool,
    len: nat,
    width: int,
    height: int,
)
    requires
        grid::has_size(tiles, width, height),
    ensures
        keeps_floor(tiles, maze::with_room(tiles, x, y, right, len, width)),
        grid::has_size(maze::with_room(tiles, x, y, right, len, width), width, height),
    decreases len,
{
    if len > 0 {
        let next = if right {
            if x + 1 < width - 2 {
                x + 1
            } else {
                width - 2
            }
        } else if x > 1 {
            x - 1
        } else {
            1
        };
        lemma_room(maze::opened(tiles, next, y), next, y, right, (len - 1) as nat, width, height);
        let after = maze::with_room(tiles, x, y, right, len, width);
        assert forall|i: int, j: int| grid::floor_at(tiles, i, j) implies #[trigger] grid::floor_at(
            after,
            i,
            j,
        ) by {
            assert(grid::floor_at(maze::opened(tiles, next, y), i, j));
        }
    }
}

pub proof fn lemma_rooms(tiles: Seq<Seq<Tile>>, state: u64, count: nat, width: nat, height: nat)
    requires
        grid::has_size(tiles, width as int, height as int),
    ensures
        keeps_floor(tiles, maze::with_rooms(tiles, state, count, width, height)),
        grid::has_size(
            maze::with_rooms(tiles, state, count, width, height),
            width as int,
            height as int,
        ),
    decreases count,
{
    if count > 0 {
        let y = 1 + crate::rng::range_value(state, maze::inner(height)) as int;
        let state = crate::rng::state_after_range(state, maze::inner(height));
        let x = 1 + crate::rng::range_value(state, maze::inner(width)) as int;
        let state = crate::rng::state_after_range(state, maze::inner(width));
        if tiles[y][x] == Tile::Floor {
            let len = 1 + crate::rng::range_value(state, 4);
            let state = crate::rng::state_after_range(state, 4);
            let state = crate::rng::next_state(state);
            let room = maze::with_room(tiles, x, y, state % 2 == 0, len, width as int);
            lemma_room(tiles, x, y, state % 2 == 0, len, width as int, height as int);
            lemma_rooms(room, state, (count - 1) as nat, width, height);
            let after = maze::with_rooms(room, state, (count - 1) as nat, width, height);
            assert forall|i: int, j: int| grid::floor_at(tiles, i, j) implies #[trigger] grid::floor_at(
                after,
                i,
                j,
            ) by {
                assert(grid::floor_at(room, i, j));
            }
        } else {
            lemma_rooms(tiles, state, (count - 1) as nat, width, height);
        }
    }
}

/// In a generated level whose goal is not below its start, floor leads from the
/// start to the goal, for every seed.
pub proof fn generated_goal_is_reachable(spec: GridSpec, seed: u64)
    requires
        spec.wf(),
        spec.generated,
        spec.goal.y <= spec.start.y,
    ensures
        connected(maze::laid_out(spec, seed), spec.start, spec.goal),
{
    let width = spec.width as nat;
    let height = spec.height as nat;
    let start = spec.start;
    let goal = spec.goal;
    let base = maze::bordered(width, height);
    assert(grid::has_size(base, width as int, height as int));
    assert(base[0].len() == width);
    let solid = maze::filled(base, 1, width - 1, 1, height - 1, Tile::Wall);
    assert(grid::has_size(solid, width as int, height as int));
    let first = Corridor {
        tiles: maze::opened(solid, start.x as int, start.y as int),
        state: crate::rng::first_state(seed),
        x: start.x as int,
        y: start.y as int,
    };
    assert(grid::has_size(first.tiles, width as int, height as int));
    assert(first.tiles[start.y as int].len() == width);
    assert(solid[start.y as int].len() == width);
    assert(solid[0].len() == width);
    lemma_here(first.tiles, start);
    lemma_climbed(first, start, goal, width, height);
    let up = first.climbed(goal, width);
    let passage = maze::corridor(solid, start, goal, seed);
    assert(up.tiles[goal.y as int].len() == width);
    assert(grid::has_size(passage.tiles, width as int, height as int));
    assert(passage.tiles[goal.y as int].len() == width);
    assert(keeps_floor(up.tiles, passage.tiles));
    lemma_more_floor(up.tiles, passage.tiles, start, Pos { x: up.x as usize, y: goal.y });
    lemma_along(passage.tiles, start, goal.y, up.x as usize, goal.x);

    let marked = maze::opened(passage.tiles, goal.x as int, goal.y as int);
    assert(grid::has_size(marked, width as int, height as int));
    assert(keeps_floor(passage.tiles, marked));
    lemma_more_floor(passage.tiles, marked, start, goal);
    let count: nat = if spec.mastery {
        16
    } else {
        8
    };
    lemma_rooms(marked, passage.state, count, width, height);
    let carved = maze::with_rooms(marked, passage.state, count, width, height);
    lemma_more_floor(marked, carved, start, goal);
    assert(carved == maze::maze(base, start, goal, seed, spec.mastery));
    let once = maze::opened(carved, start.x as int, start.y as int);
    assert(keeps_floor(carved, once));
    lemma_more_floor(carved, once, start, goal);
    let laid = maze::laid_out(spec, seed);
    assert(keeps_floor(once, laid));
    lemma_more_floor(once, laid, start, goal);
}

/// In a tutorial level that starts in the two columns left of the long wall and
/// ends above it, off the border, floor leads from the start to the goal.
pub proof fn tutorial_goal_is_reachable(spec: GridSpec, seed: u64)
    requires
        spec.wf(),
        !spec.generated,
        1 <= spec.start.x <= 2 && spec.start.x < spec.width - 1,
        1 <= spec.goal.y <= 2 && spec.goal.y <= spec.start.y < spec.height - 1,
        1 <= spec.goal.x < spec.width - 1,
    ensures
        connected(maze::laid_out(spec, seed), spec.start, spec.goal),
{
    let laid = maze::laid_out(spec, seed);
    let plain = maze::tutorial(spec.width as nat, spec.height as nat);
    let start = spec.start;
    let goal = spec.goal;
    let once = maze::opened(plain, start.x as int, start.y as int);
    assert(grid::has_size(plain, spec.width as int, spec.height as int));
    assert(grid::has_size(laid, spec.width as int, spec.height as int));
    assert(keeps_floor(plain, once));
    assert(keeps_floor(once, laid));
    assert forall|y: int| goal.y <= y <= start.y implies #[trigger] grid::floor_at(
        laid,
        start.x as int,
        y,
    ) by {
        assert(grid::floor_at(plain, start.x as int, y));
        assert(grid::floor_at(once, start.x as int, y));
    }
    lemma_here(laid, start);
    lemma_up(laid, start, start.x, start.y, goal.y);
    assert forall|x: int| 1 <= x < spec.width - 1 implies #[trigger] grid::floor_at(
        laid,
        x,
        goal.y as int,
    ) by {
        assert(grid::floor_at(plain, x, goal.y as int));
        assert(grid::floor_at(once, x, goal.y as int));
    }
    lemma_along(laid, start, goal.y, start.x, goal.x);
}

/// Where floor leads from `a` to `b`, single steps do too.
pub proof fn connected_is_walkable(tiles: Seq<Seq<Tile>>, a: Pos, b: Pos)
    requires
        connected(tiles, a, b),
    ensures
        exists|moves: Seq<MotionKind>| walk(tiles, a, moves) == b,
{
    let path = choose|path: Seq<Pos>| #[trigger] leads(tiles, path, a, b);
    lemma_path_walk(tiles, path);
}

proof fn lemma_path_walk(tiles: Seq<Seq<Tile>>, path: Seq<Pos>) -> (moves: Seq<MotionKind>)
    requires
        is_path(tiles, path),
    ensures
        walk(tiles, path[0], moves) == path.last(),
    decreases path.len(),
{
    if path.len() == 1 {
        Seq::empty()
    } else {
        let shorter = path.drop_last();
        assert(is_path(tiles, shorter));
        let moves = lemma_path_walk(tiles, shorter);
        let from = path[path.len() - 2];
        let to = path[path.len() - 1];
        assert(adjacent(from, to));
        let kind = if from.x + 1 == to.x {
            MotionKind::Right
        } else if to.x + 1 == from.x {
            MotionKind::Left
        } else if from.y + 1 == to.y {
            MotionKind::Down
        } else {
            MotionKind::Up
        };
        assert(grid::step(tiles, from, kind) == to);
        assert(moves.push(kind).drop_last() =~= moves);
        moves.push(kind)
    }
}

} // verus!

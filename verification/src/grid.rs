//! Grid levels: walking over floor and around walls, ahead of the lava.

use crate::command::MotionKind;
use crate::level::GridSpec;
use crate::maze;
use crate::pos::Pos;
use crate::text;
use crate::time::Duration;
use vstd::prelude::*;

verus! {

/// A cell of the grid.
#[derive(Debug, Clone, Copy, PartialEq, Eq, Structural)]
pub enum Tile {
    Floor,
    Wall,
}

/// The cells of each row.
pub open spec fn tiles_view(tiles: Seq<Vec<Tile>>) -> Seq<Seq<Tile>> {
    Seq::new(tiles.len(), |y: int| tiles[y]@)
}

/// There are `height` rows of `width` cells each.
pub open spec fn has_size(tiles: Seq<Seq<Tile>>, width: int, height: int) -> bool {
    &&& tiles.len() == height
    &&& forall|y: int| 0 <= y < height ==> (#[trigger] tiles[y]).len() == width
}

/// The cell in column `x` of row `y` is on the grid and is floor.
pub open spec fn floor_at(tiles: Seq<Seq<Tile>>, x: int, y: int) -> bool {
    &&& 0 <= y < tiles.len()
    &&& 0 <= x < tiles[y].len()
    &&& tiles[y][x] == Tile::Floor
}

/// The column that a step in direction `kind` leads to.
pub open spec fn step_x(pos: Pos, kind: MotionKind) -> int {
    match kind {
        MotionKind::Left => if pos.x > 0 { pos.x - 1 } else { 0 },
        MotionKind::Right => pos.x + 1,
        _ => pos.x as int,
    }
}

/// The row that a step in direction `kind` leads to.
pub open spec fn step_y(pos: Pos, kind: MotionKind) -> int {
    match kind {
        MotionKind::Up => if pos.y > 0 { pos.y - 1 } else { 0 },
        MotionKind::Down => pos.y + 1,
        _ => pos.y as int,
    }
}

/// Where one step in direction `kind` ends: on the next cell if that is floor,
/// and otherwise where it began.
pub open spec fn step(tiles: Seq<Seq<Tile>>, pos: Pos, kind: MotionKind) -> Pos {
    let x = step_x(pos, kind);
    let y = step_y(pos, kind);
    if floor_at(tiles, x, y) {
        Pos { x: x as usize, y: y as usize }
    } else {
        pos
    }
}

/// Where `count` steps in one direction end.
pub open spec fn travel(tiles: Seq<Seq<Tile>>, pos: Pos, kind: MotionKind, count: nat) -> Pos
    decreases count,
{
    if count == 0 {
        pos
    } else {
        travel(tiles, step(tiles, pos, kind), kind, (count - 1) as nat)
    }
}

/// How many rows of a grid of `height` rows the lava covers once `elapsed`
/// milliseconds have passed: one at first, one more after each interval, and
/// never the topmost row.
pub open spec fn rows_under_lava(interval: nat, elapsed: nat, height: nat) -> nat {
    let interval = if interval == 0 { 1 } else { interval };
    let risen = 1 + (elapsed / interval) as usize;
    let most = if height == 0 { 0 } else { (height - 1) as nat };
    if risen <= most {
        risen as nat
    } else {
        most
    }
}

/// A grid level being played.
#[derive(Debug)]
pub struct GridState {
    pub tiles: Vec<Vec<Tile>>,
    pub player: Pos,
    pub goal: Pos,
    pub command_budget: usize,
    pub lava_rows: usize,
    pub lava: bool,
    pub lava_interval: Option<Duration>,
}

/// What a [`GridState`] holds.
#[verifier::ext_equal]
pub struct GridView {
    pub tiles: Seq<Seq<Tile>>,
    pub player: Pos,
    pub goal: Pos,
    pub command_budget: usize,
    pub lava_rows: usize,
    pub lava: bool,
    pub lava_interval: Option<Duration>,
}

impl View for GridState {
    type V = GridView;

    open spec fn view(&self) -> GridView {
        GridView {
            tiles: tiles_view(self.tiles@),
            player: self.player,
            goal: self.goal,
            command_budget: self.command_budget,
            lava_rows: self.lava_rows,
            lava: self.lava,
            lava_interval: self.lava_interval,
        }
    }
}

impl GridView {
    /// A level about to be played: the player stands on the start, and the lava,
    /// if there is any, covers one row.
    pub open spec fn of_spec(spec: GridSpec, seed: u64) -> GridView {
        GridView {
            tiles: maze::laid_out(spec, seed),
            player: spec.start,
            goal: spec.goal,
            command_budget: spec.command_budget,
            lava_rows: if spec.lava {
                1
            } else {
                0
            },
            lava: spec.lava,
            lava_interval: match spec.lava_interval_ms {
                Some(ms) => Some(Duration::of_millis(ms)),
                None => None,
            },
        }
    }

    /// The player stands on floor.
    pub open spec fn wf(self) -> bool {
        floor_at(self.tiles, self.player.x as int, self.player.y as int)
    }

    /// The grid after a motion.
    pub open spec fn moved(self, kind: MotionKind, count: nat) -> GridView {
        GridView { player: travel(self.tiles, self.player, kind, count), ..self }
    }

    /// The grid once `elapsed` has passed.
    pub open spec fn lava_at(self, elapsed: Duration) -> GridView {
        match self.lava_interval {
            Some(interval) => GridView {
                lava_rows: rows_under_lava(
                    interval.millis(),
                    elapsed.millis(),
                    self.tiles.len(),
                ) as usize,
                ..self
            },
            None => self,
        }
    }

    /// The first row that the lava covers.
    pub open spec fn lava_front(self) -> int {
        if self.tiles.len() >= self.lava_rows {
            self.tiles.len() - self.lava_rows
        } else {
            0
        }
    }

    /// The lava has reached the player.
    pub open spec fn caught(self) -> bool {
        self.lava && self.player.y >= self.lava_front()
    }

    /// The milliseconds until the lava rises again.
    pub open spec fn until_rise(self, elapsed: Duration) -> Option<nat> {
        match self.lava_interval {
            Some(interval) => {
                let period = if interval.millis() == 0 { 1 } else { interval.millis() };
                Some((period - elapsed.millis() % period) as nat)
            },
            None => None,
        }
    }

    /// The lava's part of the status line, `seconds` being the time until it rises.
    pub open spec fn lava_report(self, seconds: Seq<char>) -> Option<Seq<char>> {
        match self.lava_interval {
            Some(_) => Some(
                " | Lava: "@ + text::decimal(self.lava_rows as nat) + " rows, next rise in "@
                    + seconds + "s"@,
            ),
            None => None,
        }
    }
}

/// A step that leads nowhere leads nowhere again.
proof fn lemma_travel_stuck(tiles: Seq<Seq<Tile>>, pos: Pos, kind: MotionKind, count: nat)
    requires
        step(tiles, pos, kind) == pos,
    ensures
        travel(tiles, pos, kind, count) == pos,
    decreases count,
{
    if count > 0 {
        lemma_travel_stuck(tiles, pos, kind, (count - 1) as nat);
    }
}

impl GridState {
    /// Lays out the level for a seed.
    pub fn from_spec(spec: &GridSpec, seed: u64) -> (grid: Self)
        requires
            spec.wf(),
        ensures
            grid@ == GridView::of_spec(*spec, seed),
            grid@.wf(),
            has_size(grid@.tiles, spec.width as int, spec.height as int),
    {
        let tiles: Vec<Vec<Tile>> = maze::lay_out(spec, seed);
        let lava_interval: Option<Duration> = match spec.lava_interval_ms {
            Some(ms) => Some(Duration::from_millis(ms)),
            None => None,
        };
        Self {
            tiles,
            player: spec.start,
            goal: spec.goal,
            command_budget: spec.command_budget,
            lava_rows: if spec.lava {
                1
            } else {
                0
            },
            lava: spec.lava,
            lava_interval,
        }
    }

    /// Lets the lava rise to where it stands once `elapsed` has passed.
    pub fn update_lava(&mut self, elapsed: Duration)
        ensures
            final(self)@ == old(self)@.lava_at(elapsed),
    {
        match self.lava_interval {
            Some(interval) => {
                let interval_ms: u128 = interval.as_millis().max(1);
                let elapsed_rows: u128 = elapsed.as_millis() / interval_ms;
                let risen: usize = (elapsed_rows as usize).saturating_add(1);
                self.lava_rows = risen.min(self.tiles.len().saturating_sub(1));
            },
            None => {},
        }
    }

    /// Whether the lava has reached the player.
    pub fn player_in_lava(&self) -> (caught: bool)
        ensures
            caught == self@.caught(),
    {
        self.lava && self.player.y >= self.tiles.len().saturating_sub(self.lava_rows)
    }

    /// The milliseconds until the lava rises again, where it rises at all.
    pub fn lava_remaining_ms(&self, elapsed: Duration) -> (remaining: Option<u128>)
        ensures
            match remaining {
                Some(ms) => self@.until_rise(elapsed) == Some(ms as nat),
                None => self@.until_rise(elapsed) is None,
            },
    {
        match self.lava_interval {
            Some(interval) => {
                let interval_ms: u128 = interval.as_millis().max(1);
                let elapsed_ms: u128 = elapsed.as_millis();
                Some(interval_ms - (elapsed_ms % interval_ms))
            },
            None => None,
        }
    }

    /// The lava's part of the status line. `seconds` is the time until the lava
    /// rises, from [`GridState::lava_remaining_ms`], written out in seconds.
    pub fn lava_status(&self, seconds: &str) -> (status: Option<String>)
        ensures
            match status {
                Some(line) => self@.lava_report(seconds@) == Some(line@),
                None => self@.lava_report(seconds@) is None,
            },
    {
        match self.lava_interval {
            Some(_) => {
                let mut line: String = String::new();
                line.append(" | Lava: ");
                text::push_decimal(&mut line, self.lava_rows);
                line.append(" rows, next rise in ");
                line.append(seconds);
                line.append("s");
                assert(line@ =~= self@.lava_report(seconds@)->0);
                Some(line)
            },
            None => None,
        }
    }

    /// Walks `count` steps in one direction, or as far as there is floor. Word
    /// motions lead nowhere on a grid.
    pub fn apply_motion(&mut self, kind: MotionKind, count: usize)
        ensures
            final(self)@ == old(self)@.moved(kind, count as nat),
            old(self)@.wf() ==> final(self)@.wf(),
    {
        let ghost tiles = self@.tiles;
        let mut done: usize = 0;
        while done < count
            invariant_except_break
                travel(tiles, old(self).player, kind, count as nat) == travel(
                    tiles,
                    self.player,
                    kind,
                    (count - done) as nat,
                ),
            invariant
                done <= count,
                tiles == old(self)@.tiles,
                self@ == (GridView { player: self.player, ..old(self)@ }),
                old(self)@.wf() ==> self@.wf(),
            ensures
                travel(tiles, old(self).player, kind, count as nat) == self.player,
            decreases count - done,
        {
            let next: Option<Pos> = match kind {
                MotionKind::Left => Some(
                    Pos { x: self.player.x.saturating_sub(1), y: self.player.y },
                ),
                MotionKind::Right => match self.player.x.checked_add(1) {
                    Some(x) => Some(Pos { x, y: self.player.y }),
                    None => None,
                },
                MotionKind::Up => Some(Pos { x: self.player.x, y: self.player.y.saturating_sub(1) }),
                MotionKind::Down => match self.player.y.checked_add(1) {
                    Some(y) => Some(Pos { x: self.player.x, y }),
                    None => None,
                },
                _ => Some(self.player),
            };
            match next {
                Some(pos) if self.is_floor(pos) => {
                    self.player = pos;
                    done += 1;
                },
                _ => {
                    proof {
                        assert(self.tiles@.len() == self.tiles.len());
                        if 0 <= self.player.y < tiles.len() {
                            assert(tiles[self.player.y as int].len() == self.tiles@[self.player.y as int].len());
                        }
                        lemma_travel_stuck(tiles, self.player, kind, (count - done) as nat);
                    }
                    break;
                },
            }
        }
    }

    /// Whether the cell at `pos` is on the grid and is floor.
    pub fn is_floor(&self, pos: Pos) -> (floor: bool)
        ensures
            floor == floor_at(self@.tiles, pos.x as int, pos.y as int),
    {
        pos.y < self.tiles.len() && pos.x < self.tiles[pos.y].len() && self.tiles[pos.y][pos.x]
            == Tile::Floor
    }
}

/// A count repeats a motion: `a` steps and then `b` steps are `a + b` steps.
pub proof fn counts_add_up(tiles: Seq<Seq<Tile>>, pos: Pos, kind: MotionKind, a: nat, b: nat)
    ensures
        travel(tiles, travel(tiles, pos, kind, a), kind, b) == travel(tiles, pos, kind, a + b),
    decreases a,
{
    if a > 0 {
        counts_add_up(tiles, step(tiles, pos, kind), kind, (a - 1) as nat, b);
        assert((a - 1) as nat + b == (a + b - 1) as nat);
    }
}

/// A player who stands on floor never leaves it.
pub proof fn motion_stays_on_floor(tiles: Seq<Seq<Tile>>, pos: Pos, kind: MotionKind, count: nat)
    requires
        floor_at(tiles, pos.x as int, pos.y as int),
        forall|y: int| 0 <= y < tiles.len() ==> (#[trigger] tiles[y]).len() <= usize::MAX,
        tiles.len() <= usize::MAX,
    ensures
        ({
            let end = travel(tiles, pos, kind, count);
            floor_at(tiles, end.x as int, end.y as int)
        }),
    decreases count,
{
    if count > 0 {
        motion_stays_on_floor(tiles, step(tiles, pos, kind), kind, (count - 1) as nat);
    }
}

/// The lava never falls back as time goes on, never covers the topmost row of a
/// grid, and has covered one row at the start. Rows are counted in a `usize`, so
/// the span of time must not hold more intervals than that.
pub proof fn lava_only_rises(interval: nat, earlier: nat, later: nat, height: nat)
    requires
        earlier <= later,
        later / (if interval == 0 { 1 } else { interval }) <= usize::MAX,
    ensures
        rows_under_lava(interval, earlier, height) <= rows_under_lava(interval, later, height),
        height >= 1 ==> rows_under_lava(interval, later, height) < height,
        height >= 2 ==> rows_under_lava(interval, 0, height) == 1,
{
    let period = if interval == 0 { 1 } else { interval };
    vstd::arithmetic::div_mod::lemma_div_is_ordered(earlier as int, later as int, period as int);
    vstd::arithmetic::div_mod::lemma_div_pos_is_pos(earlier as int, period as int);
    assert(0nat / period == 0) by (nonlinear_arith)
        requires
            period > 0,
    ;
}

/// The cell in column `x` of row `y` can be stepped on.
pub open spec fn walkable(tiles: Seq<Seq<Tile>>, x: int, y: int) -> bool {
    0 <= y < tiles.len() && 0 <= x < tiles[y].len() && tiles[y][x] == Tile::Floor
}

/// A motion to the right or down goes over floor, cell by cell in one row or column, as
/// many cells as it counts, or as many as there is floor ahead.
pub proof fn motions_ahead_stop_at_walls(tiles: Seq<Seq<Tile>>, pos: Pos, count: nat) -> (gone: (
    nat,
    nat,
))
    requires
        tiles.len() <= usize::MAX,
        forall|y: int| 0 <= y < tiles.len() ==> (#[trigger] tiles[y]).len() <= usize::MAX,
    ensures
        gone.0 <= count && gone.1 <= count,
        travel(tiles, pos, MotionKind::Right, count).y == pos.y,
        travel(tiles, pos, MotionKind::Right, count).x == pos.x + gone.0,
        forall|i: int| 0 < i <= gone.0 ==> #[trigger] walkable(tiles, pos.x + i, pos.y as int),
        gone.0 < count ==> !walkable(tiles, pos.x + gone.0 + 1, pos.y as int),
        travel(tiles, pos, MotionKind::Down, count).x == pos.x,
        travel(tiles, pos, MotionKind::Down, count).y == pos.y + gone.1,
        forall|i: int| 0 < i <= gone.1 ==> #[trigger] walkable(tiles, pos.x as int, pos.y + i),
        gone.1 < count ==> !walkable(tiles, pos.x as int, pos.y + gone.1 + 1),
    decreases count,
{
    if count == 0 {
        (0, 0)
    } else {
        let right = step(tiles, pos, MotionKind::Right);
        let down = step(tiles, pos, MotionKind::Down);
        let after_right = motions_ahead_stop_at_walls(tiles, right, (count - 1) as nat).0;
        let after_down = motions_ahead_stop_at_walls(tiles, down, (count - 1) as nat).1;
        let n = if walkable(tiles, pos.x + 1, pos.y as int) {
            assert forall|i: int| 0 < i <= after_right + 1 implies #[trigger] walkable(
                tiles,
                pos.x + i,
                pos.y as int,
            ) by {
                if i > 1 {
                    assert(walkable(tiles, right.x + (i - 1), right.y as int));
                }
            }
            after_right + 1
        } else {
            lemma_travel_stuck(tiles, pos, MotionKind::Right, count);
            0
        };
        let m = if walkable(tiles, pos.x as int, pos.y + 1) {
            assert forall|i: int| 0 < i <= after_down + 1 implies #[trigger] walkable(
                tiles,
                pos.x as int,
                pos.y + i,
            ) by {
                if i > 1 {
                    assert(walkable(tiles, down.x as int, down.y + (i - 1)));
                }
            }
            after_down + 1
        } else {
            lemma_travel_stuck(tiles, pos, MotionKind::Down, count);
            0
        };
        (n, m)
    }
}

/// A motion to the left or up goes over floor, cell by cell in one row or column, as many
/// cells as it counts, or as many as there is floor behind.
pub proof fn motions_back_stop_at_walls(tiles: Seq<Seq<Tile>>, pos: Pos, count: nat) -> (gone: (
    nat,
    nat,
))
    ensures
        gone.0 <= count && gone.1 <= count,
        travel(tiles, pos, MotionKind::Left, count).y == pos.y,
        travel(tiles, pos, MotionKind::Left, count).x == pos.x - gone.0,
        forall|i: int| 0 < i <= gone.0 ==> #[trigger] walkable(tiles, pos.x - i, pos.y as int),
        gone.0 < count ==> !walkable(tiles, pos.x - gone.0 - 1, pos.y as int),
        travel(tiles, pos, MotionKind::Up, count).x == pos.x,
        travel(tiles, pos, MotionKind::Up, count).y == pos.y - gone.1,
        forall|i: int| 0 < i <= gone.1 ==> #[trigger] walkable(tiles, pos.x as int, pos.y - i),
        gone.1 < count ==> !walkable(tiles, pos.x as int, pos.y - gone.1 - 1),
    decreases count,
{
    if count == 0 {
        (0, 0)
    } else {
        let left = step(tiles, pos, MotionKind::Left);
        let up = step(tiles, pos, MotionKind::Up);
        let after_left = motions_back_stop_at_walls(tiles, left, (count - 1) as nat).0;
        let after_up = motions_back_stop_at_walls(tiles, up, (count - 1) as nat).1;
        let n = if walkable(tiles, pos.x - 1, pos.y as int) {
            assert forall|i: int| 0 < i <= after_left + 1 implies #[trigger] walkable(
                tiles,
                pos.x - i,
                pos.y as int,
            ) by {
                if i > 1 {
                    assert(walkable(tiles, left.x - (i - 1), left.y as int));
                }
            }
            after_left + 1
        } else {
            lemma_travel_stuck(tiles, pos, MotionKind::Left, count);
            0
        };
        let m = if walkable(tiles, pos.x as int, pos.y - 1) {
            assert forall|i: int| 0 < i <= after_up + 1 implies #[trigger] walkable(
                tiles,
                pos.x as int,
                pos.y - i,
            ) by {
                if i > 1 {
                    assert(walkable(tiles, up.x as int, up.y - (i - 1)));
                }
            }
            after_up + 1
        } else {
            lemma_travel_stuck(tiles, pos, MotionKind::Up, count);
            0
        };
        (n, m)
    }
}

/// One motion is one step, no motion is none, and word motions lead nowhere on a grid.
pub proof fn one_motion_is_one_step(tiles: Seq<Seq<Tile>>, pos: Pos, kind: MotionKind, count: nat)
    ensures
        travel(tiles, pos, kind, 0) == pos,
        travel(tiles, pos, kind, 1) == step(tiles, pos, kind),
        !(kind is Left || kind is Down || kind is Up || kind is Right) ==> travel(
            tiles,
            pos,
            kind,
            count,
        ) == pos,
{
    reveal_with_fuel(travel, 2);
    if !(kind is Left || kind is Down || kind is Up || kind is Right) {
        lemma_travel_stuck(tiles, pos, kind, count);
    }
}

/// Where there is floor as far as a motion counts, it goes exactly that far.
pub proof fn over_floor_a_count_is_a_distance(tiles: Seq<Seq<Tile>>, pos: Pos, count: nat)
    requires
        tiles.len() <= usize::MAX,
        forall|y: int| 0 <= y < tiles.len() ==> (#[trigger] tiles[y]).len() <= usize::MAX,
    ensures
        (forall|i: int| 0 < i <= count ==> #[trigger] walkable(tiles, pos.x + i, pos.y as int))
            ==> travel(tiles, pos, MotionKind::Right, count).x == pos.x + count,
        (forall|i: int| 0 < i <= count ==> #[trigger] walkable(tiles, pos.x - i, pos.y as int))
            ==> travel(tiles, pos, MotionKind::Left, count).x == pos.x - count,
        (forall|i: int| 0 < i <= count ==> #[trigger] walkable(tiles, pos.x as int, pos.y + i))
            ==> travel(tiles, pos, MotionKind::Down, count).y == pos.y + count,
        (forall|i: int| 0 < i <= count ==> #[trigger] walkable(tiles, pos.x as int, pos.y - i))
            ==> travel(tiles, pos, MotionKind::Up, count).y == pos.y - count,
{
    let ahead = motions_ahead_stop_at_walls(tiles, pos, count);
    let back = motions_back_stop_at_walls(tiles, pos, count);
    if ahead.0 < count {
        assert(!walkable(tiles, pos.x + (ahead.0 + 1), pos.y as int));
    }
    if ahead.1 < count {
        assert(!walkable(tiles, pos.x as int, pos.y + (ahead.1 + 1)));
    }
    if back.0 < count {
        assert(!walkable(tiles, pos.x - (back.0 + 1), pos.y as int));
    }
    if back.1 < count {
        assert(!walkable(tiles, pos.x as int, pos.y - (back.1 + 1)));
    }
}

/// Moving changes the player's place and nothing else, and what the grid calls floor is
/// what can be stepped on.
pub proof fn motions_move_the_player_only(grid: GridView, kind: MotionKind, count: nat, x: int, y: int)
    ensures
        grid.moved(kind, count) == (GridView {
            player: travel(grid.tiles, grid.player, kind, count),
            ..grid
        }),
        floor_at(grid.tiles, x, y) == walkable(grid.tiles, x, y),
{
}

/// With each full interval that has passed the lava covers one more row from below,
/// starting from one, up to all rows but the topmost; it changes nothing else, and without
/// an interval it stays. (An interval of nothing counts as a millisecond.)
pub proof fn lava_covers_a_row_per_interval(grid: GridView, elapsed: Duration, passed: nat)
    requires
        passed < usize::MAX,
        grid.tiles.len() <= usize::MAX,
    ensures
        grid.lava_interval matches Some(interval) ==> ((interval.millis() > 0 && passed
            * interval.millis() <= elapsed.millis() < (passed + 1) * interval.millis()) || (
        interval.millis() == 0 && passed == elapsed.millis()) ==> grid.lava_at(elapsed) == (GridView {
            lava_rows: if 1 + passed < grid.tiles.len() {
                (1 + passed) as usize
            } else if grid.tiles.len() > 0 {
                (grid.tiles.len() - 1) as usize
            } else {
                0
            },
            ..grid
        })),
        grid.lava_interval is None ==> grid.lava_at(elapsed) == grid,
{
    match grid.lava_interval {
        Some(interval) => {
            let period = interval.millis() as int;
            let now = elapsed.millis() as int;
            if period == 0 {
                assert(now / 1 == now);
            }
            if period > 0 && passed * period <= now < (passed + 1) * period {
                assert(now / period == passed) by (nonlinear_arith)
                    requires
                        period > 0,
                        passed * period <= now < (passed + 1) * period,
                ;
            }
        },
        None => {},
    }
}

/// The lava catches the player exactly when its rows, counted from the lowest, reach up to
/// the player's.
pub proof fn lava_catches_from_below(grid: GridView)
    ensures
        grid.caught() <==> grid.lava && grid.player.y + grid.lava_rows >= grid.tiles.len(),
{
}

/// The time announced until the lava rises again is never nothing, is at most an interval,
/// and leads to the end of an interval.
pub proof fn the_next_rise_ends_an_interval(grid: GridView, elapsed: Duration)
    ensures
        grid.until_rise(elapsed) is Some == grid.lava_interval is Some,
        grid.lava_interval matches Some(interval) ==> (interval.millis() > 0 ==> (grid.until_rise(
            elapsed,
        ) matches Some(rest) && 1 <= rest <= interval.millis() && (elapsed.millis() + rest)
            % interval.millis() == 0)),
        grid.lava_interval matches Some(interval) ==> (interval.millis() == 0 ==> grid.until_rise(
            elapsed,
        ) == Some(1nat)),
{
    match grid.lava_interval {
        Some(interval) => {
            let period = interval.millis() as int;
            let now = elapsed.millis() as int;
            if period > 0 {
                vstd::arithmetic::div_mod::lemma_fundamental_div_mod(now, period);
                vstd::arithmetic::div_mod::lemma_mod_multiples_basic(now / period + 1, period);
                assert(now + (period - now % period) == (now / period + 1) * period)
                    by (nonlinear_arith)
                    requires
                        now == period * (now / period) + now % period,
                ;
            } else {
                assert(now % 1 == 0);
            }
        },
        None => {},
    }
}

} // verus!

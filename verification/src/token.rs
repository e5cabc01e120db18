//! Token levels: moving a cursor over lines of code, from target to target.

use crate::command::MotionKind;
use crate::level::{TokenSpec, TokenSpecView};
use crate::pos::Pos;
use crate::rng;
use crate::rng::Lcg;
use crate::text;
use vstd::prelude::*;

verus! {

/// The length of line `y`, an empty or a missing one counting as one column.
pub open spec fn columns(lines: Seq<Seq<char>>, y: int) -> nat {
    if 0 <= y < lines.len() && lines[y].len() > 0 {
        lines[y].len()
    } else {
        1
    }
}

/// The last column of line `y`. (No line outgrows a `usize`.)
pub open spec fn last_column(lines: Seq<Seq<char>>, y: int) -> usize {
    if columns(lines, y) <= usize::MAX {
        (columns(lines, y) - 1) as usize
    } else {
        usize::MAX
    }
}

/// A word character stands at `pos`.
pub open spec fn on_word(lines: Seq<Seq<char>>, pos: Pos) -> bool {
    &&& pos.y < lines.len()
    &&& pos.x < lines[pos.y as int].len()
    &&& text::word_char(lines[pos.y as int][pos.x as int])
}

/// The position before `pos`, the end of a line coming before the start of the
/// next. Nothing comes before the very first.
pub open spec fn left(lines: Seq<Seq<char>>, pos: Pos) -> Pos {
    if pos.x > 0 {
        Pos { x: (pos.x - 1) as usize, y: pos.y }
    } else if pos.y > 0 {
        Pos { x: last_column(lines, pos.y - 1), y: (pos.y - 1) as usize }
    } else {
        pos
    }
}

/// The position after `pos`, the start of a line coming after the end of the one
/// before. Nothing comes after the very last. (No line or text outgrows a
/// `usize`.)
pub open spec fn right(lines: Seq<Seq<char>>, pos: Pos) -> Pos {
    if pos.x < usize::MAX && pos.x + 1 < columns(lines, pos.y as int) {
        Pos { x: (pos.x + 1) as usize, y: pos.y }
    } else if pos.y < usize::MAX && pos.y + 1 < lines.len() {
        Pos { x: 0, y: (pos.y + 1) as usize }
    } else {
        pos
    }
}

/// The position `delta` rows down, on the last row at most and on the first at
/// least, in the same column or the last one of a shorter line.
pub open spec fn rows_away(lines: Seq<Seq<char>>, pos: Pos, delta: int) -> Pos {
    let last = if lines.len() == 0 {
        0
    } else {
        lines.len() - 1
    };
    let y = if delta < 0 {
        if pos.y + delta < 0 {
            0
        } else {
            pos.y + delta
        }
    } else if pos.y + delta < last {
        pos.y + delta
    } else {
        last
    };
    Pos {
        x: if pos.x < columns(lines, y) {
            pos.x
        } else {
            last_column(lines, y)
        },
        y: y as usize,
    }
}

/// How many rows are left below `pos`.
pub open spec fn rows_left(lines: Seq<Seq<char>>, pos: Pos) -> nat {
    if pos.y < lines.len() {
        (lines.len() - pos.y) as nat
    } else {
        0
    }
}

/// How many columns are left after `pos`.
pub open spec fn columns_left(lines: Seq<Seq<char>>, pos: Pos) -> nat {
    if pos.x < columns(lines, pos.y as int) {
        (columns(lines, pos.y as int) - pos.x) as nat
    } else {
        0
    }
}

/// The first word character at `pos` or after it, or the last position.
pub open spec fn seek_right(lines: Seq<Seq<char>>, pos: Pos) -> Pos
    decreases rows_left(lines, pos), columns_left(lines, pos),
{
    if on_word(lines, pos) || right(lines, pos) == pos {
        pos
    } else {
        seek_right(lines, right(lines, pos))
    }
}

/// The last position that only word characters lead to, going right from `pos`.
pub open spec fn run_right(lines: Seq<Seq<char>>, pos: Pos) -> Pos
    decreases rows_left(lines, pos), columns_left(lines, pos),
{
    if on_word(lines, right(lines, pos)) && right(lines, pos) != pos {
        run_right(lines, right(lines, pos))
    } else {
        pos
    }
}

/// The last word character at `pos` or before it, or the first position.
pub open spec fn seek_left(lines: Seq<Seq<char>>, pos: Pos) -> Pos
    decreases pos.y, pos.x,
{
    if on_word(lines, pos) || left(lines, pos) == pos {
        pos
    } else {
        seek_left(lines, left(lines, pos))
    }
}

/// The first position that only word characters lead to, going left from `pos`.
pub open spec fn run_left(lines: Seq<Seq<char>>, pos: Pos) -> Pos
    decreases pos.y, pos.x,
{
    if on_word(lines, left(lines, pos)) && left(lines, pos) != pos {
        run_left(lines, left(lines, pos))
    } else {
        pos
    }
}

/// Where one motion leads.
pub open spec fn moved_once(lines: Seq<Seq<char>>, pos: Pos, kind: MotionKind) -> Pos {
    match kind {
        MotionKind::Left => left(lines, pos),
        MotionKind::Right => right(lines, pos),
        MotionKind::Up => rows_away(lines, pos, -1),
        MotionKind::Down => rows_away(lines, pos, 1),
        MotionKind::WordForward => seek_right(lines, right(lines, pos)),
        MotionKind::WordEndForward => run_right(lines, seek_right(lines, right(lines, pos))),
        MotionKind::WordBackward => run_left(lines, seek_left(lines, left(lines, pos))),
        MotionKind::WordEndBackward => run_right(
            lines,
            run_left(lines, seek_left(lines, left(lines, pos))),
        ),
    }
}

/// Where `count` motions lead.
pub open spec fn moved_by(lines: Seq<Seq<char>>, pos: Pos, kind: MotionKind, count: nat) -> Pos
    decreases count,
{
    if count == 0 {
        pos
    } else {
        moved_by(lines, moved_once(lines, pos, kind), kind, (count - 1) as nat)
    }
}

/// The number of the next target, once those from `next` on that the cursor
/// stands on have been collected.
pub open spec fn collected(targets: Seq<Pos>, cursor: Pos, next: nat) -> nat
    decreases targets.len() - next,
{
    if next < targets.len() && targets[next as int] == cursor {
        collected(targets, cursor, next + 1)
    } else {
        next
    }
}

/// The endings that generated lines can get.
pub open spec fn ending(n: nat) -> Seq<char> {
    if n == 0 {
        "_hot"@
    } else if n == 1 {
        "_ok"@
    } else if n == 2 {
        "_v2"@
    } else {
        "_fast"@
    }
}

/// The state of the generator once a line has been decorated or passed over.
pub open spec fn state_after_line(state: u64) -> u64 {
    let next = rng::next_state(state);
    if next % 2 == 0 {
        rng::next_state(next)
    } else {
        next
    }
}

/// The state of the generator before line `y`.
pub open spec fn state_before_line(state: u64, y: nat) -> u64
    decreases y,
{
    if y == 0 {
        state
    } else {
        state_after_line(state_before_line(state, (y - 1) as nat))
    }
}

/// A line with the ending that the generator gives it, if it gives it one.
pub open spec fn decorated_line(line: Seq<char>, state: u64) -> Seq<char> {
    let next = rng::next_state(state);
    if next % 2 == 0 {
        line + ending(rng::range_value(next, 4))
    } else {
        line
    }
}

/// The lines with the endings that a seed gives them.
pub open spec fn decorated(lines: Seq<Seq<char>>, seed: u64) -> Seq<Seq<char>> {
    Seq::new(
        lines.len(),
        |y: int|
            decorated_line(lines[y], state_before_line(rng::first_state(seed), y as nat)),
    )
}

/// The targets as positions.
pub open spec fn target_positions(targets: Seq<(usize, usize)>) -> Seq<Pos> {
    Seq::new(targets.len(), |i: int| Pos { x: targets[i].1, y: targets[i].0 })
}

/// A token level being played.
#[derive(Debug)]
pub struct TokenState {
    pub lines: Vec<String>,
    pub cursor: Pos,
    pub targets: Vec<Pos>,
    pub next_target: usize,
    pub command_budget: usize,
    pub timer_seconds: Option<u64>,
}

/// What a [`TokenState`] holds.
#[verifier::ext_equal]
pub struct TokenView {
    pub lines: Seq<Seq<char>>,
    pub cursor: Pos,
    pub targets: Seq<Pos>,
    pub next_target: usize,
    pub command_budget: usize,
    pub timer_seconds: Option<u64>,
}

impl View for TokenState {
    type V = TokenView;

    open spec fn view(&self) -> TokenView {
        TokenView {
            lines: text::lines_view(self.lines@),
            cursor: self.cursor,
            targets: self.targets@,
            next_target: self.next_target,
            command_budget: self.command_budget,
            timer_seconds: self.timer_seconds,
        }
    }
}

impl TokenView {
    /// A level about to be played. Targets at the very start are collected at once.
    pub open spec fn of_spec(spec: TokenSpecView, seed: u64) -> TokenView {
        TokenView {
            lines: if spec.generated {
                decorated(spec.lines, seed)
            } else {
                spec.lines
            },
            cursor: Pos { x: 0, y: 0 },
            targets: target_positions(spec.targets),
            next_target: 0,
            command_budget: spec.command_budget,
            timer_seconds: spec.timer_seconds,
        }.collect()
    }

    /// No more targets have been collected than there are.
    pub open spec fn wf(self) -> bool {
        self.next_target <= self.targets.len()
    }

    /// The level after a motion.
    pub open spec fn moved(self, kind: MotionKind, count: nat) -> TokenView {
        TokenView { cursor: moved_by(self.lines, self.cursor, kind, count), ..self }
    }

    /// The level after the targets under the cursor have been collected.
    pub open spec fn collect(self) -> TokenView {
        TokenView {
            next_target: collected(self.targets, self.cursor, self.next_target as nat) as usize,
            ..self
        }
    }

    /// All targets have been collected.
    pub open spec fn done(self) -> bool {
        self.next_target == self.targets.len()
    }
}

proof fn lemma_collected_bounds(targets: Seq<Pos>, cursor: Pos, next: nat)
    ensures
        next <= collected(targets, cursor, next),
        next <= targets.len() ==> collected(targets, cursor, next) <= targets.len(),
    decreases targets.len() - next,
{
    if next < targets.len() && targets[next as int] == cursor {
        lemma_collected_bounds(targets, cursor, next + 1);
    }
}

impl TokenState {
    /// Sets the level up for a seed.
    pub fn from_spec(spec: &TokenSpec, seed: u64) -> (token: Self)
        ensures
            token@ == TokenView::of_spec(spec@, seed),
            token@.wf(),
    {
        let mut lines: Vec<String> = text::owned_lines(&spec.lines);
        if spec.generated {
            decorate_generated_tokens(&mut lines, seed);
        }
        let mut targets: Vec<Pos> = Vec::new();
        let mut i: usize = 0;
        while i < spec.targets.len()
            invariant
                i <= spec.targets@.len(),
                targets@ == target_positions(spec.targets@).take(i as int),
            decreases spec.targets@.len() - i,
        {
            let (y, x): (usize, usize) = spec.targets[i];
            targets.push(Pos { x, y });
            i += 1;
        }
        assert(targets@ =~= target_positions(spec.targets@));
        let mut state: TokenState = Self {
            lines,
            cursor: Pos { x: 0, y: 0 },
            targets,
            next_target: 0,
            command_budget: spec.command_budget,
            timer_seconds: spec.timer_seconds,
        };
        state.collect_targets();
        state
    }

    /// Makes a motion `count` times.
    pub fn apply_motion(&mut self, kind: MotionKind, count: usize)
        ensures
            final(self)@ == old(self)@.moved(kind, count as nat),
    {
        let mut done: usize = 0;
        while done < count
            invariant
                done <= count,
                self@ == (TokenView { cursor: self.cursor, ..old(self)@ }),
                moved_by(old(self)@.lines, old(self).cursor, kind, count as nat) == moved_by(
                    old(self)@.lines,
                    self.cursor,
                    kind,
                    (count - done) as nat,
                ),
            decreases count - done,
        {
            let next: Pos = match kind {
                MotionKind::Left => self.left_pos(self.cursor),
                MotionKind::Right => self.right_pos(self.cursor),
                MotionKind::Up => self.vertical(-1),
                MotionKind::Down => self.vertical(1),
                MotionKind::WordForward => self.word_forward(false),
                MotionKind::WordBackward => self.word_backward(false),
                MotionKind::WordEndForward => self.word_forward(true),
                MotionKind::WordEndBackward => self.word_backward(true),
            };
            self.cursor = next;
            done += 1;
        }
    }

    /// Collects the targets that the cursor stands on, in order.
    pub fn collect_targets(&mut self)
        ensures
            final(self)@ == old(self)@.collect(),
            old(self)@.wf() ==> final(self)@.wf(),
    {
        proof {
            lemma_collected_bounds(self.targets@, self.cursor, self.next_target as nat);
        }
        while self.next_target < self.targets.len() && self.targets[self.next_target]
            == self.cursor
            invariant
                self@ == (TokenView { next_target: self.next_target, ..old(self)@ }),
                collected(self.targets@, self.cursor, old(self).next_target as nat) == collected(
                    self.targets@,
                    self.cursor,
                    self.next_target as nat,
                ),
            decreases self.targets@.len() - self.next_target,
        {
            self.next_target += 1;
        }
    }

    /// The position before `pos`.
    pub fn left_pos(&self, pos: Pos) -> (next: Pos)
        ensures
            next == left(self@.lines, pos),
    {
        if pos.x > 0 {
            Pos { x: pos.x - 1, y: pos.y }
        } else if pos.y > 0 {
            Pos { x: self.line_len(pos.y - 1) - 1, y: pos.y - 1 }
        } else {
            pos
        }
    }

    /// The position after `pos`.
    pub fn right_pos(&self, pos: Pos) -> (next: Pos)
        ensures
            next == right(self@.lines, pos),
    {
        if pos.x < self.line_len(pos.y) - 1 {
            Pos { x: pos.x + 1, y: pos.y }
        } else if self.lines.len() > 0 && pos.y < self.lines.len() - 1 {
            Pos { x: 0, y: pos.y + 1 }
        } else {
            pos
        }
    }

    /// The position `delta` rows down, or up where `delta` is negative.
    pub fn vertical(&self, delta: isize) -> (next: Pos)
        ensures
            next == rows_away(self@.lines, self.cursor, delta as int),
    {
        let last: usize = self.lines.len().saturating_sub(1);
        let y: usize = if delta < 0 {
            let up: usize = (-(delta + 1)) as usize + 1;
            self.cursor.y.saturating_sub(up)
        } else {
            self.cursor.y.saturating_add(delta as usize).min(last)
        };
        Pos { x: self.cursor.x.min(self.line_len(y) - 1), y }
    }

    /// The length of line `y`, an empty or a missing one counting as one column.
    pub fn line_len(&self, y: usize) -> (len: usize)
        ensures
            len == columns(self@.lines, y as int),
            len >= 1,
    {
        if y < self.lines.len() {
            self.lines[y].as_str().unicode_len().max(1)
        } else {
            1
        }
    }

    /// The start of the next word, or its end.
    pub fn word_forward(&self, end: bool) -> (next: Pos)
        ensures
            next == moved_once(
                self@.lines,
                self.cursor,
                if end {
                    MotionKind::WordEndForward
                } else {
                    MotionKind::WordForward
                },
            ),
    {
        let found: Pos = self.seek_word_right(self.right_pos(self.cursor));
        if end {
            self.run_word_right(found)
        } else {
            found
        }
    }

    /// The start of the word before the cursor, or its end.
    pub fn word_backward(&self, end: bool) -> (next: Pos)
        ensures
            next == moved_once(
                self@.lines,
                self.cursor,
                if end {
                    MotionKind::WordEndBackward
                } else {
                    MotionKind::WordBackward
                },
            ),
    {
        let found: Pos = self.seek_word_left(self.left_pos(self.cursor));
        let start: Pos = self.run_word_left(found);
        if end {
            self.run_word_right(start)
        } else {
            start
        }
    }

    fn seek_word_right(&self, from: Pos) -> (found: Pos)
        ensures
            found == seek_right(self@.lines, from),
    {
        let mut pos: Pos = from;
        while !self.is_word_char(pos) && pos != self.right_pos(pos)
            invariant
                seek_right(self@.lines, from) == seek_right(self@.lines, pos),
            decreases rows_left(self@.lines, pos), columns_left(self@.lines, pos),
        {
            pos = self.right_pos(pos);
        }
        pos
    }

    fn run_word_right(&self, from: Pos) -> (end: Pos)
        ensures
            end == run_right(self@.lines, from),
    {
        let mut pos: Pos = from;
        while self.is_word_char(self.right_pos(pos)) && self.right_pos(pos) != pos
            invariant
                run_right(self@.lines, from) == run_right(self@.lines, pos),
            decreases rows_left(self@.lines, pos), columns_left(self@.lines, pos),
        {
            pos = self.right_pos(pos);
        }
        pos
    }

    fn seek_word_left(&self, from: Pos) -> (found: Pos)
        ensures
            found == seek_left(self@.lines, from),
    {
        let mut pos: Pos = from;
        while !self.is_word_char(pos) && pos != self.left_pos(pos)
            invariant
                seek_left(self@.lines, from) == seek_left(self@.lines, pos),
            decreases pos.y, pos.x,
        {
            pos = self.left_pos(pos);
        }
        pos
    }

    fn run_word_left(&self, from: Pos) -> (start: Pos)
        ensures
            start == run_left(self@.lines, from),
    {
        let mut pos: Pos = from;
        while self.is_word_char(self.left_pos(pos)) && self.left_pos(pos) != pos
            invariant
                run_left(self@.lines, from) == run_left(self@.lines, pos),
            decreases pos.y, pos.x,
        {
            pos = self.left_pos(pos);
        }
        pos
    }

    /// Whether a word character stands at `pos`.
    pub fn is_word_char(&self, pos: Pos) -> (is: bool)
        ensures
            is == on_word(self@.lines, pos),
    {
        if pos.y < self.lines.len() {
            let line: &str = self.lines[pos.y].as_str();
            pos.x < line.unicode_len() && text::is_word_char(line.get_char(pos.x))
        } else {
            false
        }
    }
}

/// Gives each line the ending that the generator draws for it, if it draws one.
pub fn decorate_generated_tokens(lines: &mut Vec<String>, seed: u64)
    ensures
        text::lines_view(final(lines)@) == decorated(text::lines_view(old(lines)@), seed),
{
    let ghost before = text::lines_view(lines@);
    let ghost first = rng::first_state(seed);
    let mut rng: Lcg = Lcg::new(seed);
    let mut y: usize = 0;
    while y < lines.len()
        invariant
            y <= lines@.len(),
            lines@.len() == before.len(),
            rng.state == state_before_line(first, y as nat),
            forall|j: int|
                0 <= j < y ==> (#[trigger] lines@[j])@ == decorated_line(
                    before[j],
                    state_before_line(first, j as nat),
                ),
            forall|j: int| y <= j < lines@.len() ==> (#[trigger] lines@[j])@ == before[j],
        decreases lines@.len() - y,
    {
        if rng.next() % 2 == 0 {
            let n: usize = rng.range(4);
            let suffix: &'static str = if n == 0 {
                "_hot"
            } else if n == 1 {
                "_ok"
            } else if n == 2 {
                "_v2"
            } else {
                "_fast"
            };
            lines[y].append(suffix);
        }
        y += 1;
    }
    assert(text::lines_view(lines@) =~= decorated(before, seed));
}

/// `pos` is on a line and on a character of it, or in the first column of an
/// empty line or of an empty text.
pub open spec fn in_text(lines: Seq<Seq<char>>, pos: Pos) -> bool {
    &&& pos.y == 0 || pos.y < lines.len()
    &&& pos.x < columns(lines, pos.y as int)
}

/// `a` comes no later than `b` in reading order.
pub open spec fn no_later(a: Pos, b: Pos) -> bool {
    a.y < b.y || (a.y == b.y && a.x <= b.x)
}

/// A count repeats a motion: `a` motions and then `b` motions are `a + b`.
pub proof fn counts_add_up(lines: Seq<Seq<char>>, pos: Pos, kind: MotionKind, a: nat, b: nat)
    ensures
        moved_by(lines, moved_by(lines, pos, kind, a), kind, b) == moved_by(lines, pos, kind, a + b),
    decreases a,
{
    if a > 0 {
        counts_add_up(lines, moved_once(lines, pos, kind), kind, (a - 1) as nat, b);
        assert((a - 1) as nat + b == (a + b - 1) as nat);
    }
}

pub proof fn lemma_seek_right_in_text(lines: Seq<Seq<char>>, pos: Pos)
    requires
        in_text(lines, pos),
    ensures
        in_text(lines, seek_right(lines, pos)),
    decreases rows_left(lines, pos), columns_left(lines, pos),
{
    if !(on_word(lines, pos) || right(lines, pos) == pos) {
        lemma_seek_right_in_text(lines, right(lines, pos));
    }
}

pub proof fn lemma_run_right_in_text(lines: Seq<Seq<char>>, pos: Pos)
    requires
        in_text(lines, pos),
    ensures
        in_text(lines, run_right(lines, pos)),
    decreases rows_left(lines, pos), columns_left(lines, pos),
{
    if on_word(lines, right(lines, pos)) && right(lines, pos) != pos {
        lemma_run_right_in_text(lines, right(lines, pos));
    }
}

proof fn lemma_left_in_text(lines: Seq<Seq<char>>, pos: Pos)
    requires
        in_text(lines, pos),
    ensures
        in_text(lines, left(lines, pos)),
{
}

pub proof fn lemma_seek_left_in_text(lines: Seq<Seq<char>>, pos: Pos)
    requires
        in_text(lines, pos),
    ensures
        in_text(lines, seek_left(lines, pos)),
    decreases pos.y, pos.x,
{
    if !(on_word(lines, pos) || left(lines, pos) == pos) {
        lemma_left_in_text(lines, pos);
        lemma_seek_left_in_text(lines, left(lines, pos));
    }
}

pub proof fn lemma_run_left_in_text(lines: Seq<Seq<char>>, pos: Pos)
    requires
        in_text(lines, pos),
    ensures
        in_text(lines, run_left(lines, pos)),
    decreases pos.y, pos.x,
{
    if on_word(lines, left(lines, pos)) && left(lines, pos) != pos {
        lemma_left_in_text(lines, pos);
        lemma_run_left_in_text(lines, left(lines, pos));
    }
}

/// No motion leads out of the text.
pub proof fn motion_stays_in_text(lines: Seq<Seq<char>>, pos: Pos, kind: MotionKind, count: nat)
    requires
        lines.len() <= usize::MAX,
        in_text(lines, pos),
    ensures
        in_text(lines, moved_by(lines, pos, kind, count)),
    decreases count,
{
    if count > 0 {
        lemma_left_in_text(lines, pos);
        lemma_seek_right_in_text(lines, right(lines, pos));
        lemma_run_right_in_text(lines, seek_right(lines, right(lines, pos)));
        lemma_seek_left_in_text(lines, left(lines, pos));
        lemma_run_left_in_text(lines, seek_left(lines, left(lines, pos)));
        lemma_run_right_in_text(lines, run_left(lines, seek_left(lines, left(lines, pos))));
        motion_stays_in_text(lines, moved_once(lines, pos, kind), kind, (count - 1) as nat);
    }
}

/// Seeking right stops on a word character, or at the end of the text, and skips
/// no word character on the way.
pub proof fn seek_right_finds_the_first(lines: Seq<Seq<char>>, pos: Pos)
    ensures
        ({
            let found = seek_right(lines, pos);
            &&& on_word(lines, found) || right(lines, found) == found
            &&& no_later(pos, found)
            &&& forall|q: Pos|
                no_later(pos, q) && #[trigger] on_word(lines, q) ==> no_later(found, q)
        }),
    decreases rows_left(lines, pos), columns_left(lines, pos),
{
    if !(on_word(lines, pos) || right(lines, pos) == pos) {
        seek_right_finds_the_first(lines, right(lines, pos));
    }
}

/// Seeking left stops on a word character, or at the start of the text, and skips
/// no word character on the way.
pub proof fn seek_left_finds_the_last(lines: Seq<Seq<char>>, pos: Pos)
    ensures
        ({
            let found = seek_left(lines, pos);
            &&& on_word(lines, found) || left(lines, found) == found
            &&& no_later(found, pos)
            &&& forall|q: Pos|
                no_later(q, pos) && #[trigger] on_word(lines, q) ==> no_later(q, found)
        }),
    decreases pos.y, pos.x,
{
    if !(on_word(lines, pos) || left(lines, pos) == pos) {
        seek_left_finds_the_last(lines, left(lines, pos));
    }
}

/// Targets are only ever collected in order, and a target once collected stays
/// collected.
pub proof fn targets_are_collected_in_order(targets: Seq<Pos>, cursor: Pos, next: nat)
    requires
        next <= targets.len(),
    ensures
        next <= collected(targets, cursor, next) <= targets.len(),
        forall|i: int| next <= i < collected(targets, cursor, next) ==> #[trigger] targets[i] == cursor,
        collected(targets, cursor, next) < targets.len() ==> targets[collected(
            targets,
            cursor,
            next,
        ) as int] != cursor,
    decreases targets.len() - next,
{
    if next < targets.len() && targets[next as int] == cursor {
        targets_are_collected_in_order(targets, cursor, next + 1);
    }
}

/// Decorating only ever appends, and what it appends has at least three
/// characters.
pub proof fn decorating_appends(lines: Seq<Seq<char>>, seed: u64, y: int)
    requires
        0 <= y < lines.len(),
    ensures
        ({
            let state = state_before_line(rng::first_state(seed), y as nat);
            let after = decorated(lines, seed)[y];
            &&& lines[y].is_prefix_of(after)
            &&& rng::next_state(state) % 2 == 0 ==> after.len() >= lines[y].len() + 3
            &&& rng::next_state(state) % 2 != 0 ==> after == lines[y]
        }),
{
    reveal_strlit("_hot");
    reveal_strlit("_ok");
    reveal_strlit("_v2");
    reveal_strlit("_fast");
    assert(lines[y].is_prefix_of(lines[y])) by {
        assert(lines[y] =~= lines[y].subrange(0, lines[y].len() as int));
    }
    let after = decorated(lines, seed)[y];
    assert(lines[y] =~= after.subrange(0, lines[y].len() as int));
}

/// Every line after the first is decorated, and the first is if the seed is odd
/// or zero.
pub proof fn which_lines_are_decorated(seed: u64, y: nat)
    ensures
        ({
            let state = state_before_line(rng::first_state(seed), y);
            rng::next_state(state) % 2 == 0 <==> y > 0 || rng::first_state(seed) % 2 == 1
        }),
    decreases y,
{
    let state = state_before_line(rng::first_state(seed), y);
    rng::parity_alternates(state);
    if y > 0 {
        let before = state_before_line(rng::first_state(seed), (y - 1) as nat);
        rng::parity_alternates(before);
        rng::parity_alternates(rng::next_state(before));
    }
}

} // verus!

//! What the motions over a text come to: where each of them leads, in terms of the text
//! alone.

use crate::command::MotionKind;
use crate::level::TokenSpecView;
use crate::pos::Pos;
use crate::rng;
use crate::text;
use crate::token;
use crate::token::TokenView;
use vstd::prelude::*;

verus! {

/// The cursor can stand at `pos`: on a character, or at the start of an empty line.
pub open spec fn place(lines: Seq<Seq<char>>, pos: Pos) -> bool {
    pos.y < lines.len() && (pos.x < lines[pos.y as int].len() || pos.x == 0)
}

/// `a` comes before `b` in reading order.
pub open spec fn before(a: Pos, b: Pos) -> bool {
    a.y < b.y || (a.y == b.y && a.x < b.x)
}

/// A word character stands at `pos`.
pub open spec fn word_at(lines: Seq<Seq<char>>, pos: Pos) -> bool {
    pos.y < lines.len() && pos.x < lines[pos.y as int].len() && text::word_char(
        lines[pos.y as int][pos.x as int],
    )
}

/// The lines can be numbered, and so can the characters of each.
pub open spec fn numbered(lines: Seq<Seq<char>>) -> bool {
    lines.len() <= usize::MAX && forall|y: int|
        0 <= y < lines.len() ==> (#[trigger] lines[y]).len() <= usize::MAX
}

/// `l` leads to the next place in reading order, and stays on the last one.
pub proof fn right_leads_to_the_next_place(lines: Seq<Seq<char>>, pos: Pos)
    requires
        numbered(lines),
        place(lines, pos),
    ensures
        ({
            let next = token::moved_by(lines, pos, MotionKind::Right, 1);
            &&& place(lines, next)
            &&& next == pos || before(pos, next)
            &&& forall|q: Pos|
                #[trigger] place(lines, q) && before(pos, q) ==> next != pos && (q == next
                    || before(next, q))
        }),
{
    reveal_with_fuel(token::moved_by, 2);
    assert(token::moved_by(lines, pos, MotionKind::Right, 1) == token::right(lines, pos));
}

/// `h` leads to the place before in reading order, and stays on the first one.
pub proof fn left_leads_to_the_place_before(lines: Seq<Seq<char>>, pos: Pos)
    requires
        numbered(lines),
        place(lines, pos),
    ensures
        ({
            let next = token::moved_by(lines, pos, MotionKind::Left, 1);
            &&& place(lines, next)
            &&& next == pos || before(next, pos)
            &&& forall|q: Pos|
                #[trigger] place(lines, q) && before(q, pos) ==> next != pos && (q == next
                    || before(q, next))
        }),
{
    reveal_with_fuel(token::moved_by, 2);
    assert(token::moved_by(lines, pos, MotionKind::Left, 1) == token::left(lines, pos));
}

/// `j` and `k` lead to the next row below or above, if there is one, and keep the column
/// wherever that row has it; otherwise they lead to that row's last place.
pub proof fn rows_keep_the_column(lines: Seq<Seq<char>>, pos: Pos, kind: MotionKind)
    requires
        numbered(lines),
        place(lines, pos),
        kind is Down || kind is Up,
    ensures
        ({
            let next = token::moved_by(lines, pos, kind, 1);
            &&& kind is Down ==> next.y == if pos.y + 1 < lines.len() {
                pos.y + 1
            } else {
                pos.y as int
            }
            &&& kind is Up ==> next.y == if pos.y > 0 {
                pos.y - 1
            } else {
                0
            }
            &&& pos.x < lines[next.y as int].len() ==> next.x == pos.x
            &&& 0 < lines[next.y as int].len() <= pos.x ==> next.x == lines[next.y as int].len() - 1
            &&& lines[next.y as int].len() == 0 ==> next.x == 0
        }),
{
    reveal_with_fuel(token::moved_by, 2);
    assert(token::moved_by(lines, pos, kind, 1) == token::moved_once(lines, pos, kind));
}

/// Going up and down again, or down and up, comes back wherever the other row has the
/// column.
pub proof fn rows_there_and_back(lines: Seq<Seq<char>>, pos: Pos)
    requires
        numbered(lines),
        place(lines, pos),
    ensures
        pos.y > 0 && pos.x < lines[pos.y - 1].len() ==> token::moved_by(
            lines,
            token::moved_by(lines, pos, MotionKind::Up, 1),
            MotionKind::Down,
            1,
        ) == pos,
        pos.y + 1 < lines.len() && pos.x < lines[pos.y + 1].len() ==> token::moved_by(
            lines,
            token::moved_by(lines, pos, MotionKind::Down, 1),
            MotionKind::Up,
            1,
        ) == pos,
{
    rows_keep_the_column(lines, pos, MotionKind::Up);
    rows_keep_the_column(lines, pos, MotionKind::Down);
    let up = token::moved_by(lines, pos, MotionKind::Up, 1);
    let down = token::moved_by(lines, pos, MotionKind::Down, 1);
    if pos.y > 0 && pos.x < lines[pos.y - 1].len() {
        rows_keep_the_column(lines, up, MotionKind::Down);
    }
    if pos.y + 1 < lines.len() && pos.x < lines[pos.y + 1].len() {
        rows_keep_the_column(lines, down, MotionKind::Up);
    }
}

/// A motion counted once is made once, and one counted zero times not at all; a longer
/// count is the rest of it after the first.
pub proof fn counts_repeat(lines: Seq<Seq<char>>, pos: Pos, kind: MotionKind, count: nat)
    ensures
        token::moved_by(lines, pos, kind, 0) == pos,
        token::moved_by(lines, pos, kind, count + 1) == token::moved_by(
            lines,
            token::moved_by(lines, pos, kind, 1),
            kind,
            count,
        ),
        token::moved_by(lines, pos, kind, count + 1) == token::moved_by(
            lines,
            token::moved_by(lines, pos, kind, count),
            kind,
            1,
        ),
{
    token::counts_add_up(lines, pos, kind, 1, count);
    token::counts_add_up(lines, pos, kind, count, 1);
}

proof fn lemma_place_is_in_text(lines: Seq<Seq<char>>, pos: Pos)
    requires
        place(lines, pos),
    ensures
        token::in_text(lines, pos),
{
}

proof fn lemma_in_text_is_place(lines: Seq<Seq<char>>, pos: Pos)
    requires
        lines.len() > 0,
        token::in_text(lines, pos),
    ensures
        place(lines, pos),
{
}

/// `w` leads to the first word character after the cursor, over line ends, or to the last
/// place where there is none.
pub proof fn word_forward_leads_to_the_next_word_character(lines: Seq<Seq<char>>, pos: Pos)
    requires
        numbered(lines),
        place(lines, pos),
    ensures
        ({
            let next = token::moved_by(lines, pos, MotionKind::WordForward, 1);
            &&& place(lines, next)
            &&& forall|q: Pos|
                #[trigger] word_at(lines, q) && before(pos, q) ==> word_at(lines, next) && before(
                    pos,
                    next,
                ) && (q == next || before(next, q))
            &&& (forall|q: Pos| #[trigger] word_at(lines, q) ==> !before(pos, q)) ==> (forall|q: Pos|
                #[trigger] place(lines, q) ==> !before(next, q))
        }),
{
    reveal_with_fuel(token::moved_by, 2);
    let first = token::right(lines, pos);
    let found = token::seek_right(lines, first);
    assert(token::moved_by(lines, pos, MotionKind::WordForward, 1) == found);
    right_leads_to_the_next_place(lines, pos);
    assert(token::moved_by(lines, pos, MotionKind::Right, 1) == first);
    lemma_place_is_in_text(lines, first);
    token::lemma_seek_right_in_text(lines, first);
    lemma_in_text_is_place(lines, found);
    token::seek_right_finds_the_first(lines, first);
    assert forall|q: Pos| #[trigger] word_at(lines, q) && before(pos, q) implies word_at(
        lines,
        found,
    ) && before(pos, found) && (q == found || before(found, q)) by {
        assert(place(lines, q));
        assert(token::on_word(lines, q));
        assert(token::no_later(first, q));
        assert(token::no_later(found, q));
        if !token::on_word(lines, found) {
            lemma_stuck_right(lines, found);
        }
    }
    if forall|q: Pos| #[trigger] word_at(lines, q) ==> !before(pos, q) {
        if token::on_word(lines, found) {
            assert(word_at(lines, found));
            assert(first == pos);
        }
        if first == pos {
            lemma_stuck_right(lines, pos);
            assert(found == pos || before(pos, found));
        } else {
            assert(token::right(lines, found) == found);
            lemma_stuck_right(lines, found);
        }
    }
}

/// Where the next place is the same one, no place comes after.
proof fn lemma_stuck_right(lines: Seq<Seq<char>>, pos: Pos)
    requires
        numbered(lines),
        place(lines, pos),
        token::right(lines, pos) == pos,
    ensures
        forall|q: Pos| #[trigger] place(lines, q) ==> !before(pos, q),
{
    reveal_with_fuel(token::moved_by, 2);
    right_leads_to_the_next_place(lines, pos);
    assert(token::moved_by(lines, pos, MotionKind::Right, 1) == pos);
}

/// `end` is where a stretch of word characters ends that starts right after `start`: all
/// places after `start` up to `end` hold one, and the next place does not.
pub open spec fn ends_the_stretch(lines: Seq<Seq<char>>, start: Pos, end: Pos) -> bool {
    &&& place(lines, end)
    &&& start == end || before(start, end)
    &&& forall|q: Pos|
        #[trigger] place(lines, q) && before(start, q) && !before(end, q) ==> word_at(lines, q)
    &&& {
        let next = token::moved_by(lines, end, MotionKind::Right, 1);
        next == end || !word_at(lines, next)
    }
}

proof fn lemma_run_right(lines: Seq<Seq<char>>, pos: Pos)
    requires
        numbered(lines),
        place(lines, pos),
    ensures
        ends_the_stretch(lines, pos, token::run_right(lines, pos)),
    decreases token::rows_left(lines, pos), token::columns_left(lines, pos),
{
    let next = token::right(lines, pos);
    let end = token::run_right(lines, pos);
    reveal_with_fuel(token::moved_by, 2);
    right_leads_to_the_next_place(lines, pos);
    assert(token::moved_by(lines, pos, MotionKind::Right, 1) == next);
    if token::on_word(lines, next) && next != pos {
        lemma_run_right(lines, next);
        assert forall|q: Pos|
            #[trigger] place(lines, q) && before(pos, q) && !before(end, q) implies word_at(
            lines,
            q,
        ) by {
            if q != next {
                assert(before(next, q));
            }
        }
    } else {
        assert(end == pos);
    }
}

/// `e` goes to where `w` goes, and on to the end of that word.
pub proof fn word_end_ends_the_next_word(lines: Seq<Seq<char>>, pos: Pos)
    requires
        numbered(lines),
        place(lines, pos),
    ensures
        ends_the_stretch(
            lines,
            token::moved_by(lines, pos, MotionKind::WordForward, 1),
            token::moved_by(lines, pos, MotionKind::WordEndForward, 1),
        ),
{
    reveal_with_fuel(token::moved_by, 2);
    let found = token::seek_right(lines, token::right(lines, pos));
    assert(token::moved_by(lines, pos, MotionKind::WordForward, 1) == found);
    assert(token::moved_by(lines, pos, MotionKind::WordEndForward, 1) == token::run_right(
        lines,
        found,
    ));
    word_forward_leads_to_the_next_word_character(lines, pos);
    lemma_run_right(lines, found);
}

proof fn lemma_seek_left(lines: Seq<Seq<char>>, pos: Pos)
    requires
        numbered(lines),
        place(lines, pos),
    ensures
        ({
            let found = token::seek_left(lines, pos);
            &&& place(lines, found)
            &&& word_at(lines, found) || (found.x == 0 && found.y == 0)
            &&& found == pos || before(found, pos)
            &&& forall|q: Pos|
                #[trigger] word_at(lines, q) && !before(pos, q) ==> word_at(lines, found) && (q
                    == found || before(q, found))
        }),
{
    let found = token::seek_left(lines, pos);
    lemma_place_is_in_text(lines, pos);
    token::lemma_seek_left_in_text(lines, pos);
    lemma_in_text_is_place(lines, found);
    token::seek_left_finds_the_last(lines, pos);
    assert forall|q: Pos| #[trigger] word_at(lines, q) && !before(pos, q) implies word_at(
        lines,
        found,
    ) && (q == found || before(q, found)) by {
        assert(token::on_word(lines, q));
        assert(token::no_later(q, found));
    }
}

proof fn lemma_run_left(lines: Seq<Seq<char>>, pos: Pos)
    requires
        numbered(lines),
        place(lines, pos),
    ensures
        ({
            let start = token::run_left(lines, pos);
            &&& place(lines, start)
            &&& start == pos || before(start, pos)
            &&& forall|q: Pos|
                #[trigger] place(lines, q) && !before(q, start) && before(q, pos) ==> word_at(
                    lines,
                    q,
                )
            &&& token::left(lines, start) == start || !word_at(lines, token::left(lines, start))
        }),
    decreases pos.y, pos.x,
{
    let next = token::left(lines, pos);
    let start = token::run_left(lines, pos);
    reveal_with_fuel(token::moved_by, 2);
    left_leads_to_the_place_before(lines, pos);
    assert(token::moved_by(lines, pos, MotionKind::Left, 1) == next);
    if token::on_word(lines, next) && next != pos {
        lemma_run_left(lines, next);
        assert forall|q: Pos|
            #[trigger] place(lines, q) && !before(q, start) && before(q, pos) implies word_at(
            lines,
            q,
        ) by {
            if q != next {
                assert(before(q, next));
            }
        }
    } else {
        assert(start == pos);
    }
}

/// `b` leads to the start of the word that the last word character before the cursor
/// belongs to, or to the very first place where there is none.
pub proof fn word_backward_starts_the_word_before(lines: Seq<Seq<char>>, pos: Pos, last: Pos)
    requires
        numbered(lines),
        place(lines, pos),
        word_at(lines, last),
        before(last, pos),
        forall|q: Pos| #[trigger] word_at(lines, q) && before(q, pos) ==> q == last || before(q, last),
    ensures
        ({
            let start = token::moved_by(lines, pos, MotionKind::WordBackward, 1);
            let behind = token::moved_by(lines, start, MotionKind::Left, 1);
            &&& place(lines, start)
            &&& start == last || before(start, last)
            &&& forall|q: Pos|
                #[trigger] place(lines, q) && !before(q, start) && !before(last, q) ==> word_at(
                    lines,
                    q,
                )
            &&& behind == start || !word_at(lines, behind)
        }),
{
    reveal_with_fuel(token::moved_by, 2);
    let first = token::left(lines, pos);
    let found = token::seek_left(lines, first);
    let start = token::run_left(lines, found);
    left_leads_to_the_place_before(lines, pos);
    assert(token::moved_by(lines, pos, MotionKind::Left, 1) == first);
    assert(place(lines, last));
    lemma_seek_left(lines, first);
    assert(word_at(lines, found));
    assert(found == last) by {
        assert(last == found || before(last, found));
        assert(before(found, pos));
    }
    lemma_run_left(lines, found);
    assert(token::moved_by(lines, pos, MotionKind::WordBackward, 1) == start);
    assert(token::moved_by(lines, start, MotionKind::Left, 1) == token::left(lines, start));
}

/// Without a word character before the cursor, `b` leads to the very first place.
pub proof fn word_backward_ends_at_the_start(lines: Seq<Seq<char>>, pos: Pos)
    requires
        numbered(lines),
        place(lines, pos),
        forall|q: Pos| #[trigger] word_at(lines, q) ==> !before(q, pos),
    ensures
        token::moved_by(lines, pos, MotionKind::WordBackward, 1) == (Pos { x: 0, y: 0 }),
{
    reveal_with_fuel(token::moved_by, 2);
    let first = token::left(lines, pos);
    let found = token::seek_left(lines, first);
    left_leads_to_the_place_before(lines, pos);
    assert(token::moved_by(lines, pos, MotionKind::Left, 1) == first);
    lemma_seek_left(lines, first);
    if !(found.x == 0 && found.y == 0) {
        assert(word_at(lines, found));
        assert(first == pos);
    }
    if first == pos {
        assert(pos.x == 0 && pos.y == 0) by {
            let origin = Pos { x: 0, y: 0 };
            assert(place(lines, origin));
        }
    }
    lemma_run_left(lines, found);
}

/// `ge` goes to where `b` goes, and from there to the end of that word.
pub proof fn word_end_backward_ends_the_word_before(lines: Seq<Seq<char>>, pos: Pos)
    requires
        numbered(lines),
        place(lines, pos),
    ensures
        ends_the_stretch(
            lines,
            token::moved_by(lines, pos, MotionKind::WordBackward, 1),
            token::moved_by(lines, pos, MotionKind::WordEndBackward, 1),
        ),
{
    reveal_with_fuel(token::moved_by, 2);
    let first = token::left(lines, pos);
    let found = token::seek_left(lines, first);
    let start = token::run_left(lines, found);
    left_leads_to_the_place_before(lines, pos);
    assert(token::moved_by(lines, pos, MotionKind::Left, 1) == first);
    lemma_seek_left(lines, first);
    lemma_run_left(lines, found);
    lemma_run_right(lines, start);
    assert(token::moved_by(lines, pos, MotionKind::WordBackward, 1) == start);
    assert(token::moved_by(lines, pos, MotionKind::WordEndBackward, 1) == token::run_right(
        lines,
        start,
    ));
}

/// A motion moves the cursor and nothing else. Collecting takes the targets under the
/// cursor, one after the other, and stops at the first that lies elsewhere; the level is
/// done when none is left.
pub proof fn targets_are_collected_where_the_cursor_stands(
    token: TokenView,
    kind: MotionKind,
    count: nat,
)
    requires
        token.wf(),
        token.targets.len() <= usize::MAX,
    ensures
        token.moved(kind, count) == (TokenView {
            cursor: token::moved_by(token.lines, token.cursor, kind, count),
            ..token
        }),
        ({
            let after = token.collect();
            &&& after == (TokenView { next_target: after.next_target, ..token })
            &&& token.next_target <= after.next_target <= token.targets.len()
            &&& forall|i: int|
                token.next_target <= i < after.next_target ==> #[trigger] token.targets[i]
                    == token.cursor
            &&& after.next_target < token.targets.len() ==> token.targets[after.next_target as int]
                != token.cursor
        }),
        token.done() <==> token.next_target == token.targets.len(),
{
    token::targets_are_collected_in_order(token.targets, token.cursor, token.next_target as nat);
}

/// What a line leaves of the generator's state, modulo four.
proof fn lemma_line_mod_four(state: u64)
    ensures
        state % 2 == 1 ==> token::state_after_line(state) % 4 == (state + 2) % 4,
        state % 2 == 0 ==> token::state_after_line(state) % 4 == (state + 3) % 4,
{
    let one = rng::next_state(state);
    let two = rng::next_state(one);
    rng::remainders_by_four_count_down(state);
    rng::remainders_by_four_count_down(one);
    assert(token::state_after_line(state) == if one % 2 == 0 {
        two
    } else {
        one
    });
    lemma_count_down(state as int, one as int, two as int);
}

/// What is equal modulo four stays so when a number is added, and is equal modulo two.
proof fn lemma_shift(a: int, b: int, k: int)
    requires
        a % 4 == b % 4,
    ensures
        (a + k) % 4 == (b + k) % 4,
        (a + k + 4) % 4 == (b + k) % 4,
        a % 2 == b % 2,
{
    let q = a / 4 - b / 4;
    assert(a == 4 * q + b);
    vstd::arithmetic::div_mod::lemma_mod_multiples_vanish(q, b + k, 4);
    vstd::arithmetic::div_mod::lemma_mod_multiples_vanish(q + 1, b + k, 4);
    vstd::arithmetic::div_mod::lemma_mod_multiples_vanish(2 * q, b, 2);
}

/// Twice a number adds nothing modulo two.
proof fn lemma_even(a: int, y: int)
    ensures
        (a + 2 * y) % 2 == a % 2,
        (a + 2 * y + 1) % 2 == (a + 1) % 2,
        (a + 1) % 2 == 1 - a % 2,
{
    vstd::arithmetic::div_mod::lemma_mod_multiples_vanish(y, a, 2);
    vstd::arithmetic::div_mod::lemma_mod_multiples_vanish(y, a + 1, 2);
}

proof fn lemma_count_down(state: int, one: int, two: int)
    requires
        one % 4 == (state + 3) % 4,
        two % 4 == (one + 3) % 4,
    ensures
        state % 2 == 1 ==> one % 2 == 0 && two % 4 == (state + 2) % 4,
        state % 2 == 0 ==> one % 2 == 1 && one % 4 == (state + 3) % 4,
{
    lemma_shift(one, state + 3, 3);
    lemma_shift(state, state, 2);
    lemma_even(state, 1);
    assert(state + 3 == state + 2 * 1 + 1);
}

proof fn lemma_state_mod_four(first: u64, y: nat)
    ensures
        first % 2 == 1 || y == 0 ==> token::state_before_line(first, y) % 4 == (first + 2 * y) % 4,
        first % 2 == 0 && y > 0 ==> token::state_before_line(first, y) % 4 == (first + 2 * y + 1)
            % 4,
    decreases y,
{
    if y > 0 {
        let before = token::state_before_line(first, (y - 1) as nat);
        lemma_state_mod_four(first, (y - 1) as nat);
        lemma_line_mod_four(before);
        lemma_parity(first as int, before as int, y as int);
    }
}

proof fn lemma_parity(first: int, state: int, y: int)
    requires
        y > 0,
        first % 2 == 1 || y == 1 ==> state % 4 == (first + 2 * (y - 1)) % 4,
        first % 2 == 0 && y > 1 ==> state % 4 == (first + 2 * (y - 1) + 1) % 4,
    ensures
        first % 2 == 1 ==> state % 2 == 1 && (state + 2) % 4 == (first + 2 * y) % 4,
        first % 2 == 0 && y == 1 ==> state % 2 == 0 && (state + 3) % 4 == (first + 2 * y + 1) % 4,
        first % 2 == 0 && y > 1 ==> state % 2 == 1 && (state + 2) % 4 == (first + 2 * y + 1) % 4,
{
    lemma_even(first, y - 1);
    if first % 2 == 1 || y == 1 {
        lemma_shift(state, first + 2 * (y - 1), 2);
        lemma_shift(state, first + 2 * (y - 1), 3);
    } else {
        lemma_shift(state, first + 2 * (y - 1) + 1, 2);
    }
}

/// The ending of a line whose generator state is known modulo four.
proof fn lemma_ending_mod_four(line: Seq<char>, state: u64)
    ensures
        state % 2 == 0 ==> token::decorated_line(line, state) == line,
        state % 2 == 1 ==> token::decorated_line(line, state) == line + token::ending(
            ((state + 2) % 4) as nat,
        ),
{
    let one = rng::next_state(state);
    let two = rng::next_state(one);
    rng::remainders_by_four_count_down(state);
    rng::remainders_by_four_count_down(one);
    lemma_count_down(state as int, one as int, two as int);
    lemma_usize_mod_four(two);
    assert(rng::range_value(one, 4) == (two as usize) as nat % 4);
}

/// The ending that a seed gives a line follows from the seed and the number of the line:
/// an odd seed (or zero, which counts as one) gives every line an ending, an even one every
/// line but the first, and which of the four it is goes by the remainder by four.
pub proof fn endings_follow_from_the_seed(lines: Seq<Seq<char>>, seed: u64, y: int)
    requires
        0 <= y < lines.len(),
    ensures
        token::decorated(lines, seed).len() == lines.len(),
        ({
            let odd = seed == 0 || seed % 2 == 1;
            let number = if seed == 0 {
                1int
            } else {
                seed as int
            } + 2 * y + if odd {
                2int
            } else {
                3int
            };
            let after = token::decorated(lines, seed)[y];
            if !odd && y == 0 {
                after == lines[y]
            } else if number % 4 == 0 {
                after == lines[y] + "_hot"@
            } else if number % 4 == 1 {
                after == lines[y] + "_ok"@
            } else if number % 4 == 2 {
                after == lines[y] + "_v2"@
            } else {
                after == lines[y] + "_fast"@
            }
        }),
{
    let first = rng::first_state(seed);
    let state = token::state_before_line(first, y as nat);
    lemma_state_mod_four(first, y as nat);
    lemma_ending_mod_four(lines[y], state);
    lemma_line_number(first as int, state as int, y);
    assert(token::decorated(lines, seed)[y] == token::decorated_line(lines[y], state));
}

proof fn lemma_line_number(first: int, state: int, y: int)
    requires
        y >= 0,
        first % 2 == 1 || y == 0 ==> state % 4 == (first + 2 * y) % 4,
        first % 2 == 0 && y > 0 ==> state % 4 == (first + 2 * y + 1) % 4,
    ensures
        first % 2 == 1 ==> state % 2 == 1 && (state + 2) % 4 == (first + 2 * y + 2) % 4,
        first % 2 == 0 && y == 0 ==> state % 2 == 0,
        first % 2 == 0 && y > 0 ==> state % 2 == 1 && (state + 2) % 4 == (first + 2 * y + 3) % 4,
{
    lemma_even(first, y);
    if first % 2 == 1 || y == 0 {
        lemma_shift(state, first + 2 * y, 2);
    } else {
        lemma_shift(state, first + 2 * y + 1, 2);
    }
}

proof fn lemma_usize_mod_four(n: u64)
    ensures
        (n as usize) % 4 == n % 4,
{
    assert((n as usize) % 4 == n % 4) by (bit_vector);
}

/// A token level starts at the top, with the text of its own seed and all its targets.
pub proof fn token_levels_start_from_their_seed(spec: TokenSpecView, seed: u64)
    requires
        spec.targets.len() <= usize::MAX,
    ensures
        ({
            let token = TokenView::of_spec(spec, seed);
            &&& token.lines == if spec.generated {
                token::decorated(spec.lines, seed)
            } else {
                spec.lines
            }
            &&& token.cursor == (Pos { x: 0, y: 0 })
            &&& token.targets.len() == spec.targets.len()
            &&& forall|i: int|
                0 <= i < spec.targets.len() ==> token.targets[i].y == (
                #[trigger] spec.targets[i]).0 && token.targets[i].x == spec.targets[i].1
            &&& token.command_budget == spec.command_budget
            &&& token.timer_seconds == spec.timer_seconds
            &&& token.next_target <= spec.targets.len()
            &&& forall|i: int|
                0 <= i < token.next_target ==> (#[trigger] spec.targets[i]).0 == 0
                    && spec.targets[i].1 == 0
            &&& token.next_target < spec.targets.len()
                ==> spec.targets[token.next_target as int].0 > 0
                || spec.targets[token.next_target as int].1 > 0
        }),
{
    let targets = token::target_positions(spec.targets);
    let origin = Pos { x: 0, y: 0 };
    token::targets_are_collected_in_order(targets, origin, 0);
    let next = token::collected(targets, origin, 0);
    assert forall|i: int| 0 <= i < next implies (#[trigger] spec.targets[i]).0 == 0
        && spec.targets[i].1 == 0 by {
        assert(targets[i] == origin);
    }
}

/// The single steps are what a motion counted once makes of them, and what counts as a column
/// and as a word is what the line holds: an empty or missing line has one column and no word.
pub proof fn steps_are_motions(lines: Seq<Seq<char>>, pos: Pos, kind: MotionKind)
    ensures
        token::moved_once(lines, pos, kind) == token::moved_by(lines, pos, kind, 1),
        token::left(lines, pos) == token::moved_by(lines, pos, MotionKind::Left, 1),
        token::right(lines, pos) == token::moved_by(lines, pos, MotionKind::Right, 1),
        token::on_word(lines, pos) == word_at(lines, pos),
        token::columns(lines, pos.y as int) == if pos.y < lines.len() && lines[pos.y as int].len()
            > 0 {
            lines[pos.y as int].len()
        } else {
            1
        },
{
    reveal_with_fuel(token::moved_by, 2);
}

/// Going so many rows up or down stops at the first row and at the last, and keeps the column
/// wherever the row has it.
pub proof fn rows_stop_at_the_ends(lines: Seq<Seq<char>>, pos: Pos, delta: int)
    requires
        numbered(lines),
        place(lines, pos),
    ensures
        ({
            let next = token::rows_away(lines, pos, delta);
            &&& next.y == if pos.y + delta < 0 {
                0
            } else if pos.y + delta < lines.len() {
                pos.y + delta
            } else {
                lines.len() - 1
            }
            &&& pos.x < lines[next.y as int].len() ==> next.x == pos.x
            &&& 0 < lines[next.y as int].len() <= pos.x ==> next.x == lines[next.y as int].len() - 1
            &&& lines[next.y as int].len() == 0 ==> next.x == 0
        }),
{
}

} // verus!

//! What each edit does to a text, and to nothing else.

use crate::command::MotionKind;
use crate::edit;
use crate::edit::{EditView, EditorMode};
use crate::level::EditSpecView;
use crate::pos::Pos;
use crate::text;
use crate::token;
use vstd::prelude::*;

verus! {

/// An edit level starts with its own text, cursor and limits, in normal mode, and with
/// nothing to undo; it is solved when the text is the one asked for.
pub proof fn edit_levels_start_with_their_text(spec: EditSpecView)
    ensures
        ({
            let e = EditView::of_spec(spec);
            &&& e.lines == spec.start
            &&& e.expected == spec.expected
            &&& e.cursor == spec.cursor
            &&& e.mode == EditorMode::Normal
            &&& e.undo.len() == 0
            &&& e.command_budget == spec.command_budget
            &&& e.timer_seconds == spec.timer_seconds
            &&& e.matches_target() <==> spec.start == spec.expected
        }),
{
}

/// `x` takes the character under the cursor out of its line. What follows moves up, and the
/// cursor steps back where it would be past the end. Without a character nothing happens.
pub proof fn x_takes_one_character(e: EditView)
    requires
        e.cursor.y < e.lines.len(),
    ensures
        ({
            let line = e.lines[e.cursor.y as int];
            let x = e.cursor.x as int;
            if x < line.len() {
                &&& e.without_char() == (EditView {
                    lines: e.without_char().lines,
                    cursor: e.without_char().cursor,
                    ..e
                })
                &&& e.without_char().lines == e.lines.update(
                    e.cursor.y as int,
                    line.take(x) + line.skip(x + 1),
                )
                &&& e.without_char().cursor.y == e.cursor.y
                &&& e.without_char().cursor.x == if x + 1 < line.len() || x == 0 {
                    x
                } else {
                    x - 1
                }
            } else {
                e.without_char() == e
            }
        }),
{
    let line = e.lines[e.cursor.y as int];
    if e.cursor.x < line.len() {
        let x = e.cursor.x as int;
        assert(line.remove(x) =~= line.take(x) + line.skip(x + 1));
    }
}

/// `r` puts a character in the place of the one under the cursor and changes nothing else.
pub proof fn r_replaces_one_character(e: EditView, ch: char)
    requires
        e.cursor.y < e.lines.len(),
    ensures
        ({
            let line = e.lines[e.cursor.y as int];
            let x = e.cursor.x as int;
            if x < line.len() {
                e.with_char(ch) == (EditView {
                    lines: e.lines.update(
                        e.cursor.y as int,
                        line.take(x) + seq![ch] + line.skip(x + 1),
                    ),
                    ..e
                })
            } else {
                e.with_char(ch) == e
            }
        }),
{
    let line = e.lines[e.cursor.y as int];
    if e.cursor.x < line.len() {
        let x = e.cursor.x as int;
        assert(line.update(x, ch) =~= line.take(x) + seq![ch] + line.skip(x + 1));
    }
}

proof fn lemma_next_word_is(line: Seq<char>, from: int, start: int)
    requires
        0 <= from <= start <= line.len(),
        forall|i: int| from <= i < start ==> !text::word_char(#[trigger] line[i]),
        start < line.len() ==> text::word_char(line[start]),
    ensures
        edit::next_word(line, from) == start,
    decreases start - from,
{
    if from < start {
        assert(!text::word_char(line[from]));
        lemma_next_word_is(line, from + 1, start);
    }
}

proof fn lemma_past_word_is(line: Seq<char>, from: int, end: int)
    requires
        0 <= from <= end <= line.len(),
        forall|i: int| from <= i < end ==> text::word_char(#[trigger] line[i]),
        end < line.len() ==> !text::word_char(line[end]),
    ensures
        edit::past_word(line, from) == end,
    decreases end - from,
{
    if from < end {
        assert(text::word_char(line[from]));
        lemma_past_word_is(line, from + 1, end);
    }
}

/// `dw` takes out the rest of the word under the cursor, or the next word of the line: the
/// word characters from `start` to `end`, where nothing but other characters lies between
/// the cursor (or the last character, where the cursor is past it) and `start`. The cursor goes to where the word began, or to the last character
/// of what is left.
pub proof fn dw_takes_the_next_word(e: EditView, from: int, start: int, end: int)
    requires
        e.cursor.y < e.lines.len(),
        0 < e.lines[e.cursor.y as int].len() <= usize::MAX,
        from == if e.cursor.x < e.lines[e.cursor.y as int].len() {
            e.cursor.x as int
        } else {
            e.lines[e.cursor.y as int].len() - 1
        },
        from <= start < end <= e.lines[e.cursor.y as int].len(),
        forall|i: int|
            from <= i < start ==> !text::word_char(#[trigger] e.lines[e.cursor.y as int][i]),
        forall|i: int|
            start <= i < end ==> text::word_char(#[trigger] e.lines[e.cursor.y as int][i]),
        end < e.lines[e.cursor.y as int].len() ==> !text::word_char(
            e.lines[e.cursor.y as int][end],
        ),
    ensures
        ({
            let line = e.lines[e.cursor.y as int];
            let rest = line.take(start) + line.skip(end);
            e.without_word() == (EditView {
                lines: e.lines.update(e.cursor.y as int, rest),
                cursor: Pos {
                    x: if start < rest.len() {
                        start as usize
                    } else if rest.len() > 0 {
                        (rest.len() - 1) as usize
                    } else {
                        0
                    },
                    y: e.cursor.y,
                },
                ..e
            })
        }),
{
    let line = e.lines[e.cursor.y as int];
    lemma_next_word_is(line, from, start);
    lemma_past_word_is(line, start, end);
}

/// Without a word character from the cursor to the end of its line, `dw` does nothing.
pub proof fn dw_needs_a_word(e: EditView)
    requires
        e.cursor.y < e.lines.len(),
        e.lines[e.cursor.y as int].len() <= usize::MAX,
        forall|i: int|
            0 <= i < e.lines[e.cursor.y as int].len() && (e.cursor.x <= i || i
                == e.lines[e.cursor.y as int].len() - 1) ==> !text::word_char(
                #[trigger] e.lines[e.cursor.y as int][i],
            ),
    ensures
        e.without_word() == e,
{
    let line = e.lines[e.cursor.y as int];
    if line.len() > 0 {
        let from = edit::clamped(e.cursor.x, line.len()) as int;
        lemma_next_word_is(line, from, line.len() as int);
    }
}

/// `dd` takes out the line under the cursor. The cursor stays on that row, or goes to the
/// last one, in its column or the last one there. An only line is emptied.
pub proof fn dd_takes_one_line(e: EditView)
    requires
        e.cursor.y < e.lines.len() <= usize::MAX,
        forall|y: int| 0 <= y < e.lines.len() ==> (#[trigger] e.lines[y]).len() <= usize::MAX,
    ensures
        e.without_line() == (EditView {
            lines: e.without_line().lines,
            cursor: e.without_line().cursor,
            ..e
        }),
        e.lines.len() == 1 ==> e.without_line().lines == seq![Seq::<char>::empty()]
            && e.without_line().cursor == (Pos { x: 0, y: 0 }),
        e.lines.len() > 1 ==> ({
            let y = e.cursor.y as int;
            let rest = e.lines.take(y) + e.lines.skip(y + 1);
            let row = if y < rest.len() {
                y
            } else {
                rest.len() - 1
            };
            &&& e.without_line().lines == rest
            &&& e.without_line().cursor.y == row
            &&& e.cursor.x < rest[row].len() ==> e.without_line().cursor.x == e.cursor.x
            &&& 0 < rest[row].len() <= e.cursor.x ==> e.without_line().cursor.x == rest[row].len() - 1
            &&& rest[row].len() == 0 ==> e.without_line().cursor.x == 0
        }),
{
    let y = e.cursor.y as int;
    if e.lines.len() == 1 {
        assert(e.without_line().lines =~= seq![Seq::<char>::empty()]);
    } else {
        assert(e.lines.remove(y) =~= e.lines.take(y) + e.lines.skip(y + 1));
    }
}

/// A typed character goes in at the cursor, which moves on behind it.
pub proof fn typing_puts_a_character_in(e: EditView, ch: char)
    requires
        e.wf(),
        e.cursor.x < usize::MAX,
    ensures
        ({
            let line = e.lines[e.cursor.y as int];
            let x = e.cursor.x as int;
            e.typed(ch) == (EditView {
                lines: e.lines.update(
                    e.cursor.y as int,
                    line.take(x) + seq![ch] + line.skip(x),
                ),
                cursor: Pos { x: (x + 1) as usize, y: e.cursor.y },
                ..e
            })
        }),
{
    let line = e.lines[e.cursor.y as int];
    let x = e.cursor.x as int;
    assert(line.insert(x, ch) =~= line.take(x) + seq![ch] + line.skip(x));
}

/// Backspace takes out the character before the cursor, which moves back; at the start of
/// a line it does nothing.
pub proof fn erasing_takes_the_character_before(e: EditView)
    requires
        e.wf(),
    ensures
        e.cursor.x == 0 ==> e.erased() == e,
        e.cursor.x > 0 ==> ({
            let line = e.lines[e.cursor.y as int];
            let x = e.cursor.x as int;
            e.erased() == (EditView {
                lines: e.lines.update(e.cursor.y as int, line.take(x - 1) + line.skip(x)),
                cursor: Pos { x: (x - 1) as usize, y: e.cursor.y },
                ..e
            })
        }),
{
    if e.cursor.x > 0 {
        let line = e.lines[e.cursor.y as int];
        let x = e.cursor.x as int;
        assert(line.remove(x - 1) =~= line.take(x - 1) + line.skip(x));
    }
}

/// Leaving insert mode goes back to normal mode and one column to the left, and `a` starts
/// one column to the right of the cursor, at most just past the end; neither touches the
/// text.
pub proof fn modes_shift_the_cursor(e: EditView)
    requires
        e.wf(),
    ensures
        e.escaped() == (EditView {
            mode: EditorMode::Normal,
            cursor: Pos {
                x: if e.cursor.x > 0 {
                    (e.cursor.x - 1) as usize
                } else {
                    0
                },
                y: e.cursor.y,
            },
            ..e
        }),
        e.after_cursor() == (EditView { cursor: e.after_cursor().cursor, ..e }),
        e.after_cursor().cursor.y == e.cursor.y,
        e.cursor.x < e.lines[e.cursor.y as int].len() && e.cursor.x < usize::MAX
            ==> e.after_cursor().cursor.x == e.cursor.x + 1,
        e.cursor.x == e.lines[e.cursor.y as int].len() ==> e.after_cursor().cursor.x == e.cursor.x,
        forall|mode: EditorMode|
            #[trigger] e.in_mode(mode) == (EditView { mode, ..e }),
{
}

/// The text is remembered behind the texts remembered before, of which the last
/// twenty-three stay; nothing else changes.
pub proof fn the_last_texts_are_remembered(e: EditView)
    requires
        e.undo.len() <= 24,
    ensures
        e.remembered() == (EditView { undo: e.remembered().undo, ..e }),
        e.remembered().undo.last() == e.lines,
        e.undo.len() < 24 ==> e.remembered().undo == e.undo.push(e.lines),
        e.undo.len() == 24 ==> e.remembered().undo == e.undo.skip(1).push(e.lines),
{
    assert(e.undo.push(e.lines).drop_first() =~= e.undo.skip(1).push(e.lines) || e.undo.len()
        < 24);
}

/// `u` brings the last remembered text back and forgets it. The cursor stays where it is,
/// or goes to the last column of a shorter line. With nothing remembered it does nothing.
pub proof fn u_goes_back_one_text(e: EditView)
    requires
        e.wf(),
    ensures
        e.undo.len() == 0 ==> e.undone() == e,
        e.undo.len() > 0 ==> ({
            let line = e.undo.last()[e.cursor.y as int];
            &&& e.undone() == (EditView {
                lines: e.undo.last(),
                undo: e.undo.take(e.undo.len() - 1),
                cursor: e.undone().cursor,
                ..e
            })
            &&& e.undone().cursor.y == e.cursor.y
            &&& e.cursor.x < line.len() ==> e.undone().cursor.x == e.cursor.x
            &&& 0 < line.len() <= e.cursor.x ==> e.undone().cursor.x == line.len() - 1
            &&& line.len() == 0 ==> e.undone().cursor.x == 0
        }),
{
    if e.undo.len() > 0 {
        assert(e.undo.drop_last() =~= e.undo.take(e.undo.len() - 1));
        assert(e.undo[e.undo.len() - 1].len() >= e.lines.len());
    }
}

/// A motion moves the cursor as it does over any text, and nothing else.
pub proof fn motions_leave_the_text(e: EditView, kind: MotionKind, count: nat)
    ensures
        e.moved(kind, count) == (EditView {
            cursor: token::moved_by(e.lines, e.cursor, kind, count),
            ..e
        }),
{
}

/// A line is as long as it has characters, and a missing one is empty.
pub proof fn missing_lines_are_empty(e: EditView, y: int)
    ensures
        0 <= y < e.lines.len() ==> e.len_of(y) == e.lines[y].len(),
        y >= e.lines.len() ==> e.len_of(y) == 0,
{
}

} // verus!

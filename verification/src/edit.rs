//! Edit levels: turning one text into another with a handful of Vim edits.

use crate::command::MotionKind;
use crate::level::{EditSpec, EditSpecView};
use crate::pos::Pos;
use crate::text;
use crate::token;
use crate::token::TokenState;
use vstd::prelude::*;

verus! {

/// How many buffers the undo list keeps.
pub const UNDO_LIMIT: usize = 24;

/// What keys do: run commands, or go into the text.
#[derive(Debug, Clone, Copy, PartialEq, Eq, Structural)]
pub enum EditorMode {
    Normal,
    Insert,
    ChangeWord,
}

/// `x`, or the last column of a line of `len` characters if that comes first.
pub open spec fn clamped(x: usize, len: nat) -> usize {
    if len == 0 {
        0
    } else if x < len {
        x
    } else {
        (len - 1) as usize
    }
}

/// The number of the first word character of `line` from number `from` on, or its
/// length.
pub open spec fn next_word(line: Seq<char>, from: int) -> int
    decreases line.len() - from,
{
    if 0 <= from < line.len() && !text::word_char(line[from]) {
        next_word(line, from + 1)
    } else {
        from
    }
}

/// The number of the first character of `line` from number `from` on that is no
/// word character, or its length.
pub open spec fn past_word(line: Seq<char>, from: int) -> int
    decreases line.len() - from,
{
    if 0 <= from < line.len() && text::word_char(line[from]) {
        past_word(line, from + 1)
    } else {
        from
    }
}

/// The text of each buffer that can be gone back to.
pub open spec fn buffers_view(buffers: Seq<Vec<String>>) -> Seq<Seq<Seq<char>>> {
    Seq::new(buffers.len(), |i: int| text::lines_view(buffers[i]@))
}

/// An edit level being played.
#[derive(Debug)]
pub struct EditState {
    pub lines: Vec<String>,
    pub expected: Vec<String>,
    pub cursor: Pos,
    pub mode: EditorMode,
    pub undo: Vec<Vec<String>>,
    pub command_budget: usize,
    pub timer_seconds: Option<u64>,
}

/// What an [`EditState`] holds.
#[verifier::ext_equal]
pub struct EditView {
    pub lines: Seq<Seq<char>>,
    pub expected: Seq<Seq<char>>,
    pub cursor: Pos,
    pub mode: EditorMode,
    pub undo: Seq<Seq<Seq<char>>>,
    pub command_budget: usize,
    pub timer_seconds: Option<u64>,
}

impl View for EditState {
    type V = EditView;

    open spec fn view(&self) -> EditView {
        EditView {
            lines: text::lines_view(self.lines@),
            expected: text::lines_view(self.expected@),
            cursor: self.cursor,
            mode: self.mode,
            undo: buffers_view(self.undo@),
            command_budget: self.command_budget,
            timer_seconds: self.timer_seconds,
        }
    }
}

impl EditView {
    /// A level about to be played.
    pub open spec fn of_spec(spec: EditSpecView) -> EditView {
        EditView {
            lines: spec.start,
            expected: spec.expected,
            cursor: spec.cursor,
            mode: EditorMode::Normal,
            undo: Seq::empty(),
            command_budget: spec.command_budget,
            timer_seconds: spec.timer_seconds,
        }
    }

    /// The cursor is on a line, at most just past its end, and no buffer to go
    /// back to has fewer lines than a later one or than the text.
    pub open spec fn wf(self) -> bool {
        &&& self.cursor.y < self.lines.len()
        &&& self.cursor.x <= self.lines[self.cursor.y as int].len()
        &&& self.undo.len() <= UNDO_LIMIT
        &&& forall|i: int|
            0 <= i < self.undo.len() ==> self.lines.len() <= (#[trigger] self.undo[i]).len()
        &&& forall|i: int, j: int|
            0 <= i <= j < self.undo.len() ==> (#[trigger] self.undo[j]).len() <= (
            #[trigger] self.undo[i]).len()
    }

    /// The text is the one asked for.
    pub open spec fn matches_target(self) -> bool {
        self.lines == self.expected
    }

    /// The length of line `y`, a missing one being empty.
    pub open spec fn len_of(self, y: int) -> nat {
        if 0 <= y < self.lines.len() {
            self.lines[y].len()
        } else {
            0
        }
    }

    /// The cursor is on a character.
    pub open spec fn on_char(self) -> bool {
        self.cursor.x < self.len_of(self.cursor.y as int)
    }

    /// The text with `line` put in the place of the line that the cursor is on.
    pub open spec fn with_line(self, line: Seq<char>) -> EditView {
        EditView { lines: self.lines.update(self.cursor.y as int, line), ..self }
    }

    /// The same text with the cursor in another column.
    pub open spec fn at_column(self, x: usize) -> EditView {
        EditView { cursor: Pos { x, y: self.cursor.y }, ..self }
    }

    /// The state in another mode.
    pub open spec fn in_mode(self, mode: EditorMode) -> EditView {
        EditView { mode, ..self }
    }

    /// The text is remembered. The oldest memory goes where there are too many.
    pub open spec fn remembered(self) -> EditView {
        let undo = self.undo.push(self.lines);
        EditView {
            undo: if undo.len() > UNDO_LIMIT {
                undo.drop_first()
            } else {
                undo
            },
            ..self
        }
    }

    /// The last remembered text comes back, if there is one.
    pub open spec fn undone(self) -> EditView {
        if self.undo.len() == 0 {
            self
        } else {
            let back = EditView { lines: self.undo.last(), undo: self.undo.drop_last(), ..self };
            back.at_column(clamped(self.cursor.x, back.len_of(self.cursor.y as int)))
        }
    }

    /// The state after a motion.
    pub open spec fn moved(self, kind: MotionKind, count: nat) -> EditView {
        EditView { cursor: token::moved_by(self.lines, self.cursor, kind, count), ..self }
    }

    /// The column after the cursor's, or the one just past the end of the line.
    pub open spec fn after_cursor(self) -> EditView {
        let len = self.len_of(self.cursor.y as int);
        self.at_column(
            if self.cursor.x + 1 < len {
                (self.cursor.x + 1) as usize
            } else {
                len as usize
            },
        )
    }

    /// The character under the cursor is gone.
    pub open spec fn without_char(self) -> EditView {
        if self.on_char() {
            let line = self.lines[self.cursor.y as int].remove(self.cursor.x as int);
            self.with_line(line).at_column(clamped(self.cursor.x, line.len()))
        } else {
            self
        }
    }

    /// The character under the cursor is `ch`.
    pub open spec fn with_char(self, ch: char) -> EditView {
        if self.on_char() {
            self.with_line(self.lines[self.cursor.y as int].update(self.cursor.x as int, ch))
        } else {
            self
        }
    }

    /// The word under the cursor, from the cursor on, or the next word of the line,
    /// is gone.
    pub open spec fn without_word(self) -> EditView {
        if self.len_of(self.cursor.y as int) == 0 {
            self
        } else {
            let line = self.lines[self.cursor.y as int];
            let start = next_word(line, clamped(self.cursor.x, line.len()) as int);
            let end = past_word(line, start);
            if start >= line.len() {
                self
            } else {
                let rest = line.take(start) + line.skip(end);
                self.with_line(rest).at_column(clamped(start as usize, rest.len()))
            }
        }
    }

    /// The line under the cursor is gone; the only line of a text is emptied.
    pub open spec fn without_line(self) -> EditView {
        if self.lines.len() <= 1 {
            EditView {
                lines: self.lines.update(0, Seq::empty()),
                cursor: Pos { x: 0, y: 0 },
                ..self
            }
        } else {
            let lines = self.lines.remove(self.cursor.y as int);
            let y = if self.cursor.y < lines.len() {
                self.cursor.y
            } else {
                (lines.len() - 1) as usize
            };
            let x = clamped(self.cursor.x, lines[y as int].len());
            EditView { lines, cursor: Pos { x, y }, ..self }
        }
    }

    /// `ch` has been typed at the cursor.
    pub open spec fn typed(self, ch: char) -> EditView {
        let line = self.lines[self.cursor.y as int];
        let longer = if self.cursor.x <= line.len() {
            line.insert(self.cursor.x as int, ch)
        } else {
            line.push(ch)
        };
        self.with_line(longer).at_column((self.cursor.x + 1) as usize)
    }

    /// The character before the cursor is gone.
    pub open spec fn erased(self) -> EditView {
        if self.cursor.x == 0 {
            self
        } else {
            let line = self.lines[self.cursor.y as int].remove(self.cursor.x - 1);
            self.with_line(line).at_column((self.cursor.x - 1) as usize)
        }
    }

    /// Back to commands, one column to the left.
    pub open spec fn escaped(self) -> EditView {
        let x = if self.cursor.x > 0 {
            (self.cursor.x - 1) as usize
        } else {
            0
        };
        self.in_mode(EditorMode::Normal).at_column(x)
    }
}

proof fn lemma_next_word(line: Seq<char>, from: int)
    requires
        0 <= from <= line.len(),
    ensures
        from <= next_word(line, from) <= line.len(),
        next_word(line, from) < line.len() ==> text::word_char(line[next_word(line, from)]),
        forall|i: int| from <= i < next_word(line, from) ==> !text::word_char(#[trigger] line[i]),
    decreases line.len() - from,
{
    if from < line.len() && !text::word_char(line[from]) {
        lemma_next_word(line, from + 1);
    }
}

proof fn lemma_past_word(line: Seq<char>, from: int)
    requires
        0 <= from <= line.len(),
    ensures
        from <= past_word(line, from) <= line.len(),
        past_word(line, from) < line.len() ==> !text::word_char(line[past_word(line, from)]),
        forall|i: int| from <= i < past_word(line, from) ==> text::word_char(#[trigger] line[i]),
    decreases line.len() - from,
{
    if from < line.len() && text::word_char(line[from]) {
        lemma_past_word(line, from + 1);
    }
}

impl EditState {
    /// Sets the level up.
    pub fn from_spec(spec: &EditSpec) -> (edit: Self)
        ensures
            edit@ == EditView::of_spec(spec@),
            spec@.wf() ==> edit@.wf(),
    {
        let undo: Vec<Vec<String>> = Vec::new();
        assert(buffers_view(undo@) =~= Seq::<Seq<Seq<char>>>::empty());
        Self {
            lines: text::owned_lines(&spec.start),
            expected: text::owned_lines(&spec.expected),
            cursor: spec.cursor,
            mode: EditorMode::Normal,
            undo,
            command_budget: spec.command_budget,
            timer_seconds: spec.timer_seconds,
        }
    }

    /// The length of line `y`, a missing one being empty.
    pub fn line_len(&self, y: usize) -> (len: usize)
        ensures
            len == self@.len_of(y as int),
    {
        if y < self.lines.len() {
            self.lines[y].as_str().unicode_len()
        } else {
            0
        }
    }

    /// Remembers the text. The oldest memory goes where there are too many.
    pub fn push_undo(&mut self)
        ensures
            final(self)@ == old(self)@.remembered(),
            old(self)@.wf() ==> final(self)@.wf(),
    {
        self.undo.push(self.lines.clone());
        assert(buffers_view(self.undo@) =~= old(self)@.undo.push(old(self)@.lines));
        if self.undo.len() > UNDO_LIMIT {
            self.undo.remove(0);
            assert(buffers_view(self.undo@) =~= old(self)@.undo.push(
                old(self)@.lines,
            ).drop_first());
        }
    }

    /// Brings the last remembered text back. Returns whether there was one.
    pub fn undo_last(&mut self) -> (undone: bool)
        ensures
            final(self)@ == old(self)@.undone(),
            old(self)@.wf() ==> final(self)@.wf(),
            undone == (old(self)@.undo.len() > 0),
    {
        match self.undo.pop() {
            Some(lines) => {
                self.lines = lines;
                self.cursor.x = self.clamp_to_line(self.cursor.x);
                assert(buffers_view(self.undo@) =~= old(self)@.undo.drop_last());
                true
            },
            None => false,
        }
    }

    /// Column `x`, or the last one of the line that the cursor is on.
    fn clamp_to_line(&self, x: usize) -> (column: usize)
        ensures
            column == clamped(x, self@.len_of(self.cursor.y as int)),
    {
        x.min(self.line_len(self.cursor.y).saturating_sub(1))
    }

    /// Makes a motion `count` times.
    pub fn apply_motion(&mut self, kind: MotionKind, count: usize)
        ensures
            final(self)@ == old(self)@.moved(kind, count as nat),
            old(self)@.wf() ==> final(self)@.wf(),
    {
        let mut token: TokenState = TokenState {
            lines: self.lines.clone(),
            cursor: self.cursor,
            targets: Vec::new(),
            next_target: 0,
            command_budget: self.command_budget,
            timer_seconds: self.timer_seconds,
        };
        assert(token.lines@ =~= self.lines@);
        token.apply_motion(kind, count);
        self.cursor = token.cursor;
        proof {
            if old(self)@.wf() {
                assert(self.lines@.len() == self.lines.len());
                lemma_motion_near(old(self)@.lines, old(self).cursor, kind, count as nat);
            }
        }
    }

    /// Deletes the character under the cursor.
    pub fn delete_char(&mut self)
        ensures
            final(self)@ == old(self)@.without_char(),
            old(self)@.wf() ==> final(self)@.wf(),
    {
        if self.cursor.y >= self.lines.len() || self.cursor.x >= self.line_len(self.cursor.y) {
            return ;
        }
        let y: usize = self.cursor.y;
        text::remove_char(&mut self.lines[y], self.cursor.x);
        self.cursor.x = self.clamp_to_line(self.cursor.x);
        assert(self@ =~= old(self)@.without_char());
    }

    /// Replaces the character under the cursor.
    pub fn replace_char(&mut self, ch: char)
        ensures
            final(self)@ == old(self)@.with_char(ch),
            old(self)@.wf() ==> final(self)@.wf(),
    {
        if self.cursor.y >= self.lines.len() || self.cursor.x >= self.line_len(self.cursor.y) {
            return ;
        }
        let y: usize = self.cursor.y;
        let ghost line = self.lines@[y as int]@;
        text::remove_char(&mut self.lines[y], self.cursor.x);
        text::insert_char(&mut self.lines[y], self.cursor.x, ch);
        assert(self.lines@[y as int]@ =~= line.update(self.cursor.x as int, ch));
        assert(self@ =~= old(self)@.with_char(ch));
    }

    /// Deletes from the cursor to the end of the word, or the next word of the line.
    pub fn delete_word(&mut self)
        ensures
            final(self)@ == old(self)@.without_word(),
            old(self)@.wf() ==> final(self)@.wf(),
    {
        if self.cursor.y >= self.lines.len() {
            return ;
        }
        let y: usize = self.cursor.y;
        let chars: Vec<char> = text::chars_of(self.lines[y].as_str());
        if chars.len() == 0 {
            return ;
        }
        let ghost line = self.lines@[y as int]@;
        let mut start: usize = self.clamp_to_line(self.cursor.x);
        let ghost first = next_word(line, start as int);
        while start < chars.len() && !text::is_word_char(chars[start])
            invariant
                chars@ == line,
                start <= chars@.len(),
                first == next_word(line, start as int),
            decreases chars@.len() - start,
        {
            start += 1;
        }
        if start >= chars.len() {
            return ;
        }
        let mut end: usize = start;
        while end < chars.len() && text::is_word_char(chars[end])
            invariant
                chars@ == line,
                start <= end <= chars@.len(),
                past_word(line, start as int) == past_word(line, end as int),
            decreases chars@.len() - end,
        {
            end += 1;
        }
        text::remove_chars(&mut self.lines[y], start, end);
        self.cursor.x = self.clamp_to_line(start);
        assert(self@ =~= old(self)@.without_word());
    }

    /// Deletes the line under the cursor, or empties the only line.
    pub fn delete_line(&mut self)
        requires
            old(self).lines@.len() >= 1,
            old(self).lines@.len() > 1 ==> old(self).cursor.y < old(self).lines@.len(),
        ensures
            final(self)@ == old(self)@.without_line(),
            old(self)@.wf() ==> final(self)@.wf(),
    {
        if self.lines.len() <= 1 {
            self.lines[0] = String::new();
            self.cursor = Pos { x: 0, y: 0 };
            assert(self@ =~= old(self)@.without_line());
            return ;
        }
        self.lines.remove(self.cursor.y);
        self.cursor.y = self.cursor.y.min(self.lines.len() - 1);
        self.cursor.x = self.clamp_to_line(self.cursor.x);
        assert(self@ =~= old(self)@.without_line());
    }

    /// Moves to the column after the cursor's, at most just past the end.
    pub fn step_after(&mut self)
        ensures
            final(self)@ == old(self)@.after_cursor(),
            old(self)@.wf() ==> final(self)@.wf(),
    {
        let len: usize = self.line_len(self.cursor.y);
        self.cursor.x = self.cursor.x.saturating_add(1).min(len);
    }

    /// Types `ch` at the cursor.
    pub fn type_char(&mut self, ch: char)
        requires
            old(self)@.wf(),
        ensures
            final(self)@ == old(self)@.typed(ch),
            final(self)@.wf(),
    {
        let y: usize = self.cursor.y;
        text::insert_char(&mut self.lines[y], self.cursor.x, ch);
        let len: usize = self.line_len(y);
        assert(self.cursor.x < len);
        self.cursor.x += 1;
        assert(self@ =~= old(self)@.typed(ch));
    }

    /// Erases the character before the cursor. Returns whether there was one.
    pub fn erase_char(&mut self) -> (erased: bool)
        requires
            old(self)@.wf(),
        ensures
            final(self)@ == old(self)@.erased(),
            final(self)@.wf(),
            erased == (old(self).cursor.x > 0),
    {
        if self.cursor.x > 0 {
            let y: usize = self.cursor.y;
            text::remove_char(&mut self.lines[y], self.cursor.x - 1);
            self.cursor.x -= 1;
            assert(self@ =~= old(self)@.erased());
            true
        } else {
            false
        }
    }

    /// Goes back to commands, one column to the left.
    pub fn escape(&mut self)
        ensures
            final(self)@ == old(self)@.escaped(),
            old(self)@.wf() ==> final(self)@.wf(),
    {
        self.mode = EditorMode::Normal;
        self.cursor.x = self.cursor.x.saturating_sub(1);
    }
}

proof fn lemma_motion_near(lines: Seq<Seq<char>>, pos: Pos, kind: MotionKind, count: nat)
    requires
        lines.len() <= usize::MAX,
        pos.y < lines.len(),
        pos.x <= lines[pos.y as int].len(),
    ensures
        ({
            let end = token::moved_by(lines, pos, kind, count);
            end.y < lines.len() && end.x <= lines[end.y as int].len()
        }),
    decreases count,
{
    if token::in_text(lines, pos) {
        token::motion_stays_in_text(lines, pos, kind, count);
    } else if count > 0 {
        let next = token::moved_once(lines, pos, kind);
        let right = token::right(lines, pos);
        let left = token::left(lines, pos);
        assert(token::in_text(lines, left));
        if right == pos {
            assert(token::seek_right(lines, pos) == pos);
            assert(token::run_right(lines, pos) == pos);
        }
        lemma_backward_near(lines, left);
        if right != pos {
            assert(token::in_text(lines, right));
            lemma_forward_near(lines, right);
        }
        lemma_motion_near(lines, next, kind, (count - 1) as nat);
    }
}

proof fn lemma_forward_near(lines: Seq<Seq<char>>, pos: Pos)
    requires
        token::in_text(lines, pos),
    ensures
        token::in_text(lines, token::seek_right(lines, pos)),
        token::in_text(lines, token::run_right(lines, token::seek_right(lines, pos))),
{
    token::lemma_seek_right_in_text(lines, pos);
    token::lemma_run_right_in_text(lines, token::seek_right(lines, pos));
}

proof fn lemma_backward_near(lines: Seq<Seq<char>>, pos: Pos)
    requires
        token::in_text(lines, pos),
    ensures
        ({
            let start = token::run_left(lines, token::seek_left(lines, pos));
            token::in_text(lines, start) && token::in_text(lines, token::run_right(lines, start))
        }),
{
    let found = token::seek_left(lines, pos);
    token::lemma_seek_left_in_text(lines, pos);
    token::lemma_run_left_in_text(lines, found);
    token::lemma_run_right_in_text(lines, token::run_left(lines, found));
}

/// Every edit, every motion, typing, erasing, undoing and leaving insert mode keep
/// the cursor on a line, at most just past its end.
pub proof fn every_step_keeps_the_cursor_in_place(
    e: EditView,
    kind: MotionKind,
    count: nat,
    ch: char,
)
    requires
        e.wf(),
        e.lines.len() <= usize::MAX,
    ensures
        e.remembered().wf(),
        e.moved(kind, count).wf(),
        e.after_cursor().wf(),
        e.without_char().wf(),
        e.with_char(ch).wf(),
        e.without_word().wf(),
        e.without_line().wf(),
        e.undone().wf(),
        e.cursor.x < usize::MAX ==> e.typed(ch).wf(),
        e.erased().wf(),
        e.escaped().wf(),
{
    lemma_motion_near(e.lines, e.cursor, kind, count);
    let line = e.lines[e.cursor.y as int];
    let from = clamped(e.cursor.x, line.len()) as int;
    lemma_next_word(line, from);
    lemma_past_word(line, next_word(line, from));
    assert(e.undone().wf()) by {
        if e.undo.len() > 0 {
            assert(e.undo[e.undo.len() - 1] == e.undo.last());
        }
    }
}

/// What the state is after `typed` was typed.
pub open spec fn typed_all(e: EditView, typed: Seq<char>) -> EditView
    decreases typed.len(),
{
    if typed.len() == 0 {
        e
    } else {
        typed_all(e, typed.drop_last()).typed(typed.last())
    }
}

proof fn lemma_typing_keeps_undo(e: EditView, typed: Seq<char>)
    ensures
        typed_all(e, typed).undo == e.undo,
    decreases typed.len(),
{
    if typed.len() > 0 {
        lemma_typing_keeps_undo(e, typed.drop_last());
    }
}

/// Erasing takes a typed character back.
pub proof fn erasing_takes_typing_back(e: EditView, ch: char)
    requires
        e.wf(),
        e.cursor.x < usize::MAX,
    ensures
        e.typed(ch).erased() == e,
{
    let line = e.lines[e.cursor.y as int];
    assert(line.insert(e.cursor.x as int, ch).remove(e.cursor.x as int) =~= line);
    assert(e.typed(ch).erased() =~= e);
}

/// An undo right after an edit, or after an insertion of any length, brings the text
/// from before it back.
pub proof fn undo_restores_the_text(e: EditView, ch: char, typed: Seq<char>)
    ensures
        e.remembered().without_char().undone().lines == e.lines,
        e.remembered().with_char(ch).undone().lines == e.lines,
        e.remembered().without_word().undone().lines == e.lines,
        e.remembered().without_line().undone().lines == e.lines,
        typed_all(e.remembered(), typed).escaped().undone().lines == e.lines,
        typed_all(e.remembered().after_cursor(), typed).escaped().undone().lines == e.lines,
        typed_all(e.remembered().without_word(), typed).escaped().undone().lines == e.lines,
{
    lemma_typing_keeps_undo(e.remembered(), typed);
    lemma_typing_keeps_undo(e.remembered().after_cursor(), typed);
    lemma_typing_keeps_undo(e.remembered().without_word(), typed);
}

/// Deleting a word takes out one whole run of word characters, the first from the
/// cursor on, and nothing else.
pub proof fn delete_word_takes_one_word(e: EditView)
    requires
        e.wf(),
        e.without_word().lines != e.lines,
    ensures
        ({
            let line = e.lines[e.cursor.y as int];
            let from = clamped(e.cursor.x, line.len()) as int;
            let start = next_word(line, from);
            let end = past_word(line, start);
            &&& from <= start < end <= line.len()
            &&& forall|i: int| from <= i < start ==> !text::word_char(#[trigger] line[i])
            &&& forall|i: int| start <= i < end ==> text::word_char(#[trigger] line[i])
            &&& end < line.len() ==> !text::word_char(line[end])
            &&& e.without_word().lines == e.lines.update(
                e.cursor.y as int,
                line.take(start) + line.skip(end),
            )
        }),
{
    let line = e.lines[e.cursor.y as int];
    let from = clamped(e.cursor.x, line.len()) as int;
    lemma_next_word(line, from);
    lemma_past_word(line, next_word(line, from));
}

} // verus!

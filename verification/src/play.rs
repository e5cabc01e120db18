//! What playing a level comes to: how it starts, what each command and key does to it, and
//! when it ends.

use crate::command;
use crate::command::{MotionKind, ParsedCommand};
use crate::edit::{EditView, EditorMode};
use crate::grid;
use crate::grid::GridView;
use crate::hints;
use crate::key::{KeyCode, KeyEvent};
use crate::level::{LevelKindView, LevelView};
use crate::maze;
use crate::pos::Pos;
use crate::rails;
use crate::session::{LevelResult, OutcomeView, PlayView, SessionView};
use crate::surgery;
use crate::text;
use crate::time::Duration;
use crate::token;
use crate::token::TokenView;
use vstd::prelude::*;

verus! {

/// A session starts with its level as the given seed lays it out, with the vocabulary of
/// the level's lesson, and with nothing typed, counted or remembered.
pub proof fn sessions_start_from_their_seed(level: LevelView, seed: u64)
    ensures
        ({
            let s = SessionView::of_level(level, seed);
            &&& s.level == level
            &&& s.commands.lesson == level.lesson
            &&& s.input.len() == 0
            &&& s.accepted_commands == 0
            &&& s.finished is None
            &&& s.message == "Deliver the patch. Type a Vim command; q quits the level."@
            &&& s.command_history.len() == 0
            &&& s.moves_history.len() == 0
            &&& match level.kind {
                LevelKindView::Grid(spec) => s.state == PlayView::Grid(
                    GridView::of_spec(spec, seed),
                ),
                LevelKindView::Token(spec) => s.state == PlayView::Token(
                    TokenView::of_spec(spec, seed),
                ),
                LevelKindView::Edit(spec) => s.state == PlayView::Edit(EditView::of_spec(spec)),
            }
        }),
{
}

/// A session of a generated grid level plays the maze of its own seed, and the player walks
/// from the level's start to its goal.
pub proof fn grid_sessions_play_their_seed(level: LevelView, seed: u64)
    requires
        level.kind is Grid,
    ensures
        SessionView::of_level(level, seed).state matches PlayView::Grid(grid) && (
        level.kind matches LevelKindView::Grid(spec) && grid.tiles == maze::laid_out(spec, seed)
            && grid.player == spec.start && grid.goal == spec.goal),
{
}

/// A session of a generated token level plays the text of its own seed: an even seed leaves
/// the first line as it is and an odd one makes it longer, and every later line is longer by
/// an ending.
pub proof fn token_sessions_play_their_seed(level: LevelView, seed: u64, y: int)
    requires
        level.kind matches LevelKindView::Token(spec) && spec.generated && 0 <= y < spec.lines.len(),
    ensures
        SessionView::of_level(level, seed).state matches PlayView::Token(token) && (
        level.kind matches LevelKindView::Token(spec) && {
            &&& token.lines.len() == spec.lines.len()
            &&& spec.lines[y].is_prefix_of(token.lines[y])
            &&& seed != 0 && seed % 2 == 0 && y == 0 ==> token.lines[y] == spec.lines[y]
            &&& seed == 0 || seed % 2 == 1 || y > 0 ==> token.lines[y].len() >= spec.lines[y].len()
                + 3
        }),
{
    match level.kind {
        LevelKindView::Token(spec) => {
            token::decorating_appends(spec.lines, seed, y);
            token::which_lines_are_decorated(seed, y as nat);
            rails::endings_follow_from_the_seed(spec.lines, seed, y);
            reveal_strlit("_hot");
            reveal_strlit("_ok");
            reveal_strlit("_v2");
            reveal_strlit("_fast");
        },
        _ => {},
    }
}

/// A level that ends keeps what it was, and tells in its outcome how it ended, when, after
/// how many commands and in what words. A hint comes with a defeat alone.
pub proof fn endings_tell_what_happened(
    s: SessionView,
    result: LevelResult,
    message: Seq<char>,
    now: Duration,
)
    ensures
        ({
            let end = s.ended(result, message, now);
            &&& end == (SessionView { finished: end.finished, message, ..s })
            &&& end.finished matches Some(outcome) && {
                &&& outcome.level_id == s.level.id
                &&& outcome.result == result
                &&& outcome.elapsed == now
                &&& outcome.commands == s.accepted_commands
                &&& outcome.message == message
                &&& result == LevelResult::Defeat ==> outcome.hint == s.hint_text()
                &&& result != LevelResult::Defeat ==> outcome.hint is None
            }
        }),
{
}

/// A hint speaks of counts on a grid (or of the lava, where there is lava and no run worth
/// a count), of word motions on rails, and of the edits where the text is not yet the one
/// asked for.
pub proof fn hints_fit_the_level(s: SessionView)
    ensures
        match s.state {
            PlayView::Grid(grid) => {
                &&& hints::count_hint(s.moves_history) is Some ==> s.hint_text()
                    == hints::count_hint(s.moves_history)
                &&& hints::count_hint(s.moves_history) is None && grid.lava ==> s.hint_text() == Some(
                    "Lava rises by real time now. Pre-plan long motions like `6k` or `8l` instead of waiting between single steps."@,
                )
                &&& hints::count_hint(s.moves_history) is None && !grid.lava ==> s.hint_text() is None
            },
            PlayView::Token(_) => s.hint_text() == hints::word_hint(s.command_history),
            PlayView::Edit(edit) => s.hint_text() == hints::edit_hint(edit),
        },
{
}

/// Why a level is lost at a time: `None` as long as it goes on.
pub open spec fn verdict(s: SessionView, now: Duration) -> Option<Seq<char>> {
    match s.state {
        PlayView::Grid(grid) => if grid.lava && grid.player.y + grid.lava_at(now).lava_rows
            >= grid.tiles.len() {
            Some("The timed lava front caught the courier."@)
        } else if s.accepted_commands >= grid.command_budget {
            Some("Command budget spent."@)
        } else {
            None
        },
        PlayView::Token(token) => if s.accepted_commands >= token.command_budget {
            Some("Command budget spent."@)
        } else if token.timer_seconds matches Some(limit) && now.secs >= limit {
            Some("The trace cooled before you arrived."@)
        } else {
            None
        },
        PlayView::Edit(edit) => if s.accepted_commands >= edit.command_budget {
            Some("Command budget spent before the patch matched."@)
        } else if edit.timer_seconds matches Some(limit) && now.secs >= limit {
            Some("Build bay timer expired."@)
        } else {
            None
        },
    }
}

/// Checking the limits lets the lava rise to where it stands by then and changes nothing
/// else, unless the level is lost: to the lava, to its own budget or to its own time limit,
/// and then it ends in a defeat that says which.
pub proof fn limits_end_a_level(s: SessionView, now: Duration)
    requires
        s.finished is None,
    ensures
        ({
            let end = s.limits_checked(now);
            &&& end == (SessionView {
                state: end.state,
                finished: end.finished,
                message: end.message,
                ..s
            })
            &&& match s.state {
                PlayView::Grid(grid) => end.state == PlayView::Grid(grid.lava_at(now)),
                _ => end.state == s.state,
            }
            &&& match verdict(s, now) {
                Some(reason) => end.message == reason && (end.finished matches Some(outcome)
                    && outcome.result == LevelResult::Defeat && outcome.message == reason
                    && outcome.elapsed == now && outcome.commands == s.accepted_commands
                    && outcome.level_id == s.level.id),
                None => end.finished is None && end.message == s.message,
            }
        }),
{
}

/// A token or edit level whose budget is not spent is lost to time exactly when it has a
/// time limit and the whole seconds that have passed come to it.
pub proof fn time_limits_are_kept(s: SessionView, now: Duration, limit: Option<u64>)
    requires
        s.finished is None,
        (s.state matches PlayView::Token(token) && token.timer_seconds == limit
            && s.accepted_commands < token.command_budget) || (s.state matches PlayView::Edit(edit)
            && edit.timer_seconds == limit && s.accepted_commands < edit.command_budget),
    ensures
        limit is None ==> s.limits_checked(now) == s,
        limit matches Some(seconds) ==> (now.secs < seconds ==> s.limits_checked(now) == s),
        limit matches Some(seconds) ==> (now.secs >= seconds ==> (s.limits_checked(
            now,
        ).finished matches Some(outcome) && outcome.result == LevelResult::Defeat)),
{
}

/// A spent budget is a defeat on every kind of level, and an unspent one on none that has no
/// other limit.
pub proof fn budgets_are_kept(s: SessionView, now: Duration)
    requires
        s.finished is None,
    ensures
        ({
            let budget = match s.state {
                PlayView::Grid(grid) => grid.command_budget,
                PlayView::Token(token) => token.command_budget,
                PlayView::Edit(edit) => edit.command_budget,
            };
            &&& s.state.budget() == budget
            &&& s.accepted_commands >= budget ==> (s.limits_checked(now).finished matches Some(
                outcome,
            ) && outcome.result == LevelResult::Defeat)
            &&& s.accepted_commands < budget && (match s.state {
                PlayView::Grid(grid) => !grid.lava,
                PlayView::Token(token) => token.timer_seconds is None,
                PlayView::Edit(edit) => edit.timer_seconds is None,
            }) ==> s.limits_checked(now).finished is None
        }),
{
}

/// The moves after a motion: those before, and the motion as often as it was counted.
pub open spec fn noted(s: SessionView, after: SessionView, kind: MotionKind, count: usize) -> bool {
    &&& after.moves_history.len() == s.moves_history.len() + count
    &&& forall|i: int|
        0 <= i < s.moves_history.len() ==> #[trigger] after.moves_history[i] == s.moves_history[i]
    &&& forall|i: int|
        s.moves_history.len() <= i < after.moves_history.len() ==> #[trigger] after.moves_history[i]
            == kind
}

/// A motion on a grid walks the player as far as there is floor. On the goal the level is
/// cleared, in the lava it is lost, and elsewhere the motion is reported.
pub proof fn motions_walk_the_grid(
    s: SessionView,
    grid: GridView,
    kind: MotionKind,
    count: usize,
    now: Duration,
)
    requires
        s.state == PlayView::Grid(grid),
    ensures
        ({
            let after = s.applied(ParsedCommand::Motion(kind, count), now);
            let walked = GridView {
                player: grid::travel(grid.tiles, grid.player, kind, count as nat),
                ..grid
            };
            &&& after == (SessionView {
                state: PlayView::Grid(walked),
                moves_history: after.moves_history,
                finished: after.finished,
                message: after.message,
                ..s
            })
            &&& noted(s, after, kind, count)
            &&& if walked.player == grid.goal {
                after.message == "Patch delivered through the hot floor."@ && (
                after.finished matches Some(outcome) && outcome.result == LevelResult::Clear
                    && outcome.message == after.message && outcome.elapsed == now && outcome.commands
                    == s.accepted_commands && outcome.level_id == s.level.id && outcome.hint is None)
            } else if grid.lava && walked.player.y + grid.lava_rows >= grid.tiles.len() {
                after.message == "The lava reached your boots."@ && (
                after.finished matches Some(outcome) && outcome.result == LevelResult::Defeat
                    && outcome.message == after.message && outcome.elapsed == now && outcome.commands
                    == s.accepted_commands && outcome.level_id == s.level.id && outcome.hint
                    == after.hint_text())
            } else {
                after.message == command::motion_report(kind, count) && after.finished == s.finished
            }
        }),
{
}

/// A motion on the rails moves the cursor and collects the targets under it. With the last
/// target the level is cleared; before that the motion is reported, with the number of the
/// next target.
pub proof fn motions_ride_the_rails(
    s: SessionView,
    token: TokenView,
    kind: MotionKind,
    count: usize,
    now: Duration,
)
    requires
        s.state == PlayView::Token(token),
    ensures
        ({
            let after = s.applied(ParsedCommand::Motion(kind, count), now);
            let ridden = (TokenView {
                cursor: token::moved_by(token.lines, token.cursor, kind, count as nat),
                ..token
            }).collect();
            &&& after == (SessionView {
                state: PlayView::Token(ridden),
                moves_history: after.moves_history,
                finished: after.finished,
                message: after.message,
                ..s
            })
            &&& noted(s, after, kind, count)
            &&& if ridden.next_target == token.targets.len() {
                after.message == "You rode the word rails cleanly."@ && (
                after.finished matches Some(outcome) && outcome.result == LevelResult::Clear
                    && outcome.message == after.message && outcome.elapsed == now && outcome.commands
                    == s.accepted_commands && outcome.level_id == s.level.id && outcome.hint is None)
            } else {
                after.message == command::motion_report(kind, count) + " Target "@ + text::decimal(
                    (ridden.next_target + 1) as nat,
                ) + "/"@ + text::decimal(token.targets.len()) + "."@ && after.finished == s.finished
            }
        }),
{
}

/// A motion on an edit level moves the cursor and is reported; it never ends the level.
pub proof fn motions_cross_the_text(
    s: SessionView,
    edit: EditView,
    kind: MotionKind,
    count: usize,
    now: Duration,
)
    requires
        s.state == PlayView::Edit(edit),
    ensures
        ({
            let after = s.applied(ParsedCommand::Motion(kind, count), now);
            &&& after == (SessionView {
                state: PlayView::Edit(
                    EditView {
                        cursor: token::moved_by(edit.lines, edit.cursor, kind, count as nat),
                        ..edit
                    },
                ),
                moves_history: after.moves_history,
                message: command::motion_report(kind, count),
                ..s
            })
            &&& noted(s, after, kind, count)
        }),
{
}

/// `after` is `s` with the text that an edit command left and a message, unless that text is
/// the one asked for: then the level is cleared.
pub open spec fn edited(
    s: SessionView,
    after: SessionView,
    edit: EditView,
    message: Seq<char>,
    now: Duration,
) -> bool {
    &&& after == (SessionView {
        state: PlayView::Edit(edit),
        finished: after.finished,
        message: after.message,
        ..s
    })
    &&& if edit.mode == EditorMode::Normal && edit.lines == edit.expected {
        after.message == "The patch compiles in the bay."@ && (after.finished matches Some(outcome)
            && outcome.result == LevelResult::Clear && outcome.message == after.message
            && outcome.elapsed == now && outcome.commands == s.accepted_commands && outcome.level_id
            == s.level.id && outcome.hint is None)
    } else {
        after.message == message && after.finished == s.finished
    }
}

/// Each edit command remembers the text and then changes it, except that `u` goes back to
/// the last one remembered. Those that leave normal mode as it is clear the level where the
/// text has become the one asked for; those that start an insertion never do.
pub proof fn edit_commands_edit(s: SessionView, edit: EditView, ch: char, now: Duration)
    requires
        s.state == PlayView::Edit(edit),
    ensures
        s.applied(ParsedCommand::InsertBefore, now) == (SessionView {
            state: PlayView::Edit(EditView { mode: EditorMode::Insert, ..edit.remembered() }),
            message: "-- INSERT --"@,
            ..s
        }),
        s.applied(ParsedCommand::InsertAfter, now) == (SessionView {
            state: PlayView::Edit(
                EditView { mode: EditorMode::Insert, ..edit.remembered().after_cursor() },
            ),
            message: "-- INSERT --"@,
            ..s
        }),
        s.applied(ParsedCommand::ChangeWord, now) == (SessionView {
            state: PlayView::Edit(
                EditView { mode: EditorMode::ChangeWord, ..edit.remembered().without_word() },
            ),
            message: "-- CHANGE WORD --"@,
            ..s
        }),
        edited(
            s,
            s.applied(ParsedCommand::DeleteChar, now),
            edit.remembered().without_char(),
            "Deleted one character with x."@,
            now,
        ),
        edited(
            s,
            s.applied(ParsedCommand::Replace(ch), now),
            edit.remembered().with_char(ch),
            "Replaced one character with "@ + seq![ch] + "."@,
            now,
        ),
        edited(
            s,
            s.applied(ParsedCommand::DeleteWord, now),
            edit.remembered().without_word(),
            "Deleted a word with dw."@,
            now,
        ),
        edited(
            s,
            s.applied(ParsedCommand::DeleteLine, now),
            edit.remembered().without_line(),
            "Deleted a line with dd."@,
            now,
        ),
        edited(
            s,
            s.applied(ParsedCommand::Undo, now),
            edit.undone(),
            if edit.undo.len() > 0 {
                "Undo restored the previous buffer."@
            } else {
                "Nothing to undo yet."@
            },
            now,
        ),
{
}

/// On a level that is not an edit level an edit command only tells the player so, and the
/// spelt out escape does nothing anywhere.
pub proof fn edits_elsewhere_do_nothing(s: SessionView, command: ParsedCommand, now: Duration)
    ensures
        s.applied(ParsedCommand::Escape, now) == s,
        !(s.state is Edit) && !(command is Motion) && !(command is Escape) ==> s.applied(
            command,
            now,
        ) == (SessionView { message: "That edit command belongs in Code Surgery levels."@, ..s }),
{
}

/// Running what was typed empties the input. A command is noted, counted and carried out,
/// and the limits are checked; anything else is refused and costs nothing.
pub proof fn commands_are_counted(s: SessionView, now: Duration)
    requires
        s.accepted_commands < usize::MAX,
    ensures
        command::parsed(s.input, s.commands) matches Some(command) ==> s.executed(now) == (
        SessionView {
            input: Seq::empty(),
            command_history: s.command_history.push(s.input),
            accepted_commands: (s.accepted_commands + 1) as usize,
            ..s
        }).applied(command, now).limits_checked(now),
        command::parsed(s.input, s.commands) is None ==> s.executed(now) == (SessionView {
            input: Seq::empty(),
            message: command::refusal(s.input),
            ..s
        }),
{
}

/// In a level that goes on and takes commands, a letter is added to the input and runs it
/// once it is a whole command; Enter runs it as it is; Backspace takes the last key back;
/// Esc empties it, and leaves the level where it is empty, as `q` does.
pub proof fn keys_build_commands(s: SessionView, key: KeyEvent, now: Duration)
    requires
        s.finished is None,
        !(key.control && key.code == KeyCode::Char('c')),
        !(s.state matches PlayView::Edit(edit) && edit.mode != EditorMode::Normal),
    ensures
        ({
            let after = s.key_pressed(key, now);
            match key.code {
                KeyCode::Char(ch) => if ch == 'q' && s.input.len() == 0 {
                    after == s.ended(LevelResult::Quit, "Back to the dispatch board."@, now)
                } else if command::complete(s.input.push(ch), s.commands) {
                    after == (SessionView { input: s.input.push(ch), ..s }).executed(now)
                } else {
                    after == (SessionView { input: s.input.push(ch), ..s })
                },
                KeyCode::Enter => if s.input.len() > 0 {
                    after == s.executed(now)
                } else {
                    after == s
                },
                KeyCode::Backspace => if s.input.len() > 0 {
                    after == (SessionView { input: s.input.take(s.input.len() - 1), ..s })
                } else {
                    after == s
                },
                KeyCode::Esc => if s.input.len() > 0 {
                    after == (SessionView {
                        input: Seq::empty(),
                        message: "Command buffer cleared."@,
                        ..s
                    })
                } else {
                    after == s.ended(LevelResult::Quit, "Back to the dispatch board."@, now)
                },
                _ => after == s,
            }
        }),
{
    if s.input.len() > 0 {
        assert(s.input.drop_last() =~= s.input.take(s.input.len() - 1));
    }
}

/// Control-C leaves a level that goes on, whatever its mode.
pub proof fn control_c_interrupts(s: SessionView, now: Duration)
    requires
        s.finished is None,
    ensures
        s.key_pressed(KeyEvent { code: KeyCode::Char('c'), control: true }, now) == s.ended(
            LevelResult::Quit,
            "Interrupted."@,
            now,
        ),
{
}

/// In insert mode a character goes into the text and Backspace takes one out, each counted as
/// a command and held against the limits; Esc goes back to normal mode and costs nothing, and
/// other keys do nothing. None of them clears the level.
pub proof fn insert_mode_takes_keys_as_text(
    s: SessionView,
    edit: EditView,
    key: KeyEvent,
    now: Duration,
)
    requires
        s.finished is None,
        s.state == PlayView::Edit(edit),
        edit.mode != EditorMode::Normal,
        s.accepted_commands < usize::MAX,
        !(key.control && key.code == KeyCode::Char('c')),
    ensures
        ({
            let after = s.key_pressed(key, now);
            let counted = SessionView {
                accepted_commands: (s.accepted_commands + 1) as usize,
                command_history: s.command_history.push("insert-char"@),
                ..s
            };
            match key.code {
                KeyCode::Char(ch) => after == (SessionView {
                    state: PlayView::Edit(edit.typed(ch)),
                    ..counted
                }).limits_checked(now),
                KeyCode::Backspace => if edit.cursor.x > 0 {
                    after == (SessionView {
                        state: PlayView::Edit(edit.erased()),
                        ..counted
                    }).limits_checked(now)
                } else {
                    after == s
                },
                KeyCode::Esc => after == (SessionView {
                    state: PlayView::Edit(edit.escaped()),
                    message: "Normal mode."@,
                    ..s
                }),
                _ => after == s,
            }
        }),
{
}

/// What a single key means in lesson three, with nothing typed before it.
proof fn lemma_single_key(s: SessionView, ch: char)
    requires
        s.input.len() == 0,
        s.commands.lesson >= 3,
        ch == 'a' || ch == 'i' || ch == 'x' || ch == 'u',
    ensures
        command::complete(s.input.push(ch), s.commands),
        command::parsed(s.input.push(ch), s.commands) == Some(
            if ch == 'a' {
                ParsedCommand::InsertAfter
            } else if ch == 'i' {
                ParsedCommand::InsertBefore
            } else if ch == 'x' {
                ParsedCommand::DeleteChar
            } else {
                ParsedCommand::Undo
            },
        ),
{
    let keys = seq![ch];
    assert(s.input.push(ch) =~= Seq::<char>::empty() + keys);
    reveal_strlit("<Esc>");
    assert(keys.len() == 1);
    assert(seq!['a'][0] == 'a');
    assert(seq!['i'][0] == 'i');
    assert(seq!['x'][0] == 'x');
    assert(seq!['u'][0] == 'u');
    assert(seq!['h'][0] == 'h');
    assert(seq!['j'][0] == 'j');
    assert(seq!['k'][0] == 'k');
    assert(seq!['l'][0] == 'l');
    assert(seq!['w'][0] == 'w');
    assert(seq!['b'][0] == 'b');
    assert(seq!['e'][0] == 'e');
    assert(seq!['g', 'e'].len() == 2);
    command::inputs_mean_one_command(Seq::empty(), keys, s.commands);
}

/// On an edit level, `a` and then a character puts that character behind the one under the
/// cursor, and `i` and then a character puts it before; every other line stays as it was.
pub proof fn a_goes_behind_and_i_before(
    s: SessionView,
    edit: EditView,
    behind: bool,
    ch: char,
    now: Duration,
    later: Duration,
)
    requires
        s.finished is None,
        s.state == PlayView::Edit(edit),
        edit.wf(),
        edit.mode == EditorMode::Normal,
        edit.cursor.x < edit.lines[edit.cursor.y as int].len(),
        edit.cursor.x + 1 < usize::MAX,
        s.input.len() == 0,
        s.commands.lesson >= 3,
        s.accepted_commands + 1 < usize::MAX,
        s.key_pressed(
            KeyEvent {
                code: KeyCode::Char(
                    if behind {
                        'a'
                    } else {
                        'i'
                    },
                ),
                control: false,
            },
            now,
        ).finished is None,
    ensures
        ({
            let first = s.key_pressed(
                KeyEvent {
                    code: KeyCode::Char(
                        if behind {
                            'a'
                        } else {
                            'i'
                        },
                    ),
                    control: false,
                },
                now,
            );
            let second = first.key_pressed(
                KeyEvent { code: KeyCode::Char(ch), control: false },
                later,
            );
            let line = edit.lines[edit.cursor.y as int];
            let at = if behind {
                edit.cursor.x + 1
            } else {
                edit.cursor.x as int
            };
            second.state matches PlayView::Edit(after) && after.lines == edit.lines.update(
                edit.cursor.y as int,
                line.take(at) + seq![ch] + line.skip(at),
            ) && after.cursor == (Pos { x: (at + 1) as usize, y: edit.cursor.y })
        }),
{
    let key = if behind {
        'a'
    } else {
        'i'
    };
    lemma_single_key(s, key);
    let typed = SessionView { input: s.input.push(key), ..s };
    let counted = SessionView {
        input: Seq::empty(),
        command_history: typed.command_history.push(typed.input),
        accepted_commands: (typed.accepted_commands + 1) as usize,
        ..typed
    };
    edit_commands_edit(counted, edit, ch, now);
    let opened = EditView {
        mode: EditorMode::Insert,
        ..if behind {
            edit.remembered().after_cursor()
        } else {
            edit.remembered()
        }
    };
    let first = s.key_pressed(KeyEvent { code: KeyCode::Char(key), control: false }, now);
    assert(first.state == PlayView::Edit(opened));
    surgery::modes_shift_the_cursor(edit);
    assert(opened.lines == edit.lines);
    assert(opened.wf());
    surgery::typing_puts_a_character_in(opened, ch);
    insert_mode_takes_keys_as_text(
        first,
        opened,
        KeyEvent { code: KeyCode::Char(ch), control: false },
        later,
    );
}

/// On an edit level, `x` takes out the character under the cursor and `u` brings it back.
pub proof fn u_takes_x_back(s: SessionView, edit: EditView, now: Duration, later: Duration)
    requires
        s.finished is None,
        s.state == PlayView::Edit(edit),
        edit.wf(),
        edit.mode == EditorMode::Normal,
        edit.cursor.x < edit.lines[edit.cursor.y as int].len(),
        s.input.len() == 0,
        s.commands.lesson >= 3,
        s.accepted_commands + 1 < usize::MAX,
        s.key_pressed(KeyEvent { code: KeyCode::Char('x'), control: false }, now).finished is None,
    ensures
        ({
            let first = s.key_pressed(KeyEvent { code: KeyCode::Char('x'), control: false }, now);
            let second = first.key_pressed(
                KeyEvent { code: KeyCode::Char('u'), control: false },
                later,
            );
            let line = edit.lines[edit.cursor.y as int];
            let x = edit.cursor.x as int;
            &&& first.state matches PlayView::Edit(after) && after.lines == edit.lines.update(
                edit.cursor.y as int,
                line.take(x) + line.skip(x + 1),
            )
            &&& second.state matches PlayView::Edit(after) && after.lines == edit.lines
        }),
{
    lemma_single_key(s, 'x');
    surgery::x_takes_one_character(edit.remembered());
    let first = s.key_pressed(KeyEvent { code: KeyCode::Char('x'), control: false }, now);
    lemma_single_key(first, 'u');
}

/// The summary of an outcome names the level, the result, the time and the commands, and
/// then the message and the hint.
pub proof fn summaries_tell_the_outcome(outcome: OutcomeView, seconds: Seq<char>)
    ensures
        ({
            let head = outcome.level_id + (match outcome.result {
                LevelResult::Clear => ": clear in "@,
                LevelResult::Defeat => ": defeat in "@,
                LevelResult::Quit => ": quit in "@,
            }) + seconds + "s using "@ + text::decimal(outcome.commands as nat) + " commands. "@
                + outcome.message;
            outcome.summary_text(seconds) == match outcome.hint {
                Some(hint) => head + "\nHint: "@ + hint,
                None => head,
            }
        }),
{
    reveal_strlit(": clear in ");
    reveal_strlit(": defeat in ");
    reveal_strlit(": quit in ");
    reveal_strlit(": ");
    reveal_strlit(" in ");
    reveal_strlit("clear");
    reveal_strlit("defeat");
    reveal_strlit("quit");
    let joined = match outcome.result {
        LevelResult::Clear => ": clear in "@,
        LevelResult::Defeat => ": defeat in "@,
        LevelResult::Quit => ": quit in "@,
    };
    assert(": "@ + outcome.result.word() + " in "@ =~= joined);
    let head = outcome.level_id + joined + seconds + "s using "@ + text::decimal(
        outcome.commands as nat,
    ) + " commands. "@ + outcome.message;
    assert(outcome.level_id + ": "@ + outcome.result.word() + " in "@ =~= outcome.level_id + (": "@
        + outcome.result.word() + " in "@));
    match outcome.hint {
        Some(hint) => {
            assert(outcome.summary_text(seconds) =~= head + "\nHint: "@ + hint);
        },
        None => {
            assert(outcome.summary_text(seconds) =~= head);
        },
    }
}

/// A motion fits the history of moves as long as a vector can hold them all, and everything
/// else always fits.
pub proof fn histories_hold_what_a_vector_can(s: SessionView, kind: MotionKind, count: usize)
    ensures
        s.has_room_for(Some(ParsedCommand::Motion(kind, count))) <==> s.moves_history.len() + count
            <= isize::MAX,
        s.has_room_for(None),
        forall|command: ParsedCommand|
            !(command is Motion) ==> #[trigger] s.has_room_for(Some(command)),
{
}

/// A key has room exactly if the history of moves, once the key has been pressed, is still
/// one that a vector can hold.
pub proof fn a_key_has_room_if_the_history_stays_small(s: SessionView, key: KeyEvent, now: Duration)
    requires
        s.moves_history.len() <= isize::MAX,
    ensures
        s.has_room_for_key(key) <==> s.key_pressed(key, now).moves_history.len() <= isize::MAX,
{
}

} // verus!

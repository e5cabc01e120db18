//! A level being played: keys go in, and in the end an outcome comes out.
//!
//! The rules are written over an elapsed time that is handed in; the functions
//! whose names end in `_at` take it as an argument. Those of the same name
//! without the ending read the clock once and do the same.

use crate::command;
use crate::command::{CommandSet, MotionKind, ParsedCommand};
use crate::edit::{EditState, EditView, EditorMode};
use crate::grid::{GridState, GridView};
use crate::hints;
use crate::key::{KeyCode, KeyEvent};
use crate::level::{Level, LevelKind, LevelKindView, LevelView};
use crate::text;
use crate::time;
use crate::time::Duration;
use crate::token::{TokenState, TokenView};
use vstd::prelude::*;

verus! {

/// What is being played.
#[derive(Debug)]
pub enum PlayState {
    Grid(GridState),
    Token(TokenState),
    Edit(EditState),
}

/// What a [`PlayState`] holds.
#[verifier::ext_equal]
pub enum PlayView {
    Grid(GridView),
    Token(TokenView),
    Edit(EditView),
}

impl View for PlayState {
    type V = PlayView;

    open spec fn view(&self) -> PlayView {
        match self {
            PlayState::Grid(grid) => PlayView::Grid(grid@),
            PlayState::Token(token) => PlayView::Token(token@),
            PlayState::Edit(edit) => PlayView::Edit(edit@),
        }
    }
}

impl PlayView {
    /// A level about to be played.
    pub open spec fn of_kind(kind: LevelKindView, seed: u64) -> PlayView {
        match kind {
            LevelKindView::Grid(spec) => PlayView::Grid(GridView::of_spec(spec, seed)),
            LevelKindView::Token(spec) => PlayView::Token(TokenView::of_spec(spec, seed)),
            LevelKindView::Edit(spec) => PlayView::Edit(EditView::of_spec(spec)),
        }
    }

    /// The state can be played on.
    pub open spec fn wf(self) -> bool {
        match self {
            PlayView::Grid(grid) => grid.wf(),
            PlayView::Token(token) => token.wf(),
            PlayView::Edit(edit) => edit.wf(),
        }
    }

    /// How many commands the player has.
    pub open spec fn budget(self) -> usize {
        match self {
            PlayView::Grid(grid) => grid.command_budget,
            PlayView::Token(token) => token.command_budget,
            PlayView::Edit(edit) => edit.command_budget,
        }
    }

    /// Keys go into the text.
    pub open spec fn inserting(self) -> bool {
        self matches PlayView::Edit(edit) && edit.mode != EditorMode::Normal
    }

    /// The text of an edit level is the one asked for, and no key goes into it.
    pub open spec fn patched(self) -> bool {
        self matches PlayView::Edit(edit) && edit.mode == EditorMode::Normal
            && edit.matches_target()
    }

    /// The state with the lava risen to where it stands by now.
    pub open spec fn hazards_at(self, now: Duration) -> PlayView {
        match self {
            PlayView::Grid(grid) => PlayView::Grid(grid.lava_at(now)),
            _ => self,
        }
    }

    /// Why the level is lost by now, after `used` commands, if it is.
    pub open spec fn lost(self, used: usize, now: Duration) -> Option<Seq<char>> {
        match self {
            PlayView::Grid(grid) => if grid.caught() {
                Some("The timed lava front caught the courier."@)
            } else if used >= grid.command_budget {
                Some("Command budget spent."@)
            } else {
                None
            },
            PlayView::Token(token) => if used >= token.command_budget {
                Some("Command budget spent."@)
            } else if expired(token.timer_seconds, now) {
                Some("The trace cooled before you arrived."@)
            } else {
                None
            },
            PlayView::Edit(edit) => if used >= edit.command_budget {
                Some("Command budget spent before the patch matched."@)
            } else if expired(edit.timer_seconds, now) {
                Some("Build bay timer expired."@)
            } else {
                None
            },
        }
    }
}

/// There is a time limit, and it has passed.
pub open spec fn expired(limit: Option<u64>, now: Duration) -> bool {
    limit matches Some(limit) && now.secs >= limit
}

/// How a level ended.
#[derive(Debug, Clone, Copy, PartialEq, Eq, Structural)]
pub enum LevelResult {
    Clear,
    Defeat,
    Quit,
}

impl LevelResult {
    /// The result in a word.
    pub open spec fn word(self) -> Seq<char> {
        match self {
            LevelResult::Clear => "clear"@,
            LevelResult::Defeat => "defeat"@,
            LevelResult::Quit => "quit"@,
        }
    }
}

/// How a level ended, when, and what the player is told.
#[derive(Debug)]
pub struct LevelOutcome {
    pub level_id: String,
    pub result: LevelResult,
    pub elapsed: Duration,
    pub commands: usize,
    pub message: String,
    pub hint: Option<String>,
}

/// What a [`LevelOutcome`] holds.
#[verifier::ext_equal]
pub struct OutcomeView {
    pub level_id: Seq<char>,
    pub result: LevelResult,
    pub elapsed: Duration,
    pub commands: usize,
    pub message: Seq<char>,
    pub hint: Option<Seq<char>>,
}

impl View for LevelOutcome {
    type V = OutcomeView;

    open spec fn view(&self) -> OutcomeView {
        OutcomeView {
            level_id: self.level_id@,
            result: self.result,
            elapsed: self.elapsed,
            commands: self.commands,
            message: self.message@,
            hint: hints::message_view(self.hint),
        }
    }
}

impl OutcomeView {
    /// The outcome in one or two lines, `seconds` being the elapsed time.
    pub open spec fn summary_text(self, seconds: Seq<char>) -> Seq<char> {
        self.level_id + ": "@ + self.result.word() + " in "@ + seconds + "s using "@
            + text::decimal(self.commands as nat) + " commands. "@ + self.message + match self.hint {
            Some(hint) => "\nHint: "@ + hint,
            None => Seq::empty(),
        }
    }
}

impl Clone for LevelOutcome {
    fn clone(&self) -> (copy: Self)
        ensures
            copy@ == self@,
    {
        Self {
            level_id: self.level_id.clone(),
            result: self.result,
            elapsed: self.elapsed,
            commands: self.commands,
            message: self.message.clone(),
            hint: match &self.hint {
                Some(hint) => Some(hint.clone()),
                None => None,
            },
        }
    }
}

impl LevelOutcome {
    /// The outcome in one or two lines. `seconds` is the elapsed time written out
    /// in seconds.
    pub fn summary(&self, seconds: &str) -> (summary: String)
        ensures
            summary@ == self@.summary_text(seconds@),
    {
        let status: &'static str = match self.result {
            LevelResult::Clear => "clear",
            LevelResult::Defeat => "defeat",
            LevelResult::Quit => "quit",
        };
        let mut summary: String = String::new();
        summary.append(self.level_id.as_str());
        summary.append(": ");
        summary.append(status);
        summary.append(" in ");
        summary.append(seconds);
        summary.append("s using ");
        text::push_decimal(&mut summary, self.commands);
        summary.append(" commands. ");
        summary.append(self.message.as_str());
        match &self.hint {
            Some(hint) => {
                summary.append("\nHint: ");
                summary.append(hint.as_str());
            },
            None => {},
        }
        assert(summary@ =~= self@.summary_text(seconds@));
        summary
    }
}

/// A level being played.
#[derive(Debug)]
pub struct GameSession {
    pub level: Level,
    pub commands: CommandSet,
    pub state: PlayState,
    pub input: String,
    pub accepted_commands: usize,
    pub start: std::time::Instant,
    pub finished: Option<LevelOutcome>,
    pub message: String,
    pub command_history: Vec<String>,
    pub moves_history: Vec<MotionKind>,
}

/// What a [`GameSession`] holds, but for the clock reading that it started at.
#[verifier::ext_equal]
pub struct SessionView {
    pub level: LevelView,
    pub commands: CommandSet,
    pub state: PlayView,
    pub input: Seq<char>,
    pub accepted_commands: usize,
    pub finished: Option<OutcomeView>,
    pub message: Seq<char>,
    pub command_history: Seq<Seq<char>>,
    pub moves_history: Seq<MotionKind>,
}

/// What an optional outcome holds.
pub open spec fn outcome_view(outcome: Option<LevelOutcome>) -> Option<OutcomeView> {
    match outcome {
        Some(outcome) => Some(outcome@),
        None => None,
    }
}

impl View for GameSession {
    type V = SessionView;

    open spec fn view(&self) -> SessionView {
        SessionView {
            level: self.level@,
            commands: self.commands,
            state: self.state@,
            input: self.input@,
            accepted_commands: self.accepted_commands,
            finished: outcome_view(self.finished),
            message: self.message@,
            command_history: text::lines_view(self.command_history@),
            moves_history: self.moves_history@,
        }
    }
}

impl SessionView {
    /// A session about to begin.
    pub open spec fn of_level(level: LevelView, seed: u64) -> SessionView {
        SessionView {
            level,
            commands: CommandSet { lesson: level.lesson },
            state: PlayView::of_kind(level.kind, seed),
            input: Seq::empty(),
            accepted_commands: 0,
            finished: None,
            message: "Deliver the patch. Type a Vim command; q quits the level."@,
            command_history: Seq::empty(),
            moves_history: Seq::empty(),
        }
    }

    /// The state can be played on, and as long as the level goes on its budget is
    /// not spent.
    pub open spec fn wf(self) -> bool {
        &&& self.state.wf()
        &&& self.finished is None ==> self.accepted_commands == 0 || self.accepted_commands
            < self.state.budget()
    }

    /// The history of moves can take what `command` adds to it.
    pub open spec fn has_room_for(self, command: Option<ParsedCommand>) -> bool {
        command matches Some(ParsedCommand::Motion(_, count)) ==> self.moves_history.len() + count
            <= isize::MAX
    }

    /// The history of moves can take what `key` adds to it.
    pub open spec fn has_room_for_key(self, key: KeyEvent) -> bool {
        ||| self.finished is Some
        ||| key.control && key.code == KeyCode::Char('c')
        ||| self.state.inserting()
        ||| match key.code {
            KeyCode::Enter => self.has_room_for(command::parsed(self.input, self.commands)),
            KeyCode::Char(ch) => self.has_room_for(
                command::parsed(self.input.push(ch), self.commands),
            ),
            _ => true,
        }
    }

    /// The player has been told something.
    pub open spec fn told(self, message: Seq<char>) -> SessionView {
        SessionView { message, ..self }
    }

    /// The level has come to another state.
    pub open spec fn with_state(self, state: PlayView) -> SessionView {
        SessionView { state, ..self }
    }

    /// What a player defeated now could have done better.
    pub open spec fn hint_text(self) -> Option<Seq<char>> {
        match self.state {
            PlayView::Grid(grid) => match hints::count_hint(self.moves_history) {
                Some(hint) => Some(hint),
                None => if grid.lava {
                    Some(
                        "Lava rises by real time now. Pre-plan long motions like `6k` or `8l` instead of waiting between single steps."@,
                    )
                } else {
                    None
                },
            },
            PlayView::Token(_) => hints::word_hint(self.command_history),
            PlayView::Edit(edit) => hints::edit_hint(edit),
        }
    }

    /// The level has ended. A defeat comes with a hint.
    pub open spec fn ended(self, result: LevelResult, message: Seq<char>, now: Duration) -> SessionView {
        SessionView {
            finished: Some(
                OutcomeView {
                    level_id: self.level.id,
                    result,
                    elapsed: now,
                    commands: self.accepted_commands,
                    message,
                    hint: if result == LevelResult::Defeat {
                        self.hint_text()
                    } else {
                        None
                    },
                },
            ),
            message,
            ..self
        }
    }

    /// The level is cleared if its text is the one asked for.
    pub open spec fn patch_checked(self, now: Duration) -> SessionView {
        if self.state.patched() {
            self.ended(LevelResult::Clear, "The patch compiles in the bay."@, now)
        } else {
            self
        }
    }

    /// The lava has risen to where it stands by now.
    pub open spec fn hazards_updated(self, now: Duration) -> SessionView {
        self.with_state(self.state.hazards_at(now))
    }

    /// The lava has risen, and the level is lost if the lava, the budget or the
    /// time says so.
    pub open spec fn limits_checked(self, now: Duration) -> SessionView {
        if self.finished is Some {
            self
        } else {
            let risen = self.hazards_updated(now);
            match risen.state.lost(self.accepted_commands, now) {
                Some(reason) => risen.ended(LevelResult::Defeat, reason, now),
                None => risen,
            }
        }
    }

    /// A motion has been made `count` times.
    pub open spec fn motion_made(self, kind: MotionKind, count: usize, now: Duration) -> SessionView {
        let noted = SessionView {
            moves_history: self.moves_history + Seq::new(count as nat, |i: int| kind),
            ..self
        };
        match self.state {
            PlayView::Grid(grid) => {
                let grid = grid.moved(kind, count as nat);
                let s = noted.with_state(PlayView::Grid(grid));
                if grid.player == grid.goal {
                    s.ended(LevelResult::Clear, "Patch delivered through the hot floor."@, now)
                } else if grid.caught() {
                    s.ended(LevelResult::Defeat, "The lava reached your boots."@, now)
                } else {
                    s.told(command::motion_report(kind, count))
                }
            },
            PlayView::Token(token) => {
                let token = token.moved(kind, count as nat).collect();
                let s = noted.with_state(PlayView::Token(token));
                if token.done() {
                    s.ended(LevelResult::Clear, "You rode the word rails cleanly."@, now)
                } else {
                    s.told(
                        command::motion_report(kind, count) + " Target "@ + text::decimal(
                            (token.next_target + 1) as nat,
                        ) + "/"@ + text::decimal(token.targets.len()) + "."@,
                    )
                }
            },
            PlayView::Edit(edit) => noted.with_state(
                PlayView::Edit(edit.moved(kind, count as nat)),
            ).told(command::motion_report(kind, count)),
        }
    }

    /// An edit command has been carried out on an edit level.
    pub open spec fn edit_made(self, edit: EditView, made: ParsedCommand, now: Duration) -> SessionView {
        let saved = edit.remembered();
        match made {
            ParsedCommand::InsertBefore => self.with_state(
                PlayView::Edit(saved.in_mode(EditorMode::Insert)),
            ).told("-- INSERT --"@),
            ParsedCommand::InsertAfter => self.with_state(
                PlayView::Edit(saved.after_cursor().in_mode(EditorMode::Insert)),
            ).told("-- INSERT --"@),
            ParsedCommand::DeleteChar => self.with_state(
                PlayView::Edit(saved.without_char()),
            ).told("Deleted one character with x."@).patch_checked(now),
            ParsedCommand::Replace(ch) => self.with_state(
                PlayView::Edit(saved.with_char(ch)),
            ).told("Replaced one character with "@ + seq![ch] + "."@).patch_checked(now),
            ParsedCommand::DeleteWord => self.with_state(
                PlayView::Edit(saved.without_word()),
            ).told("Deleted a word with dw."@).patch_checked(now),
            ParsedCommand::ChangeWord => self.with_state(
                PlayView::Edit(saved.without_word().in_mode(EditorMode::ChangeWord)),
            ).told("-- CHANGE WORD --"@),
            ParsedCommand::DeleteLine => self.with_state(
                PlayView::Edit(saved.without_line()),
            ).told("Deleted a line with dd."@).patch_checked(now),
            ParsedCommand::Undo => self.with_state(PlayView::Edit(edit.undone())).told(
                if edit.undo.len() > 0 {
                    "Undo restored the previous buffer."@
                } else {
                    "Nothing to undo yet."@
                },
            ).patch_checked(now),
            _ => self,
        }
    }

    /// A command has been carried out.
    pub open spec fn applied(self, command: ParsedCommand, now: Duration) -> SessionView {
        match command {
            ParsedCommand::Motion(kind, count) => self.motion_made(kind, count, now),
            ParsedCommand::Escape => self,
            _ => match self.state {
                PlayView::Edit(edit) => self.edit_made(edit, command, now),
                _ => self.told("That edit command belongs in Code Surgery levels."@),
            },
        }
    }

    /// What was typed has been carried out, if it is a command, and has been
    /// refused otherwise.
    pub open spec fn executed(self, now: Duration) -> SessionView {
        let emptied = SessionView { input: Seq::empty(), ..self };
        match command::parsed(self.input, self.commands) {
            Some(command) => SessionView {
                command_history: self.command_history.push(self.input),
                accepted_commands: (self.accepted_commands + 1) as usize,
                ..emptied
            }.applied(command, now).limits_checked(now),
            None => emptied.told(command::refusal(self.input)),
        }
    }

    /// A key that goes into the text has been pressed.
    pub open spec fn insert_key(self, key: KeyEvent, now: Duration) -> SessionView {
        match self.state {
            PlayView::Edit(edit) => match key.code {
                KeyCode::Esc => self.with_state(PlayView::Edit(edit.escaped())).told(
                    "Normal mode."@,
                ),
                KeyCode::Backspace if edit.cursor.x > 0 => self.with_state(
                    PlayView::Edit(edit.erased()),
                ).insertion_counted(now),
                KeyCode::Char(ch) => self.with_state(
                    PlayView::Edit(edit.typed(ch)),
                ).insertion_counted(now),
                _ => self,
            },
            _ => self,
        }
    }

    /// A change of the text in insert mode counts as a command.
    pub open spec fn insertion_counted(self, now: Duration) -> SessionView {
        SessionView {
            accepted_commands: (self.accepted_commands + 1) as usize,
            command_history: self.command_history.push("insert-char"@),
            ..self
        }.limits_checked(now).patch_checked(now)
    }

    /// A key has been pressed.
    pub open spec fn key_pressed(self, key: KeyEvent, now: Duration) -> SessionView {
        if self.finished is Some {
            self
        } else if key.control && key.code == KeyCode::Char('c') {
            self.ended(LevelResult::Quit, "Interrupted."@, now)
        } else if self.state.inserting() {
            self.insert_key(key, now)
        } else {
            match key.code {
                KeyCode::Esc => if self.input.len() == 0 {
                    self.ended(LevelResult::Quit, "Back to the dispatch board."@, now)
                } else {
                    SessionView { input: Seq::empty(), ..self }.told("Command buffer cleared."@)
                },
                KeyCode::Backspace => if self.input.len() == 0 {
                    self
                } else {
                    SessionView { input: self.input.drop_last(), ..self }
                },
                KeyCode::Enter => if self.input.len() == 0 {
                    self
                } else {
                    self.executed(now)
                },
                KeyCode::Char(ch) => if ch == 'q' && self.input.len() == 0 {
                    self.ended(LevelResult::Quit, "Back to the dispatch board."@, now)
                } else {
                    let typed = SessionView { input: self.input.push(ch), ..self };
                    if command::complete(typed.input, self.commands) {
                        typed.executed(now)
                    } else {
                        typed
                    }
                },
                _ => self,
            }
        }
    }
}

impl GameSession {
    /// Starts the level.
    pub fn new(level: &Level, seed: u64) -> (session: Self)
        requires
            level@.kind.can_start(),
        ensures
            session@ == SessionView::of_level(level@, seed),
            level@.kind.wf() ==> session@.wf(),
    {
        let commands: CommandSet = CommandSet::for_lesson(level.lesson);
        let state: PlayState = match &level.kind {
            LevelKind::Grid(spec) => PlayState::Grid(GridState::from_spec(spec, seed)),
            LevelKind::Token(spec) => PlayState::Token(TokenState::from_spec(spec, seed)),
            LevelKind::Edit(spec) => PlayState::Edit(EditState::from_spec(spec)),
        };
        let session: GameSession = Self {
            level: level.clone(),
            commands,
            state,
            input: String::new(),
            accepted_commands: 0,
            start: time::clock_now(),
            finished: None,
            message: "Deliver the patch. Type a Vim command; q quits the level.".to_string(),
            command_history: Vec::new(),
            moves_history: Vec::new(),
        };
        assert(session@ =~= SessionView::of_level(level@, seed));
        session
    }

    /// The time since the level started, by the clock.
    pub fn elapsed(&self) -> (elapsed: Duration)
        ensures
            elapsed.wf(),
    {
        time::elapsed_since(&self.start)
    }

    /// Whether what has been typed is a whole command.
    pub fn buffer_is_complete(&self) -> (complete: bool)
        ensures
            complete == command::complete(self@.input, self@.commands),
    {
        command::is_complete(self.input.as_str(), self.commands)
    }

    /// What a player defeated now could have done better.
    pub fn hint(&self) -> (hint: Option<String>)
        ensures
            hints::message_view(hint) == self@.hint_text(),
    {
        match &self.state {
            PlayState::Grid(grid) => {
                let counts: Option<String> = hints::hint_for_counts(self.moves_history.as_slice());
                if counts.is_some() {
                    counts
                } else if grid.lava {
                    Some(
                        "Lava rises by real time now. Pre-plan long motions like `6k` or `8l` instead of waiting between single steps.".to_string(),
                    )
                } else {
                    None
                }
            },
            PlayState::Token(_) => hints::hint_for_words(self.command_history.as_slice()),
            PlayState::Edit(edit) => hints::hint_for_edits(edit),
        }
    }

    /// Ends the level at `now`.
    pub fn finish_at(&mut self, result: LevelResult, message: String, now: Duration)
        ensures
            final(self)@ == old(self)@.ended(result, message@, now),
            final(self).start == old(self).start,
            old(self)@.wf() ==> final(self)@.wf(),
    {
        let hint: Option<String> = if result == LevelResult::Defeat {
            self.hint()
        } else {
            None
        };
        self.finished = Some(
            LevelOutcome {
                level_id: self.level.id.clone(),
                result,
                elapsed: now,
                commands: self.accepted_commands,
                message: message.clone(),
                hint,
            },
        );
        self.message = message;
        assert(self@ =~= old(self)@.ended(result, message@, now));
    }

    /// Lets the lava rise to where it stands at `now`.
    pub fn update_timed_hazards_at(&mut self, now: Duration)
        ensures
            final(self)@ == old(self)@.hazards_updated(now),
            final(self).start == old(self).start,
            old(self)@.wf() ==> final(self)@.wf(),
    {
        match &mut self.state {
            PlayState::Grid(grid) => {
                grid.update_lava(now);
            },
            _ => {},
        }
        assert(self@ =~= old(self)@.hazards_updated(now));
    }

    /// Clears an edit level whose text is the one asked for.
    pub fn check_edit_clear_at(&mut self, now: Duration)
        ensures
            final(self)@ == old(self)@.patch_checked(now),
            final(self).start == old(self).start,
            old(self)@.wf() ==> final(self)@.wf(),
    {
        let patched: bool = match &self.state {
            PlayState::Edit(edit) => edit.mode == EditorMode::Normal && text::same_lines(
                &edit.lines,
                &edit.expected,
            ),
            _ => false,
        };
        if patched {
            self.finish_at(LevelResult::Clear, "The patch compiles in the bay.".to_string(), now);
        }
    }

    /// Why the level is lost by now, if it is.
    fn lost_reason(&self, now: Duration) -> (reason: Option<&'static str>)
        ensures
            match reason {
                Some(reason) => self@.state.lost(self.accepted_commands, now) == Some(reason@),
                None => self@.state.lost(self.accepted_commands, now) is None,
            },
    {
        match &self.state {
            PlayState::Grid(grid) => if grid.player_in_lava() {
                Some("The timed lava front caught the courier.")
            } else if self.accepted_commands >= grid.command_budget {
                Some("Command budget spent.")
            } else {
                None
            },
            PlayState::Token(token) => if self.accepted_commands >= token.command_budget {
                Some("Command budget spent.")
            } else if is_expired(token.timer_seconds, now) {
                Some("The trace cooled before you arrived.")
            } else {
                None
            },
            PlayState::Edit(edit) => if self.accepted_commands >= edit.command_budget {
                Some("Command budget spent before the patch matched.")
            } else if is_expired(edit.timer_seconds, now) {
                Some("Build bay timer expired.")
            } else {
                None
            },
        }
    }

    /// Lets the lava rise, and ends the level if the lava, the budget or the time
    /// says so.
    pub fn check_limits_at(&mut self, now: Duration)
        requires
            old(self)@.state.wf(),
        ensures
            final(self)@ == old(self)@.limits_checked(now),
            final(self).start == old(self).start,
            final(self)@.wf(),
    {
        if self.finished.is_some() {
            return ;
        }
        self.update_timed_hazards_at(now);
        match self.lost_reason(now) {
            Some(reason) => {
                self.finish_at(LevelResult::Defeat, reason.to_string(), now);
            },
            None => {},
        }
    }
}

/// Whether there is a time limit that has passed.
fn is_expired(limit: Option<u64>, now: Duration) -> (is: bool)
    ensures
        is == expired(limit, now),
{
    match limit {
        Some(limit) => now.as_secs() >= limit,
        None => false,
    }
}

impl GameSession {
    /// Notes that a motion is made `count` times.
    fn note_moves(&mut self, kind: MotionKind, count: usize)
        requires
            old(self)@.has_room_for(Some(ParsedCommand::Motion(kind, count))),
        ensures
            final(self)@ == (SessionView {
                moves_history: old(self)@.moves_history + Seq::new(count as nat, |i: int| kind),
                ..old(self)@
            }),
            final(self).start == old(self).start,
    {
        let mut done: usize = 0;
        while done < count
            invariant
                done <= count,
                self@ == (SessionView { moves_history: self.moves_history@, ..old(self)@ }),
                self.moves_history@ == old(self)@.moves_history + Seq::new(
                    done as nat,
                    |i: int| kind,
                ),
                self.start == old(self).start,
            decreases count - done,
        {
            self.moves_history.push(kind);
            done += 1;
            assert(self.moves_history@ =~= old(self)@.moves_history + Seq::new(
                done as nat,
                |i: int| kind,
            ));
        }
    }

    /// Makes a motion `count` times.
    fn make_motion(&mut self, kind: MotionKind, count: usize, now: Duration)
        requires
            old(self)@.state.wf(),
            old(self)@.has_room_for(Some(ParsedCommand::Motion(kind, count))),
        ensures
            final(self)@ == old(self)@.motion_made(kind, count, now),
            final(self).start == old(self).start,
            final(self)@.state.wf(),
    {
        self.note_moves(kind, count);
        let report: String = command::describe_motion(kind, count);
        match &mut self.state {
            PlayState::Grid(grid) => {
                grid.apply_motion(kind, count);
                if grid.player.x == grid.goal.x && grid.player.y == grid.goal.y {
                    let message: String = "Patch delivered through the hot floor.".to_string();
                    self.finish_at(LevelResult::Clear, message, now);
                } else if grid.player_in_lava() {
                    let message: String = "The lava reached your boots.".to_string();
                    self.finish_at(LevelResult::Defeat, message, now);
                } else {
                    self.message = report;
                }
            },
            PlayState::Token(token) => {
                token.apply_motion(kind, count);
                token.collect_targets();
                if token.next_target == token.targets.len() {
                    let message: String = "You rode the word rails cleanly.".to_string();
                    self.finish_at(LevelResult::Clear, message, now);
                } else {
                    let mut message: String = report;
                    message.append(" Target ");
                    text::push_decimal(&mut message, token.next_target + 1);
                    message.append("/");
                    text::push_decimal(&mut message, token.targets.len());
                    message.append(".");
                    self.message = message;
                }
            },
            PlayState::Edit(edit) => {
                edit.apply_motion(kind, count);
                self.message = report;
            },
        }
        assert(self@ =~= old(self)@.motion_made(kind, count, now));
    }

    /// Carries out an edit command, or tells the player that it does not belong here.
    fn make_edit(&mut self, command: ParsedCommand, now: Duration)
        requires
            old(self)@.state.wf(),
            !(command is Motion),
            !(command is Escape),
        ensures
            final(self)@ == old(self)@.applied(command, now),
            final(self).start == old(self).start,
            final(self)@.state.wf(),
    {
        let edit: &mut EditState = match &mut self.state {
            PlayState::Edit(edit) => edit,
            _ => {
                self.message = "That edit command belongs in Code Surgery levels.".to_string();
                assert(self@ =~= old(self)@.applied(command, now));
                return ;
            },
        };
        let (message, may_clear): (String, bool) = match command {
            ParsedCommand::InsertBefore => {
                edit.push_undo();
                edit.mode = EditorMode::Insert;
                ("-- INSERT --".to_string(), false)
            },
            ParsedCommand::InsertAfter => {
                edit.push_undo();
                edit.step_after();
                edit.mode = EditorMode::Insert;
                ("-- INSERT --".to_string(), false)
            },
            ParsedCommand::DeleteChar => {
                edit.push_undo();
                edit.delete_char();
                ("Deleted one character with x.".to_string(), true)
            },
            ParsedCommand::Replace(ch) => {
                edit.push_undo();
                edit.replace_char(ch);
                let mut message: String = "Replaced one character with ".to_string();
                message.push(ch);
                message.append(".");
                assert(message@ =~= "Replaced one character with "@ + seq![ch] + "."@);
                (message, true)
            },
            ParsedCommand::DeleteWord => {
                edit.push_undo();
                edit.delete_word();
                ("Deleted a word with dw.".to_string(), true)
            },
            ParsedCommand::ChangeWord => {
                edit.push_undo();
                edit.delete_word();
                edit.mode = EditorMode::ChangeWord;
                ("-- CHANGE WORD --".to_string(), false)
            },
            ParsedCommand::DeleteLine => {
                edit.push_undo();
                edit.delete_line();
                ("Deleted a line with dd.".to_string(), true)
            },
            _ => {
                if edit.undo_last() {
                    ("Undo restored the previous buffer.".to_string(), true)
                } else {
                    ("Nothing to undo yet.".to_string(), true)
                }
            },
        };
        self.message = message;
        if may_clear {
            self.check_edit_clear_at(now);
        }
        assert(self@ =~= old(self)@.applied(command, now));
    }

    /// Carries out a command.
    pub fn apply_command_at(&mut self, command: ParsedCommand, now: Duration)
        requires
            old(self)@.state.wf(),
            old(self)@.has_room_for(Some(command)),
        ensures
            final(self)@ == old(self)@.applied(command, now),
            final(self).start == old(self).start,
            final(self)@.state.wf(),
    {
        match command {
            ParsedCommand::Motion(kind, count) => self.make_motion(kind, count, now),
            ParsedCommand::Escape => {},
            _ => self.make_edit(command, now),
        }
    }

    /// Carries out what was typed, or refuses it.
    pub fn execute_buffer_at(&mut self, now: Duration)
        requires
            old(self)@.state.wf(),
            old(self).accepted_commands < usize::MAX,
            old(self)@.has_room_for(command::parsed(old(self)@.input, old(self)@.commands)),
        ensures
            final(self)@ == old(self)@.executed(now),
            final(self).start == old(self).start,
            old(self)@.wf() ==> final(self)@.wf(),
    {
        let mut input: String = String::new();
        std::mem::swap(&mut input, &mut self.input);
        match command::parse_command(input.as_str(), self.commands) {
            Ok(command) => {
                self.command_history.push(input);
                self.accepted_commands += 1;
                assert(self@ =~= (SessionView {
                    input: Seq::empty(),
                    command_history: old(self)@.command_history.push(old(self)@.input),
                    accepted_commands: (old(self)@.accepted_commands + 1) as usize,
                    ..old(self)@
                }));
                self.apply_command_at(command, now);
                self.check_limits_at(now);
            },
            Err(message) => {
                self.message = message;
                assert(self@ =~= old(self)@.executed(now));
            },
        }
    }

    /// Takes a key that goes into the text.
    pub fn handle_insert_key_at(&mut self, key: KeyEvent, now: Duration)
        requires
            old(self)@.state.wf(),
            old(self).accepted_commands < usize::MAX,
        ensures
            final(self)@ == old(self)@.insert_key(key, now),
            final(self).start == old(self).start,
            old(self)@.wf() ==> final(self)@.wf(),
    {
        let mut accepted: bool = false;
        match &mut self.state {
            PlayState::Edit(edit) => match key.code {
                KeyCode::Esc => {
                    edit.escape();
                    self.message = "Normal mode.".to_string();
                },
                KeyCode::Backspace => {
                    accepted = edit.erase_char();
                },
                KeyCode::Char(ch) => {
                    edit.type_char(ch);
                    accepted = true;
                },
                _ => {},
            },
            _ => {},
        }
        if accepted {
            self.accepted_commands += 1;
            self.command_history.push("insert-char".to_string());
            self.check_limits_at(now);
            self.check_edit_clear_at(now);
        }
        assert(self@ =~= old(self)@.insert_key(key, now));
    }

    /// Takes a key.
    pub fn on_key_at(&mut self, key: KeyEvent, now: Duration)
        requires
            old(self)@.wf(),
            old(self)@.has_room_for_key(key),
        ensures
            final(self)@ == old(self)@.key_pressed(key, now),
            final(self).start == old(self).start,
            final(self)@.wf(),
    {
        if self.finished.is_some() {
            return ;
        }
        if key.control && key.code == KeyCode::Char('c') {
            self.finish_at(LevelResult::Quit, "Interrupted.".to_string(), now);
            return ;
        }
        if self.takes_text() {
            self.handle_insert_key_at(key, now);
            return ;
        }
        let empty: bool = self.input.as_str().unicode_len() == 0;
        match key.code {
            KeyCode::Esc => {
                if empty {
                    self.finish_at(LevelResult::Quit, "Back to the dispatch board.".to_string(), now);
                } else {
                    self.input = String::new();
                    self.message = "Command buffer cleared.".to_string();
                }
            },
            KeyCode::Backspace => {
                self.input.pop();
            },
            KeyCode::Enter => {
                if !empty {
                    self.execute_buffer_at(now);
                }
            },
            KeyCode::Char(ch) => {
                if ch == 'q' && empty {
                    self.finish_at(LevelResult::Quit, "Back to the dispatch board.".to_string(), now);
                } else {
                    self.input.push(ch);
                    if self.buffer_is_complete() {
                        self.execute_buffer_at(now);
                    }
                }
            },
            _ => {},
        }
        assert(self@ =~= old(self)@.key_pressed(key, now));
    }

    /// Whether keys go into the text.
    pub fn takes_text(&self) -> (inserting: bool)
        ensures
            inserting == self@.state.inserting(),
    {
        match &self.state {
            PlayState::Edit(edit) => edit.mode != EditorMode::Normal,
            _ => false,
        }
    }

    /// Whether the history of moves can take what `command` adds to it.
    fn fits(&self, command: Result<ParsedCommand, String>) -> (fits: bool)
        ensures
            fits == self@.has_room_for(
                match command {
                    Ok(command) => Some(command),
                    Err(_) => None,
                },
            ),
    {
        match command {
            Ok(ParsedCommand::Motion(_, count)) => self.moves_history.len() <= isize::MAX as usize
                && count <= isize::MAX as usize - self.moves_history.len(),
            _ => true,
        }
    }

    /// Whether the history of moves can take what `key` adds to it.
    pub fn key_fits(&self, key: KeyEvent) -> (fits: bool)
        ensures
            fits == self@.has_room_for_key(key),
    {
        if self.finished.is_some() || (key.control && key.code == KeyCode::Char('c'))
            || self.takes_text() {
            return true;
        }
        match key.code {
            KeyCode::Enter => self.fits(command::parse_command(self.input.as_str(), self.commands)),
            KeyCode::Char(ch) => {
                let mut typed: String = self.input.clone();
                typed.push(ch);
                self.fits(command::parse_command(typed.as_str(), self.commands))
            },
            _ => true,
        }
    }
}

impl GameSession {
    /// Takes a key, at the time that the clock shows.
    pub fn on_key(&mut self, key: KeyEvent)
        requires
            old(self)@.wf(),
            old(self)@.has_room_for_key(key),
        ensures
            exists|now: Duration|
                now.wf() && final(self)@ == #[trigger] old(self)@.key_pressed(key, now),
            final(self).start == old(self).start,
            final(self)@.wf(),
    {
        let now: Duration = self.elapsed();
        self.on_key_at(key, now);
    }

    /// Takes a key that goes into the text, at the time that the clock shows.
    pub fn handle_insert_key(&mut self, key: KeyEvent)
        requires
            old(self)@.state.wf(),
            old(self).accepted_commands < usize::MAX,
        ensures
            exists|now: Duration|
                now.wf() && final(self)@ == #[trigger] old(self)@.insert_key(key, now),
            final(self).start == old(self).start,
            old(self)@.wf() ==> final(self)@.wf(),
    {
        let now: Duration = self.elapsed();
        self.handle_insert_key_at(key, now);
    }

    /// Carries out what was typed, or refuses it, at the time that the clock shows.
    pub fn execute_buffer(&mut self)
        requires
            old(self)@.state.wf(),
            old(self).accepted_commands < usize::MAX,
            old(self)@.has_room_for(command::parsed(old(self)@.input, old(self)@.commands)),
        ensures
            exists|now: Duration| now.wf() && final(self)@ == #[trigger] old(self)@.executed(now),
            final(self).start == old(self).start,
            old(self)@.wf() ==> final(self)@.wf(),
    {
        let now: Duration = self.elapsed();
        self.execute_buffer_at(now);
    }

    /// Carries out a command, at the time that the clock shows.
    pub fn apply_command(&mut self, command: ParsedCommand)
        requires
            old(self)@.state.wf(),
            old(self)@.has_room_for(Some(command)),
        ensures
            exists|now: Duration|
                now.wf() && final(self)@ == #[trigger] old(self)@.applied(command, now),
            final(self).start == old(self).start,
            final(self)@.state.wf(),
    {
        let now: Duration = self.elapsed();
        self.apply_command_at(command, now);
    }

    /// Clears an edit level whose text is the one asked for, at the time that the
    /// clock shows.
    pub fn check_edit_clear(&mut self)
        ensures
            exists|now: Duration|
                now.wf() && final(self)@ == #[trigger] old(self)@.patch_checked(now),
            final(self).start == old(self).start,
            old(self)@.wf() ==> final(self)@.wf(),
    {
        let now: Duration = self.elapsed();
        self.check_edit_clear_at(now);
    }

    /// Lets the lava rise, and ends the level if the lava, the budget or the time
    /// says so, by the clock.
    pub fn check_limits(&mut self)
        requires
            old(self)@.state.wf(),
        ensures
            exists|now: Duration|
                now.wf() && final(self)@ == #[trigger] old(self)@.limits_checked(now),
            final(self).start == old(self).start,
            final(self)@.wf(),
    {
        let now: Duration = self.elapsed();
        self.check_limits_at(now);
    }

    /// Lets the lava rise to where it stands by the clock.
    pub fn update_timed_hazards(&mut self)
        ensures
            exists|now: Duration|
                now.wf() && final(self)@ == #[trigger] old(self)@.hazards_updated(now),
            final(self).start == old(self).start,
            old(self)@.wf() ==> final(self)@.wf(),
    {
        let now: Duration = self.elapsed();
        self.update_timed_hazards_at(now);
    }

    /// Ends the level at the time that the clock shows.
    pub fn finish(&mut self, result: LevelResult, message: String)
        ensures
            exists|now: Duration|
                now.wf() && final(self)@ == #[trigger] old(self)@.ended(result, message@, now),
            final(self).start == old(self).start,
            old(self)@.wf() ==> final(self)@.wf(),
    {
        let now: Duration = self.elapsed();
        self.finish_at(result, message, now);
    }
}

/// A level that has ended takes no more keys.
pub proof fn an_ended_level_ignores_keys(s: SessionView, key: KeyEvent, now: Duration)
    requires
        s.finished is Some,
    ensures
        s.key_pressed(key, now) == s,
        s.limits_checked(now) == s,
{
}

/// What is no command of the lesson costs nothing: it is cleared and explained, and
/// nothing else changes.
pub proof fn refused_input_costs_nothing(s: SessionView, now: Duration)
    requires
        command::parsed(s.input, s.commands) is None,
    ensures
        s.executed(now) == (SessionView {
            input: Seq::empty(),
            message: command::refusal(s.input),
            ..s
        }),
{
}

proof fn lemma_key_counts_once(s: SessionView, key: KeyEvent, now: Duration)
    requires
        s.finished is None ==> s.accepted_commands == 0 || s.accepted_commands < s.state.budget(),
    ensures
        s.accepted_commands <= s.key_pressed(key, now).accepted_commands
            <= s.accepted_commands + 1,
        s.key_pressed(key, now).finished is None ==> s.key_pressed(key, now).accepted_commands == 0
            || s.key_pressed(key, now).accepted_commands < s.state.budget(),
{
}

/// A key counts as one command at most; as long as the level goes on the budget is not
/// spent, and no more than the budget is ever counted, but for a first command where
/// there is none.
pub proof fn a_key_counts_once(s: SessionView, key: KeyEvent, now: Duration)
    requires
        s.wf(),
    ensures
        s.accepted_commands <= s.key_pressed(key, now).accepted_commands
            <= s.accepted_commands + 1,
        s.key_pressed(key, now).finished is None ==> s.key_pressed(key, now).accepted_commands == 0
            || s.key_pressed(key, now).accepted_commands < s.state.budget(),
        s.finished is None ==> s.key_pressed(key, now).accepted_commands <= s.state.budget()
            || s.key_pressed(key, now).accepted_commands <= 1,
{
    lemma_key_counts_once(s, key, now);
}

/// `later` is a session of the same level, and its histories go on from those of
/// `earlier`.
pub open spec fn goes_on_from(later: SessionView, earlier: SessionView) -> bool {
    &&& later.level == earlier.level
    &&& later.commands == earlier.commands
    &&& later.state.budget() == earlier.state.budget()
    &&& earlier.command_history.is_prefix_of(later.command_history)
    &&& earlier.moves_history.is_prefix_of(later.moves_history)
}

proof fn lemma_applied_goes_on(s: SessionView, command: ParsedCommand, now: Duration)
    ensures
        goes_on_from(s.applied(command, now), s),
{
}

proof fn lemma_executed_goes_on(s: SessionView, now: Duration)
    ensures
        goes_on_from(s.executed(now), s),
{
    match command::parsed(s.input, s.commands) {
        Some(command) => {
            let counted = SessionView {
                input: Seq::empty(),
                command_history: s.command_history.push(s.input),
                accepted_commands: (s.accepted_commands + 1) as usize,
                ..s
            };
            lemma_applied_goes_on(counted, command, now);
        },
        None => {},
    }
}

/// No key changes the level, its vocabulary or its budget, and none takes anything
/// out of the histories.
pub proof fn keys_keep_the_level(s: SessionView, key: KeyEvent, now: Duration)
    ensures
        goes_on_from(s.key_pressed(key, now), s),
{
    lemma_executed_goes_on(s, now);
    match key.code {
        KeyCode::Char(ch) => {
            lemma_executed_goes_on(SessionView { input: s.input.push(ch), ..s }, now);
        },
        _ => {},
    }
}

/// An outcome tells of the level, the time and the commands at its end, and only a
/// defeat comes with a hint.
pub proof fn outcomes_tell_of_the_end(s: SessionView, key: KeyEvent, now: Duration)
    requires
        s.finished is None,
    ensures
        s.key_pressed(key, now).finished matches Some(outcome) ==> {
            &&& outcome.level_id == s.level.id
            &&& outcome.elapsed == now
            &&& outcome.commands == s.key_pressed(key, now).accepted_commands
            &&& outcome.message == s.key_pressed(key, now).message
            &&& outcome.hint is Some ==> outcome.result == LevelResult::Defeat
        },
{
}

/// A command that brings the player to the goal clears the level, even if it is the
/// last one of the budget and whatever the time.
pub proof fn reaching_the_goal_clears(
    s: SessionView,
    grid: GridView,
    kind: MotionKind,
    count: usize,
    now: Duration,
)
    requires
        s.finished is None,
        s.state == PlayView::Grid(grid),
        command::parsed(s.input, s.commands) == Some(ParsedCommand::Motion(kind, count)),
        grid.moved(kind, count as nat).player == grid.goal,
    ensures
        s.executed(now).finished matches Some(outcome) && outcome.result == LevelResult::Clear,
{
}

/// The lava catches a player without a single key, once it has risen to the
/// player's row.
pub proof fn lava_catches_without_keys(s: SessionView, grid: GridView, now: Duration)
    requires
        s.finished is None,
        s.state == PlayView::Grid(grid),
        grid.lava_at(now).caught(),
    ensures
        s.limits_checked(now).finished matches Some(outcome) && outcome.result
            == LevelResult::Defeat && outcome.message
            == "The timed lava front caught the courier."@,
{
}

/// Backspace takes a typed key back, as long as the keys are no whole command.
pub proof fn backspace_takes_a_key_back(s: SessionView, ch: char, now: Duration, later: Duration)
    requires
        s.finished is None,
        !s.state.inserting(),
        !(ch == 'q' && s.input.len() == 0),
        !command::complete(s.input.push(ch), s.commands),
    ensures
        s.key_pressed(KeyEvent { code: KeyCode::Char(ch), control: false }, now).key_pressed(
            KeyEvent { code: KeyCode::Backspace, control: false },
            later,
        ) == s,
{
    assert(s.input.push(ch).drop_last() =~= s.input);
}

/// What a session comes to with keys pressed one after the other, each at its time.
pub open spec fn played(s: SessionView, keys: Seq<(KeyEvent, Duration)>) -> SessionView
    decreases keys.len(),
{
    if keys.len() == 0 {
        s
    } else {
        played(s, keys.drop_last()).key_pressed(keys.last().0, keys.last().1)
    }
}

/// However a level is played, it counts no more commands than its budget (but for a
/// first one where there is no budget), and it never becomes another level.
pub proof fn no_game_exceeds_the_budget(
    level: LevelView,
    seed: u64,
    keys: Seq<(KeyEvent, Duration)>,
)
    ensures
        ({
            let start = SessionView::of_level(level, seed);
            let end = played(start, keys);
            &&& end.level == level
            &&& end.state.budget() == start.state.budget()
            &&& end.accepted_commands <= start.state.budget() || end.accepted_commands <= 1
            &&& end.finished is None ==> end.accepted_commands == 0 || end.accepted_commands
                < start.state.budget()
        }),
    decreases keys.len(),
{
    if keys.len() > 0 {
        let before = played(SessionView::of_level(level, seed), keys.drop_last());
        no_game_exceeds_the_budget(level, seed, keys.drop_last());
        keys_keep_the_level(before, keys.last().0, keys.last().1);
        lemma_key_counts_once(before, keys.last().0, keys.last().1);
    }
}

/// Once a level has ended, its outcome stands.
pub proof fn an_outcome_stands(s: SessionView, keys: Seq<(KeyEvent, Duration)>)
    requires
        s.finished is Some,
    ensures
        played(s, keys) == s,
    decreases keys.len(),
{
    if keys.len() > 0 {
        an_outcome_stands(s, keys.drop_last());
    }
}

} // verus!

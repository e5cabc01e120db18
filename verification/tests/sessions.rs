use gamevim::catalog::Catalog;
use gamevim::command::{MotionKind, ParsedCommand};
use gamevim::key::{KeyCode, KeyEvent};
use gamevim::menu::App;
use gamevim::progress::Progress;
use gamevim::session::{GameSession, LevelOutcome, LevelResult, PlayState};
use gamevim::single::{launch_level, settle_level, settle_level_at, LaunchError};
use gamevim::time::Duration;

fn key(code: KeyCode) -> KeyEvent {
    KeyEvent { code, control: false }
}

fn start(id: &str) -> GameSession {
    GameSession::new(Catalog::new().level(id).unwrap(), 7)
}

fn soon() -> Duration {
    Duration::from_millis(10)
}

fn press(session: &mut GameSession, keys: &str) {
    for ch in keys.chars() {
        assert!(session.key_fits(key(KeyCode::Char(ch))));
        session.on_key_at(key(KeyCode::Char(ch)), soon());
    }
}

#[test]
fn a_session_starts_with_its_level() {
    let session = start("2-1");
    assert_eq!(session.level.id, "2-1");
    assert_eq!(session.commands.lesson, 2);
    assert_eq!(session.input, "");
    assert_eq!(session.accepted_commands, 0);
    assert_eq!(session.message, "Deliver the patch. Type a Vim command; q quits the level.");
    assert!(session.finished.is_none());
    assert!(session.command_history.is_empty());
    assert!(session.moves_history.is_empty());
    assert!(matches!(session.state, PlayState::Token(_)));
}

#[test]
fn the_tutorial_is_cleared_with_two_counts() {
    let mut session = start("1-0");
    press(&mut session, "8k");
    assert_eq!(session.message, "8k moved 8 steps.");
    assert_eq!(session.accepted_commands, 1);
    assert_eq!(session.moves_history, vec![MotionKind::Up; 8]);
    press(&mut session, "20l");
    let outcome = session.finished.clone().unwrap();
    assert_eq!(outcome.result, LevelResult::Clear);
    assert_eq!(outcome.level_id, "1-0");
    assert_eq!(outcome.commands, 2);
    assert_eq!(outcome.elapsed, soon());
    assert_eq!(outcome.message, "Patch delivered through the hot floor.");
    assert!(outcome.hint.is_none());
    assert_eq!(session.command_history, vec!["8k", "20l"]);
    assert_eq!(
        outcome.summary("0.0"),
        "1-0: clear in 0.0s using 2 commands. Patch delivered through the hot floor."
    );
}

#[test]
fn an_ended_level_takes_no_more_keys() {
    let mut session = start("1-0");
    press(&mut session, "q");
    assert_eq!(session.finished.clone().unwrap().result, LevelResult::Quit);
    assert_eq!(session.message, "Back to the dispatch board.");
    press(&mut session, "8k");
    assert_eq!(session.accepted_commands, 0);
    assert_eq!(session.input, "");
}

#[test]
fn a_spent_budget_is_a_defeat_with_a_hint() {
    let mut session = start("1-0");
    for _ in 0..33 {
        press(&mut session, "l");
        press(&mut session, "h");
        if session.finished.is_some() {
            break;
        }
    }
    let outcome = session.finished.clone().unwrap();
    assert_eq!(outcome.result, LevelResult::Defeat);
    assert_eq!(outcome.commands, 34);
    assert_eq!(outcome.message, "Command budget spent.");
    assert!(outcome.hint.is_none());
    let mut session = start("1-0");
    while session.finished.is_none() {
        press(&mut session, "l");
    }
    let outcome = session.finished.clone().unwrap();
    assert_eq!(
        outcome.hint.clone().unwrap(),
        "You repeated `l` 34 times. Try `34l` as one command."
    );
    assert_eq!(
        outcome.summary("1.5"),
        "1-0: defeat in 1.5s using 34 commands. Command budget spent.\nHint: You repeated `l` 34 times. Try `34l` as one command."
    );
}

#[test]
fn the_last_command_can_still_clear() {
    let mut session = start("1-0");
    for _ in 0..16 {
        press(&mut session, "l");
        press(&mut session, "h");
    }
    press(&mut session, "8k");
    assert_eq!(session.accepted_commands, 33);
    press(&mut session, "20l");
    assert_eq!(session.finished.clone().unwrap().result, LevelResult::Clear);
    assert_eq!(session.accepted_commands, 34);
}

#[test]
fn refused_input_costs_no_command() {
    let mut session = start("1-0");
    press(&mut session, "3w");
    assert_eq!(session.input, "3w");
    session.on_key_at(key(KeyCode::Enter), soon());
    assert_eq!(session.input, "");
    assert_eq!(session.message, "`3w` is not in this lesson's command vocabulary");
    assert_eq!(session.accepted_commands, 0);
    assert!(session.command_history.is_empty());
    session.on_key_at(key(KeyCode::Enter), soon());
    assert_eq!(session.message, "`3w` is not in this lesson's command vocabulary");
}

#[test]
fn backspace_and_escape_edit_the_input() {
    let mut session = start("1-0");
    press(&mut session, "12");
    session.on_key_at(key(KeyCode::Backspace), soon());
    assert_eq!(session.input, "1");
    session.on_key_at(key(KeyCode::Backspace), soon());
    session.on_key_at(key(KeyCode::Backspace), soon());
    assert_eq!(session.input, "");
    press(&mut session, "4q");
    assert_eq!(session.input, "4q");
    session.on_key_at(key(KeyCode::Esc), soon());
    assert_eq!(session.input, "");
    assert_eq!(session.message, "Command buffer cleared.");
    session.on_key_at(key(KeyCode::Up), soon());
    session.on_key_at(key(KeyCode::Other), soon());
    assert!(session.finished.is_none());
    session.on_key_at(key(KeyCode::Esc), soon());
    assert_eq!(session.finished.clone().unwrap().result, LevelResult::Quit);
}

#[test]
fn control_c_interrupts() {
    let mut session = start("1-0");
    session.on_key_at(KeyEvent { code: KeyCode::Char('c'), control: true }, soon());
    let outcome = session.finished.clone().unwrap();
    assert_eq!(outcome.result, LevelResult::Quit);
    assert_eq!(outcome.message, "Interrupted.");
    let mut edit = start("3-0");
    press(&mut edit, "i");
    edit.on_key_at(KeyEvent { code: KeyCode::Char('c'), control: true }, soon());
    assert_eq!(edit.finished.clone().unwrap().message, "Interrupted.");
}

#[test]
fn the_lava_catches_an_idle_player() {
    let mut session = start("1-2");
    session.check_limits_at(Duration::from_millis(3_399));
    assert!(session.finished.is_none());
    session.check_limits_at(Duration::from_millis(3_400));
    assert!(session.finished.is_none());
    session.check_limits_at(Duration::from_millis(6_800));
    let outcome = session.finished.clone().unwrap();
    assert_eq!(outcome.result, LevelResult::Defeat);
    assert_eq!(outcome.message, "The timed lava front caught the courier.");
    assert_eq!(
        outcome.hint.unwrap(),
        "Lava rises by real time now. Pre-plan long motions like `6k` or `8l` instead of waiting between single steps."
    );
    assert_eq!(outcome.elapsed, Duration::from_millis(6_800));
}

#[test]
fn walking_into_the_lava_is_a_defeat() {
    let mut session = start("1-2");
    if let PlayState::Grid(grid) = &mut session.state {
        grid.lava_rows = 5;
    }
    session.apply_command_at(ParsedCommand::Motion(MotionKind::Left, 1), soon());
    let outcome = session.finished.clone().unwrap();
    assert_eq!(outcome.result, LevelResult::Defeat);
    assert_eq!(outcome.message, "The lava reached your boots.");
}

#[test]
fn word_rails_are_ridden_to_the_end() {
    let mut session = start("2-0");
    press(&mut session, "4l");
    assert_eq!(session.message, "4l moved 4 steps. Target 2/5.");
    press(&mut session, "14l");
    assert_eq!(session.message, "14l moved 14 steps. Target 3/5.");
    press(&mut session, "9l");
    assert_eq!(session.message, "9l moved 9 steps. Target 3/5.");
    press(&mut session, "l");
    assert_eq!(session.message, "l moved once. Target 4/5.");
    press(&mut session, "j16h");
    assert_eq!(session.message, "16h moved 16 steps. Target 5/5.");
    press(&mut session, "j12h");
    let outcome = session.finished.clone().unwrap();
    assert_eq!(outcome.result, LevelResult::Clear);
    assert_eq!(outcome.message, "You rode the word rails cleanly.");
    assert_eq!(outcome.commands, 8);
}

#[test]
fn token_levels_run_out_of_time_and_commands() {
    let mut session = start("2-3");
    session.check_limits_at(Duration::from_millis(74_999));
    assert!(session.finished.is_none());
    session.check_limits_at(Duration::from_millis(75_000));
    assert_eq!(
        session.finished.clone().unwrap().message,
        "The trace cooled before you arrived."
    );
    let mut session = start("2-0");
    while session.finished.is_none() {
        press(&mut session, "h");
    }
    let outcome = session.finished.clone().unwrap();
    assert_eq!(outcome.message, "Command budget spent.");
    assert_eq!(outcome.commands, 18);
    assert_eq!(
        outcome.hint.unwrap(),
        "You crossed token text with h/l. Try `w`, `e`, `b`, or `ge` for code-token jumps."
    );
}

#[test]
fn the_undo_lab_is_cleared_with_replacements() {
    let mut session = start("3-3");
    press(&mut session, "rr");
    assert_eq!(session.message, "Replaced one character with r.");
    press(&mut session, "lrilrglrhl");
    assert!(session.finished.is_none());
    press(&mut session, "rt");
    let outcome = session.finished.clone().unwrap();
    assert_eq!(outcome.result, LevelResult::Clear);
    assert_eq!(outcome.message, "The patch compiles in the bay.");
    assert_eq!(outcome.commands, 9);
}

#[test]
fn insert_mode_takes_keys_as_text() {
    let mut session = start("3-3");
    press(&mut session, "cw");
    assert_eq!(session.message, "-- CHANGE WORD --");
    assert!(session.takes_text());
    press(&mut session, "riq");
    session.on_key_at(key(KeyCode::Backspace), soon());
    session.on_key_at(key(KeyCode::Enter), soon());
    press(&mut session, "ght");
    assert_eq!(session.accepted_commands, 8);
    assert_eq!(session.command_history.len(), 8);
    assert_eq!(session.command_history[7], "insert-char");
    session.on_key_at(key(KeyCode::Esc), soon());
    assert_eq!(session.message, "Normal mode.");
    assert!(!session.takes_text());
    if let PlayState::Edit(edit) = &session.state {
        assert_eq!(edit.lines, edit.expected);
        assert_eq!(edit.cursor.x, 18);
    }
    assert!(session.finished.is_none());
    press(&mut session, "u");
    assert_eq!(session.message, "Undo restored the previous buffer.");
    if let PlayState::Edit(edit) = &session.state {
        assert_eq!(edit.lines[0], "let target = \"wrong\";");
    }
    press(&mut session, "u");
    assert_eq!(session.message, "Nothing to undo yet.");
}

#[test]
fn edit_commands_report_themselves() {
    let mut session = start("3-0");
    press(&mut session, "x");
    assert_eq!(session.message, "Deleted one character with x.");
    press(&mut session, "dw");
    assert_eq!(session.message, "Deleted a word with dw.");
    press(&mut session, "dd");
    assert_eq!(session.message, "Deleted a line with dd.");
    press(&mut session, "2j");
    assert_eq!(session.message, "2j moved 2 steps.");
    press(&mut session, "a");
    assert_eq!(session.message, "-- INSERT --");
    session.on_key_at(key(KeyCode::Esc), soon());
    press(&mut session, "i");
    assert_eq!(session.message, "-- INSERT --");
    assert_eq!(session.accepted_commands, 6);
}

#[test]
fn edits_belong_to_edit_levels() {
    let mut session = start("1-0");
    session.apply_command_at(ParsedCommand::DeleteLine, soon());
    assert_eq!(session.message, "That edit command belongs in Code Surgery levels.");
    session.apply_command_at(ParsedCommand::Escape, soon());
    assert_eq!(session.message, "That edit command belongs in Code Surgery levels.");
    session.handle_insert_key_at(key(KeyCode::Char('x')), soon());
    assert_eq!(session.accepted_commands, 0);
}

#[test]
fn edit_levels_run_out_of_time_and_commands() {
    let mut session = start("3-2");
    session.check_limits_at(Duration::from_millis(180_000));
    let outcome = session.finished.clone().unwrap();
    assert_eq!(outcome.message, "Build bay timer expired.");
    assert_eq!(
        outcome.hint.unwrap(),
        "Compare the buffer to the target: `x`, `r<char>`, `dw`, `cw`, `dd`, and `u` are available here."
    );
    let mut session = start("3-3");
    press(&mut session, "i");
    while session.finished.is_none() {
        press(&mut session, "z");
    }
    let outcome = session.finished.clone().unwrap();
    assert_eq!(outcome.message, "Command budget spent before the patch matched.");
    assert_eq!(outcome.commands, 38);
}

#[test]
fn the_clock_runs_behind_a_session() {
    let mut session = start("1-2");
    let first = session.elapsed();
    assert!(first.secs < 60);
    session.update_timed_hazards();
    session.check_limits();
    session.check_edit_clear();
    assert!(session.finished.is_none());
    session.on_key(key(KeyCode::Char('k')));
    assert_eq!(session.accepted_commands, 1);
    session.input = "2k".to_string();
    session.execute_buffer();
    assert_eq!(session.accepted_commands, 2);
    session.apply_command(ParsedCommand::Motion(MotionKind::Down, 1));
    assert_eq!(session.moves_history.len(), 4);
    session.finish(LevelResult::Quit, "Done.".to_string());
    let outcome = session.finished.clone().unwrap();
    assert!(outcome.elapsed.as_millis() >= first.as_millis());
    assert_eq!(outcome.message, "Done.");
    assert_eq!(outcome.commands, 2);
    let mut edit = start("3-3");
    edit.handle_insert_key(key(KeyCode::Char('z')));
    assert_eq!(edit.command_history, vec!["insert-char"]);
}

#[test]
fn too_long_a_history_is_refused_ahead() {
    let mut session = start("1-0");
    for ch in "99999999999999999999".chars() {
        session.on_key_at(key(KeyCode::Char(ch)), soon());
    }
    assert!(!session.key_fits(key(KeyCode::Char('l'))));
    assert!(session.key_fits(key(KeyCode::Backspace)));
    assert!(session.key_fits(key(KeyCode::Enter)));
}

#[test]
fn only_unlocked_levels_are_launched() {
    let catalog = Catalog::new();
    let mut progress = Progress::new();
    match launch_level(&catalog, &progress, "9-9", 7) {
        Err(LaunchError::UnknownLevel(id)) => {
            assert_eq!(id, "9-9");
            assert_eq!(LaunchError::UnknownLevel(id).message(), "unknown level `9-9`");
        }
        _ => panic!("expected an unknown level"),
    }
    match launch_level(&catalog, &progress, "2-1", 7) {
        Err(error) => {
            assert!(matches!(error, LaunchError::Locked(_)));
            assert_eq!(error.message(), "level `2-1` is locked");
        }
        _ => panic!("expected a locked level"),
    }
    progress.record_clear("1-2", soon(), 3);
    assert!(launch_level(&catalog, &progress, "2-1", 7).is_ok());
}

#[test]
fn a_clear_is_recorded_and_a_quit_is_not() {
    let catalog = Catalog::new();
    let mut progress = Progress::new();
    let mut session = launch_level(&catalog, &progress, "1-0", 7).unwrap();
    let outcome: LevelOutcome = settle_level_at(&mut session, &mut progress, soon());
    assert_eq!(outcome.result, LevelResult::Quit);
    assert_eq!(outcome.message, "Level closed.");
    assert_eq!(outcome.elapsed, soon());
    assert!(outcome.hint.is_none());
    assert!(!progress.is_cleared("1-0"));
    press(&mut session, "8k20l");
    let outcome = settle_level(&mut session, &mut progress);
    assert_eq!(outcome.result, LevelResult::Clear);
    assert!(progress.is_cleared("1-0"));
    assert_eq!(progress.level("1-0").unwrap().best_commands, Some(2));
    assert_eq!(progress.level("1-0").unwrap().best_time_ms, Some(10));
    assert!(session.finished.is_none());
}

#[test]
fn elapsed_time_is_that_of_the_clock() {
    let catalog = Catalog::new();
    let outer = std::time::Instant::now();
    let mut app = App::new(catalog, Progress::new(), 7);
    app.handle_key(key(KeyCode::Enter));
    let session = start("1-0");
    let inner = std::time::Instant::now();
    while inner.elapsed().as_millis() < 25 {}
    let least = inner.elapsed().as_millis();
    let of_session = session.elapsed();
    let of_app = app.elapsed();
    let most = outer.elapsed().as_millis();
    assert!(least >= 25);
    assert!(least <= of_session.as_millis() && of_session.as_millis() <= most);
    assert!(least <= of_app.as_millis() && of_app.as_millis() <= most);
    assert!(of_session.nanos < 1_000_000_000);
    assert!(of_app.nanos < 1_000_000_000);
}

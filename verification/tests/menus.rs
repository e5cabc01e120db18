use gamevim::catalog::Catalog;
use gamevim::key::{KeyCode, KeyEvent};
use gamevim::menu::{App, Screen};
use gamevim::progress::{LevelProgress, Progress};
use gamevim::session::LevelResult;
use gamevim::time::Duration;

fn key(code: KeyCode) -> KeyEvent {
    KeyEvent { code, control: false }
}

fn letter(ch: char) -> KeyEvent {
    key(KeyCode::Char(ch))
}

fn open() -> App {
    App::new(Catalog::new(), Progress::new(), 7)
}

#[test]
fn unlocks_lessons_from_required_intermediate_clears() {
    let mut progress = Progress::new();
    assert!(progress.is_unlocked("1-3"));
    assert!(!progress.is_unlocked("2-0"));
    progress.record_clear("1-2", Duration::from_millis(10), 5);
    assert!(progress.is_unlocked("2-0"));
    assert!(!progress.is_unlocked("3-0"));
    progress.record_clear("2-2", Duration::from_millis(10), 5);
    assert!(progress.is_unlocked("3-0"));
}

#[test]
fn new_players_have_nothing_but_settings() {
    let progress = Progress::new();
    assert!(progress.levels.is_empty());
    assert!(progress.last_played.is_none());
    assert!(progress.color_intense);
    assert!(progress.menu_arrows);
    let plain = Progress::default();
    assert!(!plain.color_intense);
    assert!(!plain.menu_arrows);
    assert!(!progress.is_unlocked("4-0"));
    assert!(!progress.is_unlocked(""));
    assert!(!progress.is_cleared("1-0"));
}

#[test]
fn the_best_of_all_clears_is_kept() {
    let mut progress = Progress::new();
    progress.record_clear("1-1", Duration::from_millis(900), 8);
    progress.record_clear("1-1", Duration::from_millis(1_200), 6);
    progress.record_clear("1-0", Duration::from_millis(5), 50);
    progress.record_clear("1-1", Duration::from_millis(1_000), 7);
    assert_eq!(
        progress.level("1-1"),
        Some(LevelProgress { cleared: true, best_time_ms: Some(900), best_commands: Some(6) })
    );
    assert_eq!(progress.level("1-0").unwrap().best_commands, Some(50));
    assert_eq!(progress.level("1-3"), None);
    assert_eq!(progress.levels.len(), 2);
    assert_eq!(progress.last_played.as_deref(), Some("1-1"));
}

#[test]
fn the_catalogue_finds_its_levels() {
    let catalog = Catalog::new();
    let ids: Vec<String> = catalog.all_levels().iter().map(|level| level.id.clone()).collect();
    assert_eq!(
        ids,
        vec!["1-0", "1-1", "1-2", "1-3", "2-0", "2-1", "2-2", "2-3", "3-0", "3-1", "3-2", "3-3"]
    );
    for id in &ids {
        assert_eq!(catalog.level(id).unwrap().id, *id);
    }
    assert!(catalog.level("1-4").is_none());
    let required: Vec<&str> = catalog
        .all_levels()
        .iter()
        .filter(|level| level.required_to_unlock_next)
        .map(|level| level.title)
        .collect();
    assert_eq!(required, vec!["Rising Lava Vault", "Refactor Route", "Broken Build Bay"]);
    assert_eq!(catalog.clone().all_levels().len(), 12);
}

#[test]
fn the_first_open_level_is_recommended() {
    let catalog = Catalog::new();
    let mut progress = Progress::new();
    assert_eq!(catalog.next_recommended(&progress).unwrap().id, "1-0");
    progress.record_clear("1-0", Duration::from_millis(1), 1);
    assert_eq!(catalog.next_recommended(&progress).unwrap().id, "1-1");
    progress.record_clear("1-1", Duration::from_millis(1), 1);
    progress.record_clear("1-3", Duration::from_millis(1), 1);
    assert_eq!(catalog.next_recommended(&progress).unwrap().id, "1-2");
    progress.record_clear("1-2", Duration::from_millis(1), 1);
    assert_eq!(catalog.next_recommended(&progress).unwrap().id, "2-0");
    for level in catalog.all_levels() {
        progress.record_clear(&level.id, Duration::from_millis(1), 1);
    }
    assert_eq!(catalog.next_recommended(&progress).unwrap().id, "1-0");
}

#[test]
fn the_home_screen_opens_every_other() {
    let screens = [Screen::Lessons, Screen::Help, Screen::Practice, Screen::Settings];
    for (i, screen) in screens.iter().enumerate() {
        let mut app = open();
        for _ in 0..=i {
            assert!(!app.handle_key(letter('j')));
        }
        assert!(!app.handle_key(key(KeyCode::Enter)));
        assert_eq!(app.screen, *screen);
    }
    let mut app = open();
    app.handle_key(key(KeyCode::Enter));
    assert_eq!(app.screen, Screen::Level);
    assert_eq!(app.session.as_ref().unwrap().level.id, "1-0");
    assert_eq!(app.progress.last_played.as_deref(), Some("1-0"));
}

#[test]
fn selections_go_round() {
    let mut app = open();
    app.handle_key(letter('k'));
    assert_eq!(app.selected_home, 4);
    app.handle_key(letter('j'));
    assert_eq!(app.selected_home, 0);
    app.screen = Screen::Lessons;
    app.select_previous();
    assert_eq!(app.selected_level, 11);
    app.select_next();
    assert_eq!(app.selected_level, 0);
    app.select_next();
    app.select_next();
    app.select_previous();
    assert_eq!(app.selected_level, 1);
    app.screen = Screen::Help;
    app.select_next();
    app.select_previous();
    app.activate();
    assert_eq!(app.selected_level, 1);
    assert_eq!(app.screen, Screen::Help);
}

#[test]
fn arrow_keys_can_be_switched_off_and_letters_cannot() {
    let mut app = open();
    app.handle_key(key(KeyCode::Down));
    assert_eq!(app.selected_home, 1);
    app.progress.menu_arrows = false;
    app.handle_key(key(KeyCode::Down));
    app.handle_key(key(KeyCode::Up));
    assert_eq!(app.selected_home, 1);
    app.handle_key(letter('j'));
    assert_eq!(app.selected_home, 2);
    app.handle_key(letter('k'));
    assert_eq!(app.selected_home, 1);
}

#[test]
fn letters_lead_from_screen_to_screen() {
    let mut app = open();
    for (ch, screen) in [
        ('l', Screen::Lessons),
        ('p', Screen::Practice),
        ('s', Screen::Settings),
        ('H', Screen::Help),
        ('h', Screen::Home),
    ] {
        assert!(!app.handle_key(letter(ch)));
        assert_eq!(app.screen, screen);
        assert!(!app.handle_key(letter('z')));
        assert!(!app.handle_key(key(KeyCode::Backspace)));
        assert_eq!(app.screen, screen);
        assert!(app.handle_key(letter('q')));
        assert!(app.handle_key(key(KeyCode::Esc)));
    }
}

#[test]
fn settings_are_toggled_and_reset() {
    let mut app = open();
    app.progress.record_clear("1-2", Duration::from_millis(1), 1);
    app.handle_key(letter('c'));
    app.handle_key(letter('a'));
    app.handle_key(letter('r'));
    assert!(app.progress.color_intense);
    assert!(app.progress.is_cleared("1-2"));
    app.handle_key(letter('s'));
    app.handle_key(letter('c'));
    assert!(!app.progress.color_intense);
    app.handle_key(letter('a'));
    assert!(!app.progress.menu_arrows);
    app.handle_key(letter('a'));
    assert!(app.progress.menu_arrows);
    app.handle_key(letter('r'));
    assert!(app.progress.color_intense);
    assert!(!app.progress.is_cleared("1-2"));
    assert_eq!(app.banner, "Progress reset locally. It will save when you quit.");
}

#[test]
fn locked_levels_do_not_start() {
    let mut app = open();
    app.handle_key(letter('p'));
    for _ in 0..4 {
        app.handle_key(letter('j'));
    }
    app.handle_key(key(KeyCode::Enter));
    assert_eq!(app.screen, Screen::Practice);
    assert!(app.session.is_none());
    assert_eq!(app.banner, "2-0 is locked. Clear the previous x-2 courier route first.");
    app.handle_key(letter('k'));
    app.handle_key(key(KeyCode::Enter));
    assert_eq!(app.screen, Screen::Level);
    assert_eq!(app.session.as_ref().unwrap().level.id, "1-3");
}

#[test]
fn a_played_level_comes_back_to_the_lessons() {
    let mut app = open();
    assert_eq!(app.banner, "Patch Courier dispatch is online.");
    assert!(app.check_session().is_none());
    assert_eq!(app.elapsed(), Duration { secs: 0, nanos: 0 });
    app.handle_key(key(KeyCode::Enter));
    for ch in "8k20l".chars() {
        assert!(app.key_fits(letter(ch)));
        assert!(!app.handle_key_at(letter(ch), Duration::from_millis(1_500)));
        assert_eq!(app.screen, Screen::Level);
    }
    let outcome = app.check_session_at(Duration::from_millis(1_600)).unwrap();
    assert_eq!(outcome.result, LevelResult::Clear);
    assert_eq!(outcome.elapsed, Duration::from_millis(1_500));
    app.close_session(&outcome, "1.5");
    assert_eq!(
        app.banner,
        "1-0: clear in 1.5s using 2 commands. Patch delivered through the hot floor."
    );
    assert_eq!(app.screen, Screen::Lessons);
    assert!(app.session.is_none());
    assert_eq!(app.progress.level("1-0").unwrap().best_time_ms, Some(1_500));
}

#[test]
fn a_lost_level_is_not_recorded() {
    let mut app = open();
    app.handle_key(key(KeyCode::Enter));
    assert!(!app.handle_key(letter('q')));
    let outcome = app.check_session().unwrap();
    assert_eq!(outcome.result, LevelResult::Quit);
    app.close_session(&outcome, "0.0");
    assert!(!app.progress.is_cleared("1-0"));
    assert_eq!(app.banner, "1-0: quit in 0.0s using 0 commands. Back to the dispatch board.");
}

#[test]
fn a_level_can_be_started_directly() {
    let mut app = open();
    let level = Catalog::new().level("3-1").unwrap().clone();
    app.start_level(&level);
    assert_eq!(app.screen, Screen::Level);
    assert_eq!(app.session.as_ref().unwrap().commands.lesson, 3);
}

#[test]
fn the_order_of_clears_makes_no_difference() {
    let clears = [("1-0", 700, 9), ("1-1", 500, 4), ("1-0", 900, 3), ("1-1", 100, 8)];
    let mut forth = Progress::new();
    let mut back = Progress::new();
    for (id, ms, commands) in clears {
        forth.record_clear(id, Duration::from_millis(ms), commands);
    }
    for (id, ms, commands) in clears.iter().rev() {
        back.record_clear(id, Duration::from_millis(*ms), *commands);
    }
    for id in ["1-0", "1-1", "1-2"] {
        assert_eq!(forth.level(id), back.level(id));
    }
    assert_eq!(
        forth.level("1-0"),
        Some(LevelProgress { cleared: true, best_time_ms: Some(700), best_commands: Some(3) })
    );
}

#[test]
fn lessons_and_levels_share_a_vocabulary() {
    let catalog = Catalog::new();
    for (i, lesson) in catalog.lessons.iter().enumerate() {
        assert_eq!(lesson.number as usize, i + 1);
        assert_eq!(lesson.commands.lesson, lesson.number);
        assert_eq!(lesson.levels.len(), 4);
        assert!(lesson.levels.iter().all(|level| level.lesson == lesson.number));
    }
    assert_eq!(catalog.lessons[2].title, "Code Surgery: Basic Editing");
}

#[test]
fn keys_and_checks_do_not_restart_the_clock() {
    let mut app = open();
    app.handle_key(key(KeyCode::Enter));
    let begun = app.session.as_ref().unwrap().start;
    app.handle_key(letter('k'));
    app.handle_key_at(letter('l'), Duration::from_millis(3));
    assert!(app.check_session().is_none());
    assert!(app.check_session_at(Duration::from_millis(4)).is_none());
    assert_eq!(app.session.as_ref().unwrap().start, begun);
}

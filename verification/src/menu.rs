//! The menus around the levels: what is selected, and what each key does.

use crate::catalog;
use crate::catalog::{Catalog, CatalogView};
use crate::key::{KeyCode, KeyEvent};
use crate::level::{Level, LevelView};
use crate::progress::{Progress, ProgressView};
use crate::session;
use crate::session::{GameSession, LevelOutcome, LevelResult, OutcomeView, SessionView};
use crate::time::Duration;
use vstd::prelude::*;

verus! {

/// How many entries the home screen has.
pub const HOME_ENTRIES: usize = 5;

/// The screens.
#[derive(Debug, Clone, Copy, PartialEq, Eq, Structural)]
pub enum Screen {
    Home,
    Lessons,
    Help,
    Practice,
    Settings,
    Level,
}

impl Screen {
    /// The screen lists the levels.
    pub open spec fn lists_levels(self) -> bool {
        self == Screen::Lessons || self == Screen::Practice
    }
}

/// The whole game.
#[derive(Debug)]
pub struct App {
    pub catalog: Catalog,
    pub progress: Progress,
    pub screen: Screen,
    pub selected_home: usize,
    pub selected_level: usize,
    pub seed: u64,
    pub session: Option<GameSession>,
    pub banner: String,
}

/// What an [`App`] holds.
#[verifier::ext_equal]
pub struct AppView {
    pub catalog: CatalogView,
    pub progress: ProgressView,
    pub screen: Screen,
    pub selected_home: usize,
    pub selected_level: usize,
    pub seed: u64,
    pub session: Option<SessionView>,
    pub banner: Seq<char>,
}

/// What an optional session holds.
pub open spec fn session_view(session: Option<GameSession>) -> Option<SessionView> {
    match session {
        Some(session) => Some(session@),
        None => None,
    }
}

/// A level that is still being played afterwards has been played since the same moment.
pub open spec fn same_start(before: Option<GameSession>, after: Option<GameSession>) -> bool {
    before matches Some(before) ==> (after matches Some(after) ==> after.start == before.start)
}

impl View for App {
    type V = AppView;

    open spec fn view(&self) -> AppView {
        AppView {
            catalog: self.catalog@,
            progress: self.progress@,
            screen: self.screen,
            selected_home: self.selected_home,
            selected_level: self.selected_level,
            seed: self.seed,
            session: session_view(self.session),
            banner: self.banner@,
        }
    }
}

impl AppView {
    /// The game when it opens.
    pub open spec fn opened(catalog: CatalogView, progress: ProgressView, seed: u64) -> AppView {
        AppView {
            catalog,
            progress,
            screen: Screen::Home,
            selected_home: 0,
            selected_level: 0,
            seed,
            session: None,
            banner: "Patch Courier dispatch is online."@,
        }
    }

    /// What is selected is there, and a level is being played if and only if its
    /// screen is shown.
    pub open spec fn wf(self) -> bool {
        &&& self.catalog.wf()
        &&& self.selected_home < HOME_ENTRIES
        &&& self.selected_level < self.catalog.levels().len()
        &&& self.screen == Screen::Level <==> self.session is Some
        &&& self.session matches Some(session) ==> session.wf()
    }

    /// Another screen is shown.
    pub open spec fn showing(self, screen: Screen) -> AppView {
        AppView { screen, ..self }
    }

    /// The entry below is selected, or the first one after the last.
    pub open spec fn next_selected(self) -> AppView {
        if self.screen == Screen::Home {
            AppView { selected_home: ((self.selected_home + 1) % 5) as usize, ..self }
        } else if self.screen.lists_levels() {
            AppView {
                selected_level: ((self.selected_level + 1) % self.catalog.levels().len() as int)
                    as usize,
                ..self
            }
        } else {
            self
        }
    }

    /// The entry above is selected, or the last one before the first.
    pub open spec fn previous_selected(self) -> AppView {
        if self.screen == Screen::Home {
            AppView { selected_home: ((self.selected_home + 4) % 5) as usize, ..self }
        } else if self.screen.lists_levels() {
            AppView {
                selected_level: ((self.selected_level + self.catalog.levels().len() - 1)
                    % self.catalog.levels().len() as int) as usize,
                ..self
            }
        } else {
            self
        }
    }

    /// A level is being played.
    pub open spec fn started(self, level: LevelView) -> AppView {
        AppView {
            progress: ProgressView { last_played: Some(level.id), ..self.progress },
            session: Some(SessionView::of_level(level, self.seed)),
            screen: Screen::Level,
            ..self
        }
    }

    /// What is selected has been chosen.
    pub open spec fn activated(self) -> AppView {
        if self.screen == Screen::Home {
            if self.selected_home == 0 {
                match self.catalog.recommended(self.progress) {
                    Some(level) => self.started(level),
                    None => self,
                }
            } else if self.selected_home == 1 {
                self.showing(Screen::Lessons)
            } else if self.selected_home == 2 {
                self.showing(Screen::Help)
            } else if self.selected_home == 3 {
                self.showing(Screen::Practice)
            } else if self.selected_home == 4 {
                self.showing(Screen::Settings)
            } else {
                self
            }
        } else if self.screen.lists_levels() {
            if self.selected_level < self.catalog.levels().len() {
                let level = self.catalog.levels()[self.selected_level as int];
                if self.progress.unlocked(level.id) {
                    self.started(level)
                } else {
                    AppView {
                        banner: level.id
                            + " is locked. Clear the previous x-2 courier route first."@,
                        ..self
                    }
                }
            } else {
                self
            }
        } else {
            self
        }
    }

    /// The key leaves the game.
    pub open spec fn quits(self, key: KeyEvent) -> bool {
        self.screen != Screen::Level && (key.code == KeyCode::Esc || key.code == KeyCode::Char(
            'q',
        ))
    }

    /// A key has been pressed in a menu.
    pub open spec fn menu_key(self, key: KeyEvent) -> AppView {
        match key.code {
            KeyCode::Down if self.progress.menu_arrows => self.next_selected(),
            KeyCode::Up if self.progress.menu_arrows => self.previous_selected(),
            KeyCode::Enter => self.activated(),
            KeyCode::Char(ch) => if ch == 'h' {
                self.showing(Screen::Home)
            } else if ch == 'H' {
                self.showing(Screen::Help)
            } else if ch == 'l' {
                self.showing(Screen::Lessons)
            } else if ch == 'p' {
                self.showing(Screen::Practice)
            } else if ch == 's' {
                self.showing(Screen::Settings)
            } else if ch == 'j' {
                self.next_selected()
            } else if ch == 'k' {
                self.previous_selected()
            } else if self.screen == Screen::Settings {
                self.settings_key(ch)
            } else {
                self
            },
            _ => self,
        }
    }

    /// A letter has been pressed in the settings.
    pub open spec fn settings_key(self, ch: char) -> AppView {
        if ch == 'r' {
            AppView {
                progress: ProgressView {
                    levels: Map::empty(),
                    last_played: None,
                    color_intense: true,
                    menu_arrows: true,
                },
                banner: "Progress reset locally. It will save when you quit."@,
                ..self
            }
        } else if ch == 'c' {
            AppView {
                progress: ProgressView {
                    color_intense: !self.progress.color_intense,
                    ..self.progress
                },
                ..self
            }
        } else if ch == 'a' {
            AppView {
                progress: ProgressView {
                    menu_arrows: !self.progress.menu_arrows,
                    ..self.progress
                },
                ..self
            }
        } else {
            self
        }
    }

    /// A key has been pressed, `now` after the start of the level being played.
    pub open spec fn key_handled(self, key: KeyEvent, now: Duration) -> AppView {
        if self.screen != Screen::Level {
            self.menu_key(key)
        } else {
            match self.session {
                Some(session) => AppView {
                    session: Some(session.key_pressed(key, now)),
                    ..self
                },
                None => self,
            }
        }
    }

    /// There is room for what the key adds to the histories of a level.
    pub open spec fn has_room_for_key(self, key: KeyEvent) -> bool {
        self.screen == Screen::Level ==> (self.session matches Some(session)
            ==> session.has_room_for_key(key))
    }

    /// The limits of the level being played have been checked.
    pub open spec fn session_checked(self, now: Duration) -> AppView {
        AppView {
            session: match self.session {
                Some(session) => Some(session.limits_checked(now)),
                None => None,
            },
            ..self
        }
    }

    /// The level being played has ended.
    pub open spec fn closed(self, outcome: OutcomeView, seconds: Seq<char>) -> AppView {
        AppView {
            progress: if outcome.result == LevelResult::Clear {
                self.progress.recorded(
                    outcome.level_id,
                    outcome.elapsed.millis() as u128,
                    outcome.commands,
                )
            } else {
                self.progress
            },
            banner: outcome.summary_text(seconds),
            session: None,
            screen: Screen::Lessons,
            ..self
        }
    }
}

impl App {
    /// Opens the game.
    pub fn new(catalog: Catalog, progress: Progress, seed: u64) -> (app: Self)
        ensures
            app@ == AppView::opened(catalog@, progress@, seed),
            catalog@.wf() ==> app@.wf(),
            progress.wf() ==> app.progress.wf(),
    {
        Self {
            catalog,
            progress,
            screen: Screen::Home,
            selected_home: 0,
            selected_level: 0,
            seed,
            session: None,
            banner: "Patch Courier dispatch is online.".to_string(),
        }
    }

    /// Selects the entry below.
    pub fn select_next(&mut self)
        requires
            old(self)@.wf(),
        ensures
            final(self)@ == old(self)@.next_selected(),
            final(self)@.wf(),
            old(self).progress.wf() ==> final(self).progress.wf(),
            same_start(old(self).session, final(self).session),
    {
        match self.screen {
            Screen::Home => {
                self.selected_home = (self.selected_home + 1) % 5;
            },
            Screen::Lessons | Screen::Practice => {
                let total: usize = self.count_levels();
                self.selected_level = (self.selected_level + 1) % total;
            },
            _ => {},
        }
        assert(self@ =~= old(self)@.next_selected());
    }

    /// Selects the entry above.
    pub fn select_previous(&mut self)
        requires
            old(self)@.wf(),
        ensures
            final(self)@ == old(self)@.previous_selected(),
            final(self)@.wf(),
            old(self).progress.wf() ==> final(self).progress.wf(),
            same_start(old(self).session, final(self).session),
    {
        match self.screen {
            Screen::Home => {
                self.selected_home = (self.selected_home + 4) % 5;
            },
            Screen::Lessons | Screen::Practice => {
                let total: usize = self.count_levels();
                proof {
                    lemma_step_back(self.selected_level as int, total as int);
                }
                self.selected_level = if self.selected_level == 0 {
                    total - 1
                } else {
                    self.selected_level - 1
                };
            },
            _ => {},
        }
        assert(self@ =~= old(self)@.previous_selected());
    }

    /// The number of levels.
    fn count_levels(&self) -> (total: usize)
        ensures
            total == self@.catalog.levels().len(),
    {
        let levels: Vec<&Level> = self.catalog.all_levels();
        assert(catalog::borrowed_view(levels@).len() == levels@.len());
        levels.len()
    }

    /// Chooses what is selected.
    pub fn activate(&mut self)
        requires
            old(self)@.wf(),
        ensures
            final(self)@ == old(self)@.activated(),
            final(self)@.wf(),
            old(self).progress.wf() ==> final(self).progress.wf(),
            same_start(old(self).session, final(self).session),
    {
        match self.screen {
            Screen::Home => {
                if self.selected_home == 0 {
                    proof {
                        catalog::recommended_is_playable(self@.catalog, self@.progress);
                    }
                    let level: Option<Level> = match self.catalog.next_recommended(&self.progress) {
                        Some(level) => Some(level.clone()),
                        None => None,
                    };
                    match level {
                        Some(level) => self.start_level(&level),
                        None => {},
                    }
                } else if self.selected_home == 1 {
                    self.screen = Screen::Lessons;
                } else if self.selected_home == 2 {
                    self.screen = Screen::Help;
                } else if self.selected_home == 3 {
                    self.screen = Screen::Practice;
                } else if self.selected_home == 4 {
                    self.screen = Screen::Settings;
                }
            },
            Screen::Lessons | Screen::Practice => {
                let level: Level = self.selected();
                if self.progress.is_unlocked(level.id.as_str()) {
                    self.start_level(&level);
                } else {
                    let mut banner: String = level.id.clone();
                    banner.append(" is locked. Clear the previous x-2 courier route first.");
                    self.banner = banner;
                }
            },
            _ => {},
        }
        assert(self@ =~= old(self)@.activated());
    }

    /// The level that is selected.
    fn selected(&self) -> (level: Level)
        requires
            self@.wf(),
        ensures
            level@ == self@.catalog.levels()[self.selected_level as int],
            level@.kind.wf(),
    {
        let levels: Vec<&Level> = self.catalog.all_levels();
        assert(catalog::borrowed_view(levels@).len() == levels@.len());
        assert(catalog::borrowed_view(levels@)[self.selected_level as int]
            == levels@[self.selected_level as int]@);
        levels[self.selected_level].clone()
    }

    /// Starts a level.
    pub fn start_level(&mut self, level: &Level)
        requires
            level@.kind.can_start(),
        ensures
            final(self)@ == old(self)@.started(level@),
            old(self)@.wf() && level@.kind.wf() ==> final(self)@.wf(),
            old(self).progress.wf() ==> final(self).progress.wf(),
    {
        self.progress.last_played = Some(level.id.clone());
        self.session = Some(GameSession::new(level, self.seed));
        self.screen = Screen::Level;
        assert(self@.progress =~= old(self)@.started(level@).progress);
        assert(self@ =~= old(self)@.started(level@));
    }

    /// Takes a key, `now` after the start of the level being played. Returns whether
    /// the key leaves the game.
    pub fn handle_key_at(&mut self, key: KeyEvent, now: Duration) -> (quit: bool)
        requires
            old(self)@.wf(),
            old(self)@.has_room_for_key(key),
        ensures
            quit == old(self)@.quits(key),
            final(self)@ == old(self)@.key_handled(key, now),
            final(self)@.wf(),
            old(self).progress.wf() ==> final(self).progress.wf(),
            same_start(old(self).session, final(self).session),
    {
        if self.screen == Screen::Level {
            match &mut self.session {
                Some(session) => session.on_key_at(key, now),
                None => {},
            }
            assert(self@ =~= old(self)@.key_handled(key, now));
            return false;
        }
        self.handle_menu_key(key)
    }

    /// Takes a key in a menu. Returns whether the key leaves the game.
    fn handle_menu_key(&mut self, key: KeyEvent) -> (quit: bool)
        requires
            old(self)@.wf(),
            old(self).screen != Screen::Level,
        ensures
            quit == old(self)@.quits(key),
            final(self)@ == old(self)@.menu_key(key),
            final(self)@.wf(),
            old(self).progress.wf() ==> final(self).progress.wf(),
            same_start(old(self).session, final(self).session),
    {
        match key.code {
            KeyCode::Esc => return true,
            KeyCode::Down => {
                if self.progress.menu_arrows {
                    self.select_next();
                }
            },
            KeyCode::Up => {
                if self.progress.menu_arrows {
                    self.select_previous();
                }
            },
            KeyCode::Enter => self.activate(),
            KeyCode::Char(ch) => match ch {
                'q' => return true,
                'h' => {
                    self.screen = Screen::Home;
                },
                'H' => {
                    self.screen = Screen::Help;
                },
                'l' => {
                    self.screen = Screen::Lessons;
                },
                'p' => {
                    self.screen = Screen::Practice;
                },
                's' => {
                    self.screen = Screen::Settings;
                },
                'j' => self.select_next(),
                'k' => self.select_previous(),
                _ => {
                    if self.screen == Screen::Settings {
                        self.change_setting(ch);
                    }
                },
            },
            _ => {},
        }
        assert(self@ =~= old(self)@.menu_key(key));
        false
    }

    /// Takes a letter in the settings.
    fn change_setting(&mut self, ch: char)
        ensures
            final(self)@ == old(self)@.settings_key(ch),
            old(self)@.wf() ==> final(self)@.wf(),
            old(self).progress.wf() ==> final(self).progress.wf(),
            same_start(old(self).session, final(self).session),
    {
        match ch {
            'r' => {
                self.progress = Progress::new();
                self.banner = "Progress reset locally. It will save when you quit.".to_string();
            },
            'c' => {
                self.progress.color_intense = !self.progress.color_intense;
            },
            'a' => {
                self.progress.menu_arrows = !self.progress.menu_arrows;
            },
            _ => {},
        }
        assert(self@.progress =~= old(self)@.settings_key(ch).progress);
        assert(self@ =~= old(self)@.settings_key(ch));
    }

    /// Takes a key, at the time that the clock shows. Returns whether the key leaves
    /// the game.
    pub fn handle_key(&mut self, key: KeyEvent) -> (quit: bool)
        requires
            old(self)@.wf(),
            old(self)@.has_room_for_key(key),
        ensures
            quit == old(self)@.quits(key),
            exists|now: Duration|
                now.wf() && final(self)@ == #[trigger] old(self)@.key_handled(key, now),
            final(self)@.wf(),
            old(self).progress.wf() ==> final(self).progress.wf(),
            same_start(old(self).session, final(self).session),
    {
        let now: Duration = self.elapsed();
        self.handle_key_at(key, now)
    }

    /// The time since the level being played started, by the clock; none where no
    /// level is being played.
    pub fn elapsed(&self) -> (elapsed: Duration)
        ensures
            elapsed.wf(),
            self.session is None ==> elapsed == (Duration { secs: 0, nanos: 0 }),
    {
        match &self.session {
            Some(session) => session.elapsed(),
            None => Duration { secs: 0, nanos: 0 },
        }
    }

    /// Whether there is room for what the key adds to the histories of a level.
    pub fn key_fits(&self, key: KeyEvent) -> (fits: bool)
        ensures
            fits == self@.has_room_for_key(key),
    {
        if self.screen == Screen::Level {
            match &self.session {
                Some(session) => session.key_fits(key),
                None => true,
            }
        } else {
            true
        }
    }

    /// Checks the limits of the level being played, `now` after its start. Returns the
    /// outcome if the level has ended.
    pub fn check_session_at(&mut self, now: Duration) -> (outcome: Option<LevelOutcome>)
        requires
            old(self)@.wf(),
        ensures
            final(self)@ == old(self)@.session_checked(now),
            final(self)@.wf(),
            session::outcome_view(outcome) == match final(self)@.session {
                Some(session) => session.finished,
                None => None,
            },
            old(self).progress.wf() ==> final(self).progress.wf(),
            same_start(old(self).session, final(self).session),
    {
        let outcome: Option<LevelOutcome> = match &mut self.session {
            Some(session) => {
                session.check_limits_at(now);
                match &session.finished {
                    Some(outcome) => Some(outcome.clone()),
                    None => None,
                }
            },
            None => None,
        };
        assert(self@ =~= old(self)@.session_checked(now));
        outcome
    }

    /// Checks the limits of the level being played, by the clock. Returns the outcome
    /// if the level has ended.
    pub fn check_session(&mut self) -> (outcome: Option<LevelOutcome>)
        requires
            old(self)@.wf(),
        ensures
            exists|now: Duration|
                now.wf() && final(self)@ == #[trigger] old(self)@.session_checked(now),
            final(self)@.wf(),
            session::outcome_view(outcome) == match final(self)@.session {
                Some(session) => session.finished,
                None => None,
            },
            old(self).progress.wf() ==> final(self).progress.wf(),
            same_start(old(self).session, final(self).session),
    {
        let now: Duration = self.elapsed();
        self.check_session_at(now)
    }

    /// Ends the level being played: records a clear, tells of the outcome and goes
    /// back to the lessons. `seconds` is the elapsed time written out in seconds.
    pub fn close_session(&mut self, outcome: &LevelOutcome, seconds: &str)
        ensures
            final(self)@ == old(self)@.closed(outcome@, seconds@),
            old(self)@.wf() ==> final(self)@.wf(),
            old(self).progress.wf() ==> final(self).progress.wf(),
    {
        if outcome.result == LevelResult::Clear {
            self.progress.record_clear(outcome.level_id.as_str(), outcome.elapsed, outcome.commands);
        }
        self.banner = outcome.summary(seconds);
        self.session = None;
        self.screen = Screen::Lessons;
        assert(self@ =~= old(self)@.closed(outcome@, seconds@));
    }
}

proof fn lemma_step_back(i: int, n: int)
    requires
        0 <= i < n,
    ensures
        (i + n - 1) % n == if i == 0 {
            n - 1
        } else {
            i - 1
        },
{
    if i == 0 {
        vstd::arithmetic::div_mod::lemma_small_mod((n - 1) as nat, n as nat);
    } else {
        vstd::arithmetic::div_mod::lemma_mod_add_multiples_vanish(i - 1, n);
        vstd::arithmetic::div_mod::lemma_small_mod((i - 1) as nat, n as nat);
    }
}

/// Selecting the entry below and then the one above, or the other way round, changes
/// nothing.
pub proof fn selecting_back_and_forth(app: AppView)
    requires
        app.wf(),
        app.catalog.levels().len() <= usize::MAX,
    ensures
        app.next_selected().previous_selected() == app,
        app.previous_selected().next_selected() == app,
{
    let n = app.catalog.levels().len() as int;
    let i = app.selected_level as int;
    lemma_step_back(i, n);
    lemma_step_forth(i, n);
    lemma_step_back(app.next_selected().selected_level as int, n);
    lemma_step_forth(app.previous_selected().selected_level as int, n);
}

proof fn lemma_step_forth(i: int, n: int)
    requires
        0 <= i < n,
    ensures
        (i + 1) % n == if i == n - 1 {
            0
        } else {
            i + 1
        },
{
    if i == n - 1 {
        vstd::arithmetic::div_mod::lemma_mod_self_0(n);
    } else {
        vstd::arithmetic::div_mod::lemma_small_mod((i + 1) as nat, n as nat);
    }
}

/// Only an unlocked level is ever started, and starting it forgets no progress.
pub proof fn only_unlocked_levels_start(app: AppView, key: KeyEvent, now: Duration)
    requires
        app.wf(),
        app.session is None,
    ensures
        app.key_handled(key, now).session matches Some(session) ==> {
            &&& app.catalog.levels().contains(session.level)
            &&& app.progress.unlocked(session.level.id)
            &&& session == SessionView::of_level(session.level, app.seed)
            &&& app.key_handled(key, now).progress.levels == app.progress.levels
        },
{
    catalog::recommended_is_playable(app.catalog, app.progress);
}

/// The letters `j` and `k` move the selection whatever the settings, and the arrow
/// keys do the same where they are enabled, and nothing elsewhere.
pub proof fn letters_always_select(app: AppView, control: bool)
    ensures
        app.menu_key(KeyEvent { code: KeyCode::Char('j'), control }) == app.next_selected(),
        app.menu_key(KeyEvent { code: KeyCode::Char('k'), control }) == app.previous_selected(),
        app.menu_key(KeyEvent { code: KeyCode::Down, control }) == if app.progress.menu_arrows {
            app.next_selected()
        } else {
            app
        },
        app.menu_key(KeyEvent { code: KeyCode::Up, control }) == if app.progress.menu_arrows {
            app.previous_selected()
        } else {
            app
        },
{
}

/// A toggle pressed twice is as it was.
pub proof fn toggles_toggle(app: AppView)
    ensures
        app.settings_key('c').settings_key('c') == app,
        app.settings_key('a').settings_key('a') == app,
{
}

/// While a level is being played, keys belong to it: none leaves the game, and none
/// changes anything but the level.
pub proof fn levels_keep_their_keys(app: AppView, key: KeyEvent, now: Duration)
    requires
        app.wf(),
        app.screen == Screen::Level,
    ensures
        !app.quits(key),
        app.session matches Some(session) && app.key_handled(key, now) == (AppView {
            session: Some(session.key_pressed(key, now)),
            ..app
        }),
{
}

/// Only a clear changes what is remembered of the levels, and it is remembered of the
/// level that was played.
pub proof fn only_clears_are_recorded(app: AppView, outcome: OutcomeView, seconds: Seq<char>)
    ensures
        outcome.result != LevelResult::Clear ==> app.closed(outcome, seconds).progress
            == app.progress,
        outcome.result == LevelResult::Clear ==> app.closed(outcome, seconds).progress.cleared(
            outcome.level_id,
        ),
{
}

/// The game opens on the home screen with its first entry selected and no level played.
pub proof fn the_game_opens_at_home(catalog: CatalogView, progress: ProgressView, seed: u64)
    ensures
        ({
            let app = AppView::opened(catalog, progress, seed);
            &&& app.catalog == catalog
            &&& app.progress == progress
            &&& app.seed == seed
            &&& app.screen == Screen::Home
            &&& app.selected_home == 0
            &&& app.selected_level == 0
            &&& app.session is None
            &&& app.banner == "Patch Courier dispatch is online."@
        }),
{
}

/// Selecting goes one entry down or up the list of the screen that is shown, round the ends:
/// five entries at home, the levels in the lessons and in practice, and nothing elsewhere.
pub proof fn selecting_goes_round(app: AppView)
    requires
        app.wf(),
        app.catalog.levels().len() <= usize::MAX,
    ensures
        ({
            let home = app.selected_home as int;
            let level = app.selected_level as int;
            let n = app.catalog.levels().len() as int;
            let down = app.next_selected();
            let up = app.previous_selected();
            &&& down == (AppView {
                selected_home: down.selected_home,
                selected_level: down.selected_level,
                ..app
            })
            &&& up == (AppView {
                selected_home: up.selected_home,
                selected_level: up.selected_level,
                ..app
            })
            &&& app.screen == Screen::Home ==> down.selected_level == level && up.selected_level
                == level && down.selected_home == (if home == 4 {
                0
            } else {
                home + 1
            }) && up.selected_home == (if home == 0 {
                4
            } else {
                home - 1
            })
            &&& app.screen == Screen::Lessons || app.screen == Screen::Practice
                ==> down.selected_home == home && up.selected_home == home && down.selected_level == (
            if level == n - 1 {
                0
            } else {
                level + 1
            }) && up.selected_level == (if level == 0 {
                n - 1
            } else {
                level - 1
            })
            &&& app.screen == Screen::Help || app.screen == Screen::Settings || app.screen
                == Screen::Level ==> down == app && up == app
        }),
{
    let n = app.catalog.levels().len() as int;
    lemma_step_back(app.selected_level as int, n);
    lemma_step_forth(app.selected_level as int, n);
}

/// Starting a level shows it, as the game's own seed lays it out, and notes it as the one last
/// played.
pub proof fn starting_shows_the_level(app: AppView, level: LevelView)
    ensures
        app.started(level) == (AppView {
            progress: ProgressView { last_played: Some(level.id), ..app.progress },
            session: Some(SessionView::of_level(level, app.seed)),
            screen: Screen::Level,
            ..app
        }),
{
}

/// Enter on the home screen plays the level to play next, or opens the screen of the entry; on
/// a list of levels it plays the selected one, or says that it is locked; elsewhere it does
/// nothing.
pub proof fn enter_opens_what_is_selected(app: AppView)
    requires
        app.wf(),
    ensures
        ({
            let after = app.activated();
            let level = app.catalog.levels()[app.selected_level as int];
            match app.screen {
                Screen::Home => {
                    &&& app.selected_home == 0 ==> match app.catalog.recommended(app.progress) {
                        Some(next) => after == app.started(next),
                        None => after == app,
                    }
                    &&& app.selected_home == 1 ==> after == (AppView { screen: Screen::Lessons, ..app })
                    &&& app.selected_home == 2 ==> after == (AppView { screen: Screen::Help, ..app })
                    &&& app.selected_home == 3 ==> after == (AppView { screen: Screen::Practice, ..app })
                    &&& app.selected_home == 4 ==> after == (AppView { screen: Screen::Settings, ..app })
                },
                Screen::Lessons | Screen::Practice => {
                    &&& app.progress.unlocked(level.id) ==> after == app.started(level)
                    &&& !app.progress.unlocked(level.id) ==> after == (AppView {
                        banner: level.id
                            + " is locked. Clear the previous x-2 courier route first."@,
                        ..app
                    })
                },
                _ => after == app,
            }
        }),
{
}

/// In the menus `h`, `H`, `l`, `p` and `s` show a screen, `j` and `k` select, Enter opens, `q`
/// and Esc leave the game, and in the settings `c` and `a` toggle and `r` starts progress anew.
/// Other keys do nothing.
pub proof fn menu_keys_do_this(app: AppView, key: KeyEvent, now: Duration)
    requires
        app.screen != Screen::Level,
    ensures
        app.quits(key) <==> key.code == KeyCode::Char('q') || key.code == KeyCode::Esc,
        ({
            let after = app.key_handled(key, now);
            match key.code {
                KeyCode::Char(ch) => {
                    &&& ch == 'h' ==> after == (AppView { screen: Screen::Home, ..app })
                    &&& ch == 'H' ==> after == (AppView { screen: Screen::Help, ..app })
                    &&& ch == 'l' ==> after == (AppView { screen: Screen::Lessons, ..app })
                    &&& ch == 'p' ==> after == (AppView { screen: Screen::Practice, ..app })
                    &&& ch == 's' ==> after == (AppView { screen: Screen::Settings, ..app })
                    &&& ch == 'j' ==> after == app.next_selected()
                    &&& ch == 'k' ==> after == app.previous_selected()
                    &&& ch == 'r' && app.screen == Screen::Settings ==> after == (AppView {
                        progress: ProgressView {
                            levels: Map::empty(),
                            last_played: None,
                            color_intense: true,
                            menu_arrows: true,
                        },
                        banner: "Progress reset locally. It will save when you quit."@,
                        ..app
                    })
                    &&& ch == 'c' && app.screen == Screen::Settings ==> after == (AppView {
                        progress: ProgressView {
                            color_intense: !app.progress.color_intense,
                            ..app.progress
                        },
                        ..app
                    })
                    &&& ch == 'a' && app.screen == Screen::Settings ==> after == (AppView {
                        progress: ProgressView {
                            menu_arrows: !app.progress.menu_arrows,
                            ..app.progress
                        },
                        ..app
                    })
                    &&& (ch == 'r' || ch == 'c' || ch == 'a') && app.screen != Screen::Settings
                        ==> after == app
                    &&& ch != 'h' && ch != 'H' && ch != 'l' && ch != 'p' && ch != 's' && ch != 'j'
                        && ch != 'k' && ch != 'r' && ch != 'c' && ch != 'a' ==> after == app
                },
                KeyCode::Down => after == if app.progress.menu_arrows {
                    app.next_selected()
                } else {
                    app
                },
                KeyCode::Up => after == if app.progress.menu_arrows {
                    app.previous_selected()
                } else {
                    app
                },
                KeyCode::Enter => after == app.activated(),
                _ => after == app,
            }
        }),
{
}

/// Checking a level that is being played checks its limits and changes nothing else; without
/// one nothing changes.
pub proof fn checks_touch_the_level_only(app: AppView, now: Duration)
    ensures
        app.session is None ==> app.session_checked(now) == app,
        app.session matches Some(session) ==> app.session_checked(now) == (AppView {
            session: Some(session.limits_checked(now)),
            ..app
        }),
{
}

/// A level that has ended leaves the lessons on the screen and its summary above them. A clear
/// is recorded for the level with its time and its commands; nothing else is.
pub proof fn ended_levels_lead_back(app: AppView, outcome: OutcomeView, seconds: Seq<char>)
    ensures
        ({
            let after = app.closed(outcome, seconds);
            &&& after == (AppView {
                progress: after.progress,
                banner: outcome.summary_text(seconds),
                session: None,
                screen: Screen::Lessons,
                ..app
            })
            &&& outcome.result == LevelResult::Clear ==> after.progress == app.progress.recorded(
                outcome.level_id,
                (outcome.elapsed.secs * 1000 + outcome.elapsed.nanos / 1_000_000) as u128,
                outcome.commands,
            )
            &&& outcome.result != LevelResult::Clear ==> after.progress == app.progress
        }),
{
}

/// Only a key that goes to a level can lack room, and it does so exactly if the level has
/// none for it.
pub proof fn only_a_level_can_lack_room(app: AppView, key: KeyEvent)
    ensures
        app.screen != Screen::Level || app.session is None ==> app.has_room_for_key(key),
        app.screen == Screen::Level ==> (app.session matches Some(session)
            ==> app.has_room_for_key(key) == session.has_room_for_key(key)),
{
}

} // verus!

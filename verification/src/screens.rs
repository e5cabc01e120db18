//! The texts of the screens.

use crate::catalog;
use crate::catalog::Catalog;
use crate::command::CommandSet;
use crate::edit::EditorMode;
use crate::level::{Lesson, LessonView, Level, LevelView};
use crate::progress::{Progress, ProgressView};
use crate::session::{GameSession, PlayState, PlayView, SessionView};
use crate::text;
use vstd::prelude::*;

verus! {

/// What stands before an entry of a list.
pub open spec fn marker_text(selected: bool) -> Seq<char> {
    if selected {
        "> "@
    } else {
        "  "@
    }
}

/// What stands before an entry of a list.
fn marker(selected: bool) -> (marker: &'static str)
    ensures
        marker@ == marker_text(selected),
{
    if selected {
        "> "
    } else {
        "  "
    }
}

/// The entries of the home screen.
pub open spec fn home_entries() -> Seq<Seq<char>> {
    seq!["Continue"@, "Lessons"@, "Help"@, "Practice"@, "Settings"@]
}

/// The entries of the home screen as they are shown.
pub fn home_rows(selected: usize) -> (rows: Vec<String>)
    ensures
        text::lines_view(rows@) == Seq::new(
            home_entries().len(),
            |i: int| marker_text(i == selected) + home_entries()[i],
        ),
{
    let items: Vec<&'static str> = vec!["Continue", "Lessons", "Help", "Practice", "Settings"];
    assert(text::strs_view(items@) =~= home_entries());
    let mut rows: Vec<String> = Vec::new();
    let mut i: usize = 0;
    while i < items.len()
        invariant
            i <= items@.len(),
            text::strs_view(items@) == home_entries(),
            rows@.len() == i,
            forall|j: int|
                0 <= j < i ==> (#[trigger] rows@[j])@ == marker_text(j == selected)
                    + home_entries()[j],
        decreases items@.len() - i,
    {
        let mut row: String = marker(i == selected).to_string();
        row.append(items[i]);
        assert(home_entries()[i as int] == items@[i as int]@);
        rows.push(row);
        i += 1;
    }
    assert(items@.len() == home_entries().len());
    assert(text::lines_view(rows@) =~= Seq::new(
        home_entries().len(),
        |i: int| marker_text(i == selected) + home_entries()[i],
    ));
    rows
}

/// Whether a level can be played, and has been cleared, in a word.
pub open spec fn status_text(level: LevelView, progress: ProgressView) -> Seq<char> {
    if !progress.unlocked(level.id) {
        "locked"@
    } else if progress.cleared(level.id) {
        "cleared"@
    } else {
        "open"@
    }
}

/// Whether a level can be played, and has been cleared, in a word.
pub fn level_status(level: &Level, progress: &Progress) -> (status: &'static str)
    ensures
        status@ == status_text(level@, progress@),
{
    if !progress.is_unlocked(level.id.as_str()) {
        "locked"
    } else if progress.is_cleared(level.id.as_str()) {
        "cleared"
    } else {
        "open"
    }
}

/// The best number of commands on a level, where there is one.
pub open spec fn score_text(level: LevelView, progress: ProgressView) -> Seq<char> {
    match progress.on_level(level.id).best_commands {
        Some(best) => " best:"@ + text::decimal(best as nat),
        None => Seq::empty(),
    }
}

/// A level as the lists of levels show it.
pub open spec fn level_row_text(level: LevelView, progress: ProgressView, selected: bool) -> Seq<
    char,
> {
    marker_text(selected) + text::padded_right(level.id, 3) + " "@ + text::padded_right(
        level.title,
        27,
    ) + " ["@ + status_text(level, progress) + (if level.required_to_unlock_next {
        " unlock"@
    } else {
        Seq::empty()
    }) + "]"@ + score_text(level, progress)
}

/// A level as the lists of levels show it.
pub fn level_row(level: &Level, progress: &Progress, selected: bool) -> (row: String)
    ensures
        row@ == level_row_text(level@, progress@, selected),
{
    let mut row: String = marker(selected).to_string();
    text::push_padded_right(&mut row, level.id.as_str(), 3);
    row.append(" ");
    text::push_padded_right(&mut row, level.title, 27);
    row.append(" [");
    row.append(level_status(level, progress));
    if level.required_to_unlock_next {
        row.append(" unlock");
    }
    row.append("]");
    let best: Option<usize> = match progress.level(level.id.as_str()) {
        Some(progress) => progress.best_commands,
        None => None,
    };
    match best {
        Some(best) => {
            row.append(" best:");
            text::push_decimal(&mut row, best);
        },
        None => {},
    }
    assert(row@ =~= level_row_text(level@, progress@, selected));
    row
}

/// The levels as the lists of levels show them.
pub fn level_rows(catalog: &Catalog, progress: &Progress, selected: usize) -> (rows: Vec<String>)
    ensures
        text::lines_view(rows@) == Seq::new(
            catalog@.levels().len(),
            |i: int| level_row_text(catalog@.levels()[i], progress@, i == selected),
        ),
{
    let levels: Vec<&Level> = catalog.all_levels();
    let mut rows: Vec<String> = Vec::new();
    let mut i: usize = 0;
    while i < levels.len()
        invariant
            i <= levels@.len(),
            catalog::borrowed_view(levels@) == catalog@.levels(),
            rows@.len() == i,
            forall|j: int|
                0 <= j < i ==> (#[trigger] rows@[j])@ == level_row_text(
                    catalog@.levels()[j],
                    progress@,
                    j == selected,
                ),
        decreases levels@.len() - i,
    {
        assert(catalog@.levels()[i as int] == levels@[i as int]@);
        rows.push(level_row(levels[i], progress, i == selected));
        i += 1;
    }
    assert(levels@.len() == catalog@.levels().len());
    assert(text::lines_view(rows@) =~= Seq::new(
        catalog@.levels().len(),
        |i: int| level_row_text(catalog@.levels()[i], progress@, i == selected),
    ));
    rows
}

/// A level as the plain listing shows it.
pub open spec fn listed_level(level: LevelView, progress: ProgressView) -> Seq<char> {
    "  "@ + text::padded_right(level.id, 3) + " "@ + text::padded_right(level.title, 28) + " "@ + (
    if !progress.unlocked(level.id) {
        "locked"@
    } else if progress.cleared(level.id) {
        "cleared"@
    } else {
        "unlocked"@
    })
}

/// A lesson as the plain listing shows it: two lines of its own, and one for each
/// level.
pub open spec fn listed_lesson(lesson: LessonView, progress: ProgressView) -> Seq<Seq<char>> {
    seq![
        "Lesson "@ + text::decimal(lesson.number as nat) + ": "@ + lesson.title,
        "  vocabulary: "@ + lesson.commands.help_text(),
    ] + Seq::new(lesson.levels.len(), |i: int| listed_level(lesson.levels[i], progress))
}

/// The plain listing of `lessons`.
pub open spec fn listing(lessons: Seq<LessonView>, progress: ProgressView) -> Seq<Seq<char>>
    decreases lessons.len(),
{
    if lessons.len() == 0 {
        Seq::empty()
    } else {
        listing(lessons.drop_last(), progress) + listed_lesson(lessons.last(), progress)
    }
}

/// A level as the plain listing shows it.
fn list_level(level: &Level, progress: &Progress) -> (line: String)
    ensures
        line@ == listed_level(level@, progress@),
{
    let mut line: String = "  ".to_string();
    text::push_padded_right(&mut line, level.id.as_str(), 3);
    line.append(" ");
    text::push_padded_right(&mut line, level.title, 28);
    line.append(" ");
    if progress.is_unlocked(level.id.as_str()) {
        if progress.is_cleared(level.id.as_str()) {
            line.append("cleared");
        } else {
            line.append("unlocked");
        }
    } else {
        line.append("locked");
    }
    assert(line@ =~= listed_level(level@, progress@));
    line
}

/// Adds a lesson to the plain listing.
fn list_lesson(lines: &mut Vec<String>, lesson: &Lesson, progress: &Progress)
    ensures
        text::lines_view(final(lines)@) == text::lines_view(old(lines)@) + listed_lesson(
            lesson@,
            progress@,
        ),
{
    let ghost before = text::lines_view(lines@);
    let mut title: String = "Lesson ".to_string();
    text::push_decimal(&mut title, lesson.number as usize);
    title.append(": ");
    title.append(lesson.title);
    let mut vocabulary: String = "  vocabulary: ".to_string();
    vocabulary.append(lesson.commands.help());
    let ghost head = seq![title@, vocabulary@];
    lines.push(title);
    lines.push(vocabulary);
    assert(text::lines_view(lines@) =~= before + head);
    let mut i: usize = 0;
    while i < lesson.levels.len()
        invariant
            i <= lesson.levels@.len(),
            text::lines_view(lines@) == before + head + Seq::new(
                i as nat,
                |j: int| listed_level(lesson@.levels[j], progress@),
            ),
        decreases lesson.levels@.len() - i,
    {
        let ghost so_far = text::lines_view(lines@);
        lines.push(list_level(&lesson.levels[i], progress));
        assert(text::lines_view(lines@) =~= so_far.push(
            listed_level(lesson@.levels[i as int], progress@),
        ));
        i += 1;
        assert(text::lines_view(lines@) =~= before + head + Seq::new(
            i as nat,
            |j: int| listed_level(lesson@.levels[j], progress@),
        ));
    }
    assert(lesson@.levels.len() == lesson.levels@.len());
    assert(text::lines_view(lines@) =~= before + listed_lesson(lesson@, progress@));
}

/// The plain listing of all lessons and levels.
pub fn list_levels(catalog: &Catalog, progress: &Progress) -> (lines: Vec<String>)
    ensures
        text::lines_view(lines@) == listing(catalog@.lessons, progress@),
{
    let mut lines: Vec<String> = Vec::new();
    let mut i: usize = 0;
    assert(text::lines_view(lines@) =~= listing(catalog@.lessons.take(0), progress@));
    while i < catalog.lessons.len()
        invariant
            i <= catalog.lessons@.len(),
            text::lines_view(lines@) == listing(catalog@.lessons.take(i as int), progress@),
        decreases catalog.lessons@.len() - i,
    {
        list_lesson(&mut lines, &catalog.lessons[i], progress);
        i += 1;
        assert(catalog@.lessons.take(i as int).drop_last() =~= catalog@.lessons.take(i - 1));
    }
    assert(catalog@.lessons.take(i as int) =~= catalog@.lessons);
    lines
}

/// The last lesson that the player has reached.
pub open spec fn lesson_reached(progress: ProgressView) -> u8 {
    if progress.cleared("2-2"@) {
        3
    } else if progress.cleared("1-2"@) {
        2
    } else {
        1
    }
}

/// The last lesson that the player has reached.
pub fn unlocked_lesson(progress: &Progress) -> (lesson: u8)
    ensures
        lesson == lesson_reached(progress@),
{
    if progress.is_cleared("2-2") {
        3
    } else if progress.is_cleared("1-2") {
        2
    } else {
        1
    }
}

/// The manual.
pub open spec fn help_page(progress: ProgressView) -> Seq<char> {
    "Current vocabulary: "@ + (CommandSet { lesson: lesson_reached(progress) }).help_text()
        + "\n\nUnlock rules: all Lesson 1 routes are open at first. Clear 1-2 to unlock Lesson 2. Clear 2-2 to unlock Lesson 3.\n\nHints react to defeats: repeated h/j/k/l suggests counts; h/l token crawling suggests word motions; edit mismatches suggest the relevant edit family.\n\nMenus allow h/j/k/l and, when enabled, arrow keys. Gameplay accepts only commands taught so far."@
}

/// The manual.
pub fn help_text(progress: &Progress) -> (page: String)
    ensures
        page@ == help_page(progress@),
{
    let mut page: String = "Current vocabulary: ".to_string();
    page.append(CommandSet::for_lesson(unlocked_lesson(progress)).help());
    page.append(
        "\n\nUnlock rules: all Lesson 1 routes are open at first. Clear 1-2 to unlock Lesson 2. Clear 2-2 to unlock Lesson 3.\n\nHints react to defeats: repeated h/j/k/l suggests counts; h/l token crawling suggests word motions; edit mismatches suggest the relevant edit family.\n\nMenus allow h/j/k/l and, when enabled, arrow keys. Gameplay accepts only commands taught so far.",
    );
    page
}

/// The settings.
pub open spec fn settings_page(progress: ProgressView) -> Seq<char> {
    "c  Color intensity: "@ + (if progress.color_intense {
        "high"@
    } else {
        "low"@
    }) + "\na  Arrow-key menus: "@ + (if progress.menu_arrows {
        "enabled"@
    } else {
        "disabled"@
    }) + "\nr  Reset progress\n\nSettings save when you quit normally."@
}

/// The settings.
pub fn settings_text(progress: &Progress) -> (page: String)
    ensures
        page@ == settings_page(progress@),
{
    let mut page: String = "c  Color intensity: ".to_string();
    page.append(
        if progress.color_intense {
            "high"
        } else {
            "low"
        },
    );
    page.append("\na  Arrow-key menus: ");
    page.append(
        if progress.menu_arrows {
            "enabled"
        } else {
            "disabled"
        },
    );
    page.append("\nr  Reset progress\n\nSettings save when you quit normally.");
    page
}

/// What keys do, in a word.
pub open spec fn mode_text(state: PlayView) -> Seq<char> {
    match state {
        PlayView::Edit(edit) => match edit.mode {
            EditorMode::Normal => "NORMAL"@,
            EditorMode::Insert => "INSERT"@,
            EditorMode::ChangeWord => "CHANGE"@,
        },
        _ => "NORMAL"@,
    }
}

/// The lava's part of the status line, `seconds` being the time until it rises.
pub open spec fn hazard_text(state: PlayView, seconds: Seq<char>) -> Seq<char> {
    match state {
        PlayView::Grid(grid) => match grid.lava_report(seconds) {
            Some(report) => report,
            None => Seq::empty(),
        },
        _ => Seq::empty(),
    }
}

/// The status line of a level.
pub open spec fn status_line_text(
    session: SessionView,
    seconds: Seq<char>,
    footer: Option<Seq<char>>,
) -> Seq<char> {
    "Mode: "@ + mode_text(session.state) + " | Command: "@ + (if session.input.len() == 0 {
        "_"@
    } else {
        session.input
    }) + " | Used: "@ + text::decimal(session.accepted_commands as nat) + "/"@ + text::decimal(
        session.state.budget() as nat,
    ) + hazard_text(session.state, seconds) + " | Vocabulary: "@ + session.commands.help_text() + (
    match footer {
        Some(footer) => " | "@ + footer,
        None => Seq::empty(),
    })
}

impl GameSession {
    /// The title of the level: its identifier and its name.
    pub fn title(&self) -> (title: String)
        ensures
            title@ == self@.level.id + " "@ + self@.level.title,
    {
        let mut title: String = self.level.id.clone();
        title.append(" ");
        title.append(self.level.title);
        title
    }

    /// How many commands the player has.
    pub fn budget(&self) -> (budget: usize)
        ensures
            budget == self@.state.budget(),
    {
        match &self.state {
            PlayState::Grid(grid) => grid.command_budget,
            PlayState::Token(token) => token.command_budget,
            PlayState::Edit(edit) => edit.command_budget,
        }
    }

    /// The status line. `seconds` is the time until the lava rises, written out in
    /// seconds; it is not looked at where no lava rises.
    pub fn status_line(&self, seconds: &str, footer: Option<&str>) -> (line: String)
        ensures
            line@ == status_line_text(
                self@,
                seconds@,
                match footer {
                    Some(footer) => Some(footer@),
                    None => None,
                },
            ),
    {
        let mut line: String = "Mode: ".to_string();
        line.append(
            match &self.state {
                PlayState::Edit(edit) => match edit.mode {
                    EditorMode::Normal => "NORMAL",
                    EditorMode::Insert => "INSERT",
                    EditorMode::ChangeWord => "CHANGE",
                },
                _ => "NORMAL",
            },
        );
        line.append(" | Command: ");
        if self.input.as_str().unicode_len() == 0 {
            line.append("_");
        } else {
            line.append(self.input.as_str());
        }
        line.append(" | Used: ");
        text::push_decimal(&mut line, self.accepted_commands);
        line.append("/");
        text::push_decimal(&mut line, self.budget());
        match &self.state {
            PlayState::Grid(grid) => match grid.lava_status(seconds) {
                Some(report) => line.append(report.as_str()),
                None => {},
            },
            _ => {},
        }
        line.append(" | Vocabulary: ");
        line.append(self.commands.help());
        match footer {
            Some(footer) => {
                line.append(" | ");
                line.append(footer);
            },
            None => {},
        }
        assert(line@ =~= status_line_text(
            self@,
            seconds@,
            match footer {
                Some(footer) => Some(footer@),
                None => None,
            },
        ));
        line
    }
}

/// The manual names the vocabulary of lesson three exactly where the levels of lesson
/// three can be played, and no earlier one than that of lesson two where those of lesson
/// two can.
pub proof fn the_manual_follows_progress(progress: ProgressView, level: Seq<char>)
    ensures
        lesson_reached(progress) >= 3 ==> progress.unlocked("3-"@ + level),
        progress.unlocked("3-"@ + level) ==> lesson_reached(progress) >= 3,
        progress.unlocked("2-"@ + level) ==> lesson_reached(progress) >= 2,
{
    reveal_strlit("1-");
    reveal_strlit("2-");
    reveal_strlit("3-");
    assert(("2-"@ + level)[0] == '2');
    assert(("3-"@ + level)[0] == '3');
    assert("2-"@.is_prefix_of("2-"@ + level));
    assert("3-"@.is_prefix_of("3-"@ + level));
}

/// A level of a list stands behind a marker, which is blank unless it is selected: its
/// identifier, its title, then in brackets its status and whether it unlocks, and its best
/// number of commands where there is one.
pub proof fn level_rows_tell_the_level(level: LevelView, progress: ProgressView, selected: bool)
    ensures
        ({
            let head = (if selected {
                "> "@
            } else {
                "  "@
            }) + text::padded_right(level.id, 3) + " "@ + text::padded_right(level.title, 27) + " ["@;
            let status = if !progress.unlocked(level.id) {
                "locked"@
            } else if progress.cleared(level.id) {
                "cleared"@
            } else {
                "open"@
            };
            let best = if progress.levels.contains_key(level.id) {
                progress.levels[level.id].best_commands
            } else {
                None
            };
            let row = level_row_text(level, progress, selected);
            &&& status_text(level, progress) == status
            &&& row.len() >= head.len() + status.len() && row.take(head.len() as int) == head
                && row.subrange(head.len() as int, (head.len() + status.len()) as int) == status
            &&& row.skip((head.len() + status.len()) as int) == (if level.required_to_unlock_next {
                " unlock]"@
            } else {
                "]"@
            }) + (match best {
                Some(best) => " best:"@ + text::decimal(best as nat),
                None => Seq::empty(),
            })
        }),
{
    reveal_strlit(" unlock]");
    reveal_strlit(" unlock");
    reveal_strlit("]");
    let head = marker_text(selected) + text::padded_right(level.id, 3) + " "@ + text::padded_right(
        level.title,
        27,
    ) + " ["@;
    let status = status_text(level, progress);
    let row = level_row_text(level, progress, selected);
    let unlock = if level.required_to_unlock_next {
        " unlock"@
    } else {
        Seq::<char>::empty()
    };
    let bracket = if level.required_to_unlock_next {
        " unlock]"@
    } else {
        "]"@
    };
    let score = score_text(level, progress);
    assert(unlock + "]"@ =~= bracket);
    assert(row == head + status + unlock + "]"@ + score);
    assert(row.take(head.len() as int) =~= head);
    assert(row.subrange(head.len() as int, (head.len() + status.len()) as int) =~= status);
    assert(row.skip((head.len() + status.len()) as int) =~= (unlock + "]"@) + score);
}

/// The plain listing has two lines for each lesson, its title and its vocabulary, and then one
/// for each of its levels, with the identifier, the title and the status.
pub proof fn listings_tell_every_level(
    lessons: Seq<LessonView>,
    last: LessonView,
    progress: ProgressView,
    i: int,
)
    requires
        0 <= i < last.levels.len(),
    ensures
        listing(Seq::empty(), progress).len() == 0,
        ({
            let before = listing(lessons, progress);
            let after = listing(lessons.push(last), progress);
            let level = last.levels[i];
            let n = before.len() as int;
            &&& after.len() == n + 2 + last.levels.len()
            &&& after.take(n) == before
            &&& after[n] == "Lesson "@ + text::decimal(last.number as nat) + ": "@ + last.title
            &&& after[n + 1] == "  vocabulary: "@ + last.commands.help_text()
            &&& after[n + 2 + i] == "  "@ + text::padded_right(level.id, 3) + " "@
                + text::padded_right(level.title, 28) + (if !progress.unlocked(level.id) {
                " locked"@
            } else if progress.cleared(level.id) {
                " cleared"@
            } else {
                " unlocked"@
            })
        }),
{
    reveal_strlit(" ");
    reveal_strlit("locked");
    reveal_strlit("cleared");
    reveal_strlit("unlocked");
    reveal_strlit(" locked");
    reveal_strlit(" cleared");
    reveal_strlit(" unlocked");
    assert(lessons.push(last).drop_last() =~= lessons);
    let before = listing(lessons, progress);
    let after = listing(lessons.push(last), progress);
    assert(after == before + listed_lesson(last, progress));
    assert(after.take(before.len() as int) =~= before);
    let level = last.levels[i];
    let line = listed_level(level, progress);
    let head = "  "@ + text::padded_right(level.id, 3) + " "@ + text::padded_right(level.title, 28);
    assert(" "@ + "locked"@ =~= " locked"@);
    assert(" "@ + "cleared"@ =~= " cleared"@);
    assert(" "@ + "unlocked"@ =~= " unlocked"@);
    let word = if !progress.unlocked(level.id) {
        "locked"@
    } else if progress.cleared(level.id) {
        "cleared"@
    } else {
        "unlocked"@
    };
    assert(line =~= head + (" "@ + word));
    assert(after[before.len() + 2 + i] == line);
}

/// The vocabulary that the manual shows is that of the last lesson that clears have led to.
pub proof fn the_manual_shows_the_lesson_reached(progress: ProgressView)
    ensures
        progress.cleared("2-2"@) ==> lesson_reached(progress) == 3,
        !progress.cleared("2-2"@) && progress.cleared("1-2"@) ==> lesson_reached(progress) == 2,
        !progress.cleared("2-2"@) && !progress.cleared("1-2"@) ==> lesson_reached(progress) == 1,
        ({
            let head = "Current vocabulary: "@ + (CommandSet {
                lesson: lesson_reached(progress),
            }).help_text();
            help_page(progress).take(head.len() as int) == head
        }),
{
    let head = "Current vocabulary: "@ + (CommandSet {
        lesson: lesson_reached(progress),
    }).help_text();
    assert(help_page(progress).take(head.len() as int) =~= head);
}

/// The settings show both toggles as they are.
pub proof fn settings_show_the_toggles(progress: ProgressView)
    ensures
        settings_page(progress) == (if progress.color_intense {
            "c  Color intensity: high\na  Arrow-key menus: "@
        } else {
            "c  Color intensity: low\na  Arrow-key menus: "@
        }) + (if progress.menu_arrows {
            "enabled\nr  Reset progress\n\nSettings save when you quit normally."@
        } else {
            "disabled\nr  Reset progress\n\nSettings save when you quit normally."@
        }),
{
    reveal_strlit("c  Color intensity: ");
    reveal_strlit("high");
    reveal_strlit("low");
    reveal_strlit("\na  Arrow-key menus: ");
    reveal_strlit("enabled");
    reveal_strlit("disabled");
    reveal_strlit("\nr  Reset progress\n\nSettings save when you quit normally.");
    reveal_strlit("c  Color intensity: high\na  Arrow-key menus: ");
    reveal_strlit("c  Color intensity: low\na  Arrow-key menus: ");
    reveal_strlit("enabled\nr  Reset progress\n\nSettings save when you quit normally.");
    reveal_strlit("disabled\nr  Reset progress\n\nSettings save when you quit normally.");
    let colour = "c  Color intensity: "@ + (if progress.color_intense {
        "high"@
    } else {
        "low"@
    }) + "\na  Arrow-key menus: "@;
    let arrows = (if progress.menu_arrows {
        "enabled"@
    } else {
        "disabled"@
    }) + "\nr  Reset progress\n\nSettings save when you quit normally."@;
    assert(settings_page(progress) =~= colour + arrows);
    assert(colour =~= if progress.color_intense {
        "c  Color intensity: high\na  Arrow-key menus: "@
    } else {
        "c  Color intensity: low\na  Arrow-key menus: "@
    });
    assert(arrows =~= if progress.menu_arrows {
        "enabled\nr  Reset progress\n\nSettings save when you quit normally."@
    } else {
        "disabled\nr  Reset progress\n\nSettings save when you quit normally."@
    });
}

/// The status line tells the mode, what has been typed, how many commands of how many have
/// been used, where the lava stands, the vocabulary, and whatever is to be added.
pub proof fn status_lines_tell_the_state(
    session: SessionView,
    seconds: Seq<char>,
    footer: Option<Seq<char>>,
)
    ensures
        ({
            let mode = match session.state {
                PlayView::Edit(edit) => match edit.mode {
                    EditorMode::Normal => "NORMAL"@,
                    EditorMode::Insert => "INSERT"@,
                    EditorMode::ChangeWord => "CHANGE"@,
                },
                _ => "NORMAL"@,
            };
            let hazard = match session.state {
                PlayView::Grid(grid) => if grid.lava_interval is Some {
                    " | Lava: "@ + text::decimal(grid.lava_rows as nat) + " rows, next rise in "@
                        + seconds + "s"@
                } else {
                    Seq::empty()
                },
                _ => Seq::empty(),
            };
            let budget = match session.state {
                PlayView::Grid(grid) => grid.command_budget,
                PlayView::Token(token) => token.command_budget,
                PlayView::Edit(edit) => edit.command_budget,
            };
            status_line_text(session, seconds, footer) == "Mode: "@ + mode + " | Command: "@ + (
            if session.input.len() > 0 {
                session.input
            } else {
                "_"@
            }) + " | Used: "@ + text::decimal(session.accepted_commands as nat) + "/"@
                + text::decimal(budget as nat) + hazard + " | Vocabulary: "@
                + session.commands.help_text() + (match footer {
                Some(footer) => " | "@ + footer,
                None => Seq::empty(),
            })
        }),
{
}

/// The home screen lists its five entries, and marks the selected one.
pub proof fn home_lists_five_entries()
    ensures
        home_entries() == seq!["Continue"@, "Lessons"@, "Help"@, "Practice"@, "Settings"@],
        marker_text(true) == "> "@,
        marker_text(false) == "  "@,
{
}

} // verus!

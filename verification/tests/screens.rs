use gamevim::board::{relative_line_label, viewport_start, Cell, Mark, Window};
use gamevim::catalog::Catalog;
use gamevim::edit::{EditState, EditorMode};
use gamevim::grid::GridState;
use gamevim::layout::{centered_rect, edit_layout, level_layout, page_layout, Area};
use gamevim::level::{EditSpec, GridSpec, TokenSpec};
use gamevim::pos::Pos;
use gamevim::progress::Progress;
use gamevim::screens::{
    help_text, home_rows, level_row, level_rows, level_status, list_levels, settings_text,
    unlocked_lesson,
};
use gamevim::session::{GameSession, PlayState};
use gamevim::time::Duration;
use gamevim::token::TokenState;

fn grid() -> GridState {
    GridState::from_spec(
        &GridSpec {
            width: 15,
            height: 9,
            start: Pos { x: 2, y: 7 },
            goal: Pos { x: 12, y: 1 },
            command_budget: 9,
            lava: true,
            lava_interval_ms: Some(1_000),
            generated: true,
            mastery: false,
        },
        7,
    )
}

#[test]
fn relative_line_labels_match_vim_style() {
    assert_eq!(relative_line_label(4, 4), "  5 ");
    assert_eq!(relative_line_label(3, 4), "  1 ");
    assert_eq!(relative_line_label(1, 4), "  3 ");
    assert_eq!(relative_line_label(7, 4), "  3 ");
}

#[test]
fn long_labels_are_not_cut() {
    assert_eq!(relative_line_label(999, 999), "1000 ");
    assert_eq!(relative_line_label(0, 120), "120 ");
    assert_eq!(relative_line_label(usize::MAX, 0), format!("{} ", usize::MAX));
}

#[test]
fn the_viewport_follows_the_cursor() {
    assert_eq!(viewport_start(5, 10, 10), 0);
    assert_eq!(viewport_start(5, 20, 10), 0);
    assert_eq!(viewport_start(1, 4, 10), 0);
    assert_eq!(viewport_start(5, 4, 10), 3);
    assert_eq!(viewport_start(9, 4, 10), 6);
    assert_eq!(viewport_start(9, 0, 10), 9);
    for total in 1..12 {
        for visible in 1..=total {
            for cursor in 0..total {
                let first = viewport_start(cursor, visible, total);
                assert!(first <= cursor && cursor < first + visible && first + visible <= total);
            }
        }
    }
}

#[test]
fn a_small_frame_shows_the_part_around_the_player() {
    let grid = grid();
    assert_eq!(
        grid.visible_window(17, 6),
        Window { top: 5, bottom: 9, left: 0, right: 5 }
    );
    let rows = grid.visible_rows(17, 6);
    let labels: Vec<&str> = rows.iter().map(|row| row.label.as_str()).collect();
    assert_eq!(labels, vec!["  2 ", "  1 ", "  8 ", "  1 "]);
    let wall = Cell::Wall;
    assert_eq!(rows[0].cells, vec![wall, wall, Cell::Floor, wall, wall]);
    assert_eq!(rows[2].cells, vec![wall, wall, Cell::Player, wall, wall]);
    assert_eq!(rows[3].cells, vec![Cell::Lava; 5]);
    assert_eq!(
        grid.visible_window(0, 0),
        Window { top: 7, bottom: 8, left: 2, right: 3 }
    );
}

#[test]
fn a_large_frame_shows_everything() {
    let grid = grid();
    assert_eq!(
        grid.visible_window(200, 100),
        Window { top: 0, bottom: 9, left: 0, right: 15 }
    );
    let rows = grid.visible_rows(200, 100);
    assert_eq!(rows.len(), 9);
    assert_eq!(rows[1].cells[12], Cell::Goal);
    assert_eq!(rows[1].cells.len(), 15);
    let glyphs: Vec<&str> = [Cell::Player, Cell::Goal, Cell::Lava, Cell::Wall, Cell::Floor]
        .iter()
        .map(|cell| cell.glyph())
        .collect();
    assert_eq!(glyphs, vec!["@ ", "X ", "~~", "##", ". "]);
}

#[test]
fn the_player_stays_in_every_frame() {
    let mut grid = grid();
    for y in 0..9 {
        for x in 0..15 {
            grid.player = Pos { x, y };
            for width in 0..40 {
                for height in 0..14 {
                    let w = grid.visible_window(width, height);
                    assert!(w.top <= y && y < w.bottom && w.left <= x && x < w.right);
                }
            }
        }
    }
}

#[test]
fn token_lines_mark_cursor_and_targets() {
    let token = TokenState::from_spec(
        &TokenSpec {
            lines: vec!["ab", "\u{e9}c"],
            targets: vec![(0, 0), (1, 1)],
            command_budget: 3,
            timer_seconds: None,
            generated: false,
        },
        1,
    );
    let rows = token.visible_rows();
    assert_eq!(rows[0].label, "  1 ");
    assert_eq!(rows[0].line, "ab");
    assert_eq!(
        rows[0].marks,
        vec![Mark { target: true, cursor: true }, Mark { target: false, cursor: false }]
    );
    assert_eq!(rows[1].label, "  1 ");
    assert_eq!(rows[1].line, "\u{e9}c");
    assert_eq!(
        rows[1].marks,
        vec![Mark { target: false, cursor: false }, Mark { target: true, cursor: false }]
    );
}

#[test]
fn edit_lines_stand_beside_their_targets() {
    let edit = EditState::from_spec(&EditSpec {
        start: vec!["x", ""],
        expected: vec!["y", "z"],
        cursor: Pos { x: 0, y: 1 },
        command_budget: 3,
        timer_seconds: None,
    });
    let rows = edit.visible_rows();
    assert_eq!(rows[0].label, "  1 ");
    assert_eq!(rows[0].marks, vec![Mark { target: false, cursor: false }]);
    assert_eq!(rows[1].label, "  2 ");
    assert_eq!(rows[1].line, "");
    assert!(rows[1].marks.is_empty());
    let targets = edit.target_rows();
    assert_eq!(targets.len(), 2);
    assert_eq!(targets[0].label, "  1 ");
    assert_eq!(targets[1].label, "  2 ");
    assert_eq!(targets[1].line, "z");
}

#[test]
fn menus_mark_the_selection() {
    assert_eq!(
        home_rows(2),
        vec!["  Continue", "  Lessons", "> Help", "  Practice", "  Settings"]
    );
    assert!(home_rows(9).iter().all(|row| row.starts_with("  ")));
}

#[test]
fn level_lists_tell_status_and_score() {
    let catalog = Catalog::new();
    let mut progress = Progress::new();
    progress.record_clear("1-2", Duration::from_millis(4), 31);
    let rows = level_rows(&catalog, &progress, 2);
    assert_eq!(rows.len(), 12);
    assert_eq!(rows[0], "  1-0 Tutorial: The Warm Floor    [open]");
    assert_eq!(rows[2], "> 1-2 Rising Lava Vault           [cleared unlock] best:31");
    assert_eq!(rows[8], "  3-0 Tutorial: First Patch       [locked]");
    assert_eq!(rows[10], "  3-2 Broken Build Bay            [locked unlock]");
    let level = catalog.level("2-0").unwrap();
    assert_eq!(level_status(level, &progress), "open");
    assert_eq!(level_row(level, &progress, true), "> 2-0 Tutorial: Token Tracks      [open]");
}

#[test]
fn the_listing_names_every_level() {
    let catalog = Catalog::new();
    let mut progress = Progress::new();
    progress.record_clear("1-2", Duration::from_millis(4), 31);
    let lines = list_levels(&catalog, &progress);
    assert_eq!(lines.len(), 18);
    assert_eq!(lines[0], "Lesson 1: Lava Escape: Cursor Motions");
    assert_eq!(lines[1], "  vocabulary: h j k l and counts: 3j, 5l");
    assert_eq!(lines[2], "  1-0 Tutorial: The Warm Floor     unlocked");
    assert_eq!(lines[4], "  1-2 Rising Lava Vault            cleared");
    assert_eq!(lines[6], "Lesson 2: Word Rails: Code Navigation");
    assert_eq!(lines[17], "  3-3 Undo Lab                     locked");
}

#[test]
fn the_manual_follows_the_player() {
    let mut progress = Progress::new();
    assert_eq!(unlocked_lesson(&progress), 1);
    progress.record_clear("1-2", Duration::from_millis(4), 31);
    assert_eq!(unlocked_lesson(&progress), 2);
    assert!(help_text(&progress).starts_with(
        "Current vocabulary: h j k l counts plus w b e ge\n\nUnlock rules: all Lesson 1 routes are open at first."
    ));
    progress.record_clear("2-2", Duration::from_millis(4), 31);
    assert_eq!(unlocked_lesson(&progress), 3);
    assert!(help_text(&progress)
        .ends_with("Gameplay accepts only commands taught so far."));
}

#[test]
fn settings_are_shown() {
    let mut progress = Progress::new();
    assert_eq!(
        settings_text(&progress),
        "c  Color intensity: high\na  Arrow-key menus: enabled\nr  Reset progress\n\nSettings save when you quit normally."
    );
    progress.color_intense = false;
    progress.menu_arrows = false;
    assert_eq!(
        settings_text(&progress),
        "c  Color intensity: low\na  Arrow-key menus: disabled\nr  Reset progress\n\nSettings save when you quit normally."
    );
}

#[test]
fn the_status_line_tells_mode_input_and_budget() {
    let catalog = Catalog::new();
    let mut session = GameSession::new(catalog.level("1-2").unwrap(), 7);
    assert_eq!(session.title(), "1-2 Rising Lava Vault");
    assert_eq!(session.budget(), 38);
    assert_eq!(
        session.status_line("3.4", Some("Esc/q quits the level")),
        "Mode: NORMAL | Command: _ | Used: 0/38 | Lava: 1 rows, next rise in 3.4s | Vocabulary: h j k l and counts: 3j, 5l | Esc/q quits the level"
    );
    session.input = "12".to_string();
    session.accepted_commands = 4;
    assert_eq!(
        session.status_line("0.1", None),
        "Mode: NORMAL | Command: 12 | Used: 4/38 | Lava: 1 rows, next rise in 0.1s | Vocabulary: h j k l and counts: 3j, 5l"
    );
    let mut edit = GameSession::new(catalog.level("3-0").unwrap(), 7);
    for (mode, word) in [
        (EditorMode::Normal, "NORMAL"),
        (EditorMode::Insert, "INSERT"),
        (EditorMode::ChangeWord, "CHANGE"),
    ] {
        if let PlayState::Edit(state) = &mut edit.state {
            state.mode = mode;
        }
        assert_eq!(
            edit.status_line("9.9", None),
            format!("Mode: {word} | Command: _ | Used: 0/42 | Vocabulary: motions plus i a Esc x r<char> dw cw dd u")
        );
    }
}

fn area(x: u16, y: u16, width: u16, height: u16) -> Area {
    Area { x, y, width, height }
}

#[test]
fn pages_have_a_header_and_a_footer() {
    for height in 19..300 {
        assert_eq!(
            page_layout(area(3, 2, 80, height)),
            vec![
                area(3, 2, 80, 4),
                area(3, 6, 80, height - 9),
                area(3, 2 + height - 5, 80, 5),
            ]
        );
    }
    assert_eq!(
        page_layout(area(0, 60_000, 10, u16::MAX)),
        vec![area(0, 60_000, 10, 4), area(0, 60_004, 10, 5_526), area(0, 65_530, 10, 5)]
    );
}

#[test]
fn levels_have_a_header_and_a_footer() {
    for height in 16..300 {
        assert_eq!(
            level_layout(area(0, 0, 120, height)),
            vec![
                area(0, 0, 120, 3),
                area(0, 3, 120, height - 8),
                area(0, height - 5, 120, 5),
            ]
        );
    }
}

fn assert_squeezed(parts: Vec<Area>, whole: Area, top: u16, least: u16, bottom: u16) {
    assert_eq!(parts.len(), 3);
    for part in &parts {
        assert_eq!((part.x, part.width), (whole.x, whole.width));
    }
    assert_eq!(parts[0].y, whole.y);
    assert_eq!(parts[1].y, parts[0].y + parts[0].height);
    assert_eq!(parts[2].y, parts[1].y + parts[1].height);
    assert_eq!(parts[2].y + parts[2].height, whole.y + whole.height);
    assert_eq!(parts[1].height, least.min(whole.height));
    assert!(parts[0].height <= top);
    assert!(parts[2].height <= bottom);
}

#[test]
fn small_areas_are_shared_around_the_middle() {
    for y in 0..40 {
        for height in 0..19 {
            let whole = area(1, y, 30, height);
            assert_squeezed(page_layout(whole), whole, 4, 10, 5);
        }
        for height in 0..16 {
            let whole = area(2, 100 * y, 30, height);
            assert_squeezed(level_layout(whole), whole, 3, 8, 5);
        }
    }
    let low = area(0, 65_523, 9, 12);
    assert_squeezed(page_layout(low), low, 4, 10, 5);
    assert_squeezed(level_layout(low), low, 3, 8, 5);
}

#[test]
fn edit_levels_are_halved() {
    for width in 0..300 {
        let half = (width + 1) / 2;
        assert_eq!(
            edit_layout(area(4, 1, width, 9)),
            vec![area(4, 1, half, 9), area(4 + half, 1, width - half, 9)]
        );
    }
    assert_eq!(
        edit_layout(area(0, 0, 65_535, 9)),
        vec![area(0, 0, 32_768, 9), area(32_768, 0, 32_767, 9)]
    );
}

#[test]
fn popups_are_centred() {
    assert_eq!(centered_rect(70, 30, area(0, 0, 80, 24)), area(12, 8, 56, 8));
    assert_eq!(centered_rect(100, 100, area(2, 3, 80, 24)), area(2, 3, 80, 24));
    assert_eq!(centered_rect(0, 0, area(0, 0, 10, 10)), area(5, 5, 0, 0));
    for percent in 0..=100u32 {
        for size in [0u32, 1, 2, 3, 7, 10, 33, 80, 99, 100, 101, 255, 1_000, 30_001] {
            let margin = (100 - percent) / 2;
            let from = (size * margin + 50) / 100;
            let to = (size * (margin + percent) + 50) / 100;
            assert_eq!(
                centered_rect(percent as u16, 100, area(5, 6, size as u16, 7)),
                area(5 + from as u16, 6, (to - from) as u16, 7),
                "{percent} of {size}"
            );
            assert_eq!(
                centered_rect(100, percent as u16, area(5, 6, 7, size as u16)),
                area(5, 6 + from as u16, 7, (to - from) as u16),
                "{percent} of {size}"
            );
        }
    }
}

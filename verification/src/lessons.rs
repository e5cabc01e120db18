//! The lessons and their levels.

use crate::command::CommandSet;
use crate::level::{
    EditSpec, EditSpecView, GridSpec, Lesson, LessonView, Level, LevelKind, LevelKindView, LevelView,
    TokenSpec, TokenSpecView,
};
use crate::pos::Pos;
use vstd::prelude::*;

verus! {

impl LevelView {
    /// Level 1-0.
    pub open spec fn warm_floor() -> LevelView {
        LevelView {
            id: "1-0"@,
            title: "Tutorial: The Warm Floor"@,
            lesson: 1,
            kind: LevelKindView::Grid(
                GridSpec {
                    width: 25,
                    height: 11,
                    start: Pos { x: 2, y: 9 },
                    goal: Pos { x: 22, y: 1 },
                    command_budget: 34,
                    lava: false,
                    lava_interval_ms: None,
                    generated: false,
                    mastery: false,
                },
            ),
            required_to_unlock_next: false,
        }
    }

    /// Level 1-1.
    pub open spec fn count_crates() -> LevelView {
        LevelView {
            id: "1-1"@,
            title: "Count Crates"@,
            lesson: 1,
            kind: LevelKindView::Grid(
                GridSpec {
                    width: 33,
                    height: 13,
                    start: Pos { x: 2, y: 6 },
                    goal: Pos { x: 30, y: 6 },
                    command_budget: 12,
                    lava: false,
                    lava_interval_ms: None,
                    generated: true,
                    mastery: false,
                },
            ),
            required_to_unlock_next: false,
        }
    }

    /// Level 1-2.
    pub open spec fn rising_lava_vault() -> LevelView {
        LevelView {
            id: "1-2"@,
            title: "Rising Lava Vault"@,
            lesson: 1,
            kind: LevelKindView::Grid(
                GridSpec {
                    width: 43,
                    height: 23,
                    start: Pos { x: 2, y: 20 },
                    goal: Pos { x: 40, y: 1 },
                    command_budget: 38,
                    lava: true,
                    lava_interval_ms: Some(3_400),
                    generated: true,
                    mastery: false,
                },
            ),
            required_to_unlock_next: true,
        }
    }

    /// Level 1-3.
    pub open spec fn ember_sprint() -> LevelView {
        LevelView {
            id: "1-3"@,
            title: "Ember Sprint"@,
            lesson: 1,
            kind: LevelKindView::Grid(
                GridSpec {
                    width: 57,
                    height: 29,
                    start: Pos { x: 2, y: 26 },
                    goal: Pos { x: 54, y: 1 },
                    command_budget: 48,
                    lava: true,
                    lava_interval_ms: Some(2_700),
                    generated: true,
                    mastery: true,
                },
            ),
            required_to_unlock_next: false,
        }
    }

    /// Level 2-0.
    pub open spec fn token_tracks() -> LevelView {
        LevelView {
            id: "2-0"@,
            title: "Tutorial: Token Tracks"@,
            lesson: 2,
            kind: LevelKindView::Token(
                TokenSpecView {
                    lines: seq![
                        "let courier_patch = old_bug.fix();"@,
                        "let route = courier_patch.next_stop();"@,
                        "dispatch(route);"@,
                    ],
                    targets: seq![(0, 4), (0, 18), (0, 28), (1, 12), (2, 0)],
                    command_budget: 18,
                    timer_seconds: None,
                    generated: false,
                },
            ),
            required_to_unlock_next: false,
        }
    }

    /// Level 2-1.
    pub open spec fn symbol_switchyard() -> LevelView {
        LevelView {
            id: "2-1"@,
            title: "Symbol Switchyard"@,
            lesson: 2,
            kind: LevelKindView::Token(
                TokenSpecView {
                    lines: seq![
                        "route.alpha_beta.map(|fix| fix.apply())"@,
                        "packet.queue[fix.index()].seal();"@,
                    ],
                    targets: seq![(0, 6), (0, 17), (0, 28), (0, 37), (1, 7), (1, 20)],
                    command_budget: 20,
                    timer_seconds: None,
                    generated: true,
                },
            ),
            required_to_unlock_next: false,
        }
    }

    /// Level 2-2.
    pub open spec fn refactor_route() -> LevelView {
        LevelView {
            id: "2-2"@,
            title: "Refactor Route"@,
            lesson: 2,
            kind: LevelKindView::Token(
                TokenSpecView {
                    lines: seq![
                        "fn deliver_patch(queue: &mut Vec<Job>) {"@,
                        "    queue.iter_mut().for_each(|job| job.fix());"@,
                        "    report_status(queue.len());"@,
                        "}"@,
                    ],
                    targets: seq![(0, 3), (0, 17), (1, 10), (1, 32), (1, 42), (2, 4), (2, 18)],
                    command_budget: 28,
                    timer_seconds: None,
                    generated: true,
                },
            ),
            required_to_unlock_next: true,
        }
    }

    /// Level 2-3.
    pub open spec fn stack_trace_chase() -> LevelView {
        LevelView {
            id: "2-3"@,
            title: "Stack Trace Chase"@,
            lesson: 2,
            kind: LevelKindView::Token(
                TokenSpecView {
                    lines: seq![
                        "panic: patch lost at src/courier.rs:42"@,
                        "  at deliver::route::vault"@,
                        "  at main::dispatch"@,
                        "  at runtime::wake_terminal"@,
                    ],
                    targets: seq![(0, 7), (0, 24), (0, 39), (1, 5), (1, 20), (2, 6), (3, 15)],
                    command_budget: 30,
                    timer_seconds: Some(75),
                    generated: true,
                },
            ),
            required_to_unlock_next: false,
        }
    }

    /// Level 3-0.
    pub open spec fn first_patch() -> LevelView {
        LevelView {
            id: "3-0"@,
            title: "Tutorial: First Patch"@,
            lesson: 3,
            kind: LevelKindView::Edit(
                EditSpecView {
                    start: seq![
                        "fn patch() {"@,
                        "    let mesage = \"ship\";"@,
                        "    let extra word = true;"@,
                        "}"@,
                    ],
                    expected: seq![
                        "fn patch() {"@,
                        "    let message = \"ship\";"@,
                        "    let extra = true;"@,
                        "}"@,
                    ],
                    cursor: Pos { x: 10, y: 1 },
                    command_budget: 42,
                    timer_seconds: None,
                },
            ),
            required_to_unlock_next: false,
        }
    }

    /// Level 3-1.
    pub open spec fn bug_clinic() -> LevelView {
        LevelView {
            id: "3-1"@,
            title: "Bug Clinic"@,
            lesson: 3,
            kind: LevelKindView::Edit(
                EditSpecView {
                    start: seq![
                        "fn count_patch() -> usize {"@,
                        "    retun patch.count()"@,
                        "}"@,
                        "let mode = \"sloww\";"@,
                    ],
                    expected: seq![
                        "fn count_patch() -> usize {"@,
                        "    return patch.count()"@,
                        "}"@,
                        "let mode = \"slow\";"@,
                    ],
                    cursor: Pos { x: 8, y: 1 },
                    command_budget: 46,
                    timer_seconds: None,
                },
            ),
            required_to_unlock_next: false,
        }
    }

    /// Level 3-2.
    pub open spec fn broken_build_bay() -> LevelView {
        LevelView {
            id: "3-2"@,
            title: "Broken Build Bay"@,
            lesson: 3,
            kind: LevelKindView::Edit(
                EditSpecView {
                    start: seq![
                        "fn mainn() {"@,
                        "    prnitln!(\"patched\");"@,
                        "    let stale_word flag = true;"@,
                        "    dispatch_noww();"@,
                        "}"@,
                    ],
                    expected: seq![
                        "fn main() {"@,
                        "    println!(\"patched\");"@,
                        "    let flag = true;"@,
                        "    dispatch_now();"@,
                        "}"@,
                    ],
                    cursor: Pos { x: 7, y: 0 },
                    command_budget: 58,
                    timer_seconds: Some(180),
                },
            ),
            required_to_unlock_next: true,
        }
    }

    /// Level 3-3.
    pub open spec fn undo_lab() -> LevelView {
        LevelView {
            id: "3-3"@,
            title: "Undo Lab"@,
            lesson: 3,
            kind: LevelKindView::Edit(
                EditSpecView {
                    start: seq![
                        "let target = \"wrong\";"@,
                        "let backup = \"right\";"@,
                    ],
                    expected: seq![
                        "let target = \"right\";"@,
                        "let backup = \"right\";"@,
                    ],
                    cursor: Pos { x: 14, y: 0 },
                    command_budget: 38,
                    timer_seconds: None,
                },
            ),
            required_to_unlock_next: false,
        }
    }
}

impl LessonView {
    /// Lesson one.
    pub open spec fn one() -> LessonView {
        LessonView {
            number: 1,
            title: "Lava Escape: Cursor Motions"@,
            commands: CommandSet { lesson: 1 },
            levels: seq![
                LevelView::warm_floor(),
                LevelView::count_crates(),
                LevelView::rising_lava_vault(),
                LevelView::ember_sprint(),
            ],
        }
    }

    /// Lesson two.
    pub open spec fn two() -> LessonView {
        LessonView {
            number: 2,
            title: "Word Rails: Code Navigation"@,
            commands: CommandSet { lesson: 2 },
            levels: seq![
                LevelView::token_tracks(),
                LevelView::symbol_switchyard(),
                LevelView::refactor_route(),
                LevelView::stack_trace_chase(),
            ],
        }
    }

    /// Lesson three.
    pub open spec fn three() -> LessonView {
        LessonView {
            number: 3,
            title: "Code Surgery: Basic Editing"@,
            commands: CommandSet { lesson: 3 },
            levels: seq![
                LevelView::first_patch(),
                LevelView::bug_clinic(),
                LevelView::broken_build_bay(),
                LevelView::undo_lab(),
            ],
        }
    }
}

fn warm_floor() -> (level: Level)
    ensures
        level@ == LevelView::warm_floor(),
{
    let level: Level = Level {
        id: "1-0".to_string(),
        title: "Tutorial: The Warm Floor",
        lesson: 1,
        kind: LevelKind::Grid(
            GridSpec {
                width: 25,
                height: 11,
                start: Pos { x: 2, y: 9 },
                goal: Pos { x: 22, y: 1 },
                command_budget: 34,
                lava: false,
                lava_interval_ms: None,
                generated: false,
                mastery: false,
            },
        ),
        required_to_unlock_next: false,
    };
    assert(level@ =~= LevelView::warm_floor());
    level
}

fn count_crates() -> (level: Level)
    ensures
        level@ == LevelView::count_crates(),
{
    let level: Level = Level {
        id: "1-1".to_string(),
        title: "Count Crates",
        lesson: 1,
        kind: LevelKind::Grid(
            GridSpec {
                width: 33,
                height: 13,
                start: Pos { x: 2, y: 6 },
                goal: Pos { x: 30, y: 6 },
                command_budget: 12,
                lava: false,
                lava_interval_ms: None,
                generated: true,
                mastery: false,
            },
        ),
        required_to_unlock_next: false,
    };
    assert(level@ =~= LevelView::count_crates());
    level
}

fn rising_lava_vault() -> (level: Level)
    ensures
        level@ == LevelView::rising_lava_vault(),
{
    let level: Level = Level {
        id: "1-2".to_string(),
        title: "Rising Lava Vault",
        lesson: 1,
        kind: LevelKind::Grid(
            GridSpec {
                width: 43,
                height: 23,
                start: Pos { x: 2, y: 20 },
                goal: Pos { x: 40, y: 1 },
                command_budget: 38,
                lava: true,
                lava_interval_ms: Some(3_400),
                generated: true,
                mastery: false,
            },
        ),
        required_to_unlock_next: true,
    };
    assert(level@ =~= LevelView::rising_lava_vault());
    level
}

fn ember_sprint() -> (level: Level)
    ensures
        level@ == LevelView::ember_sprint(),
{
    let level: Level = Level {
        id: "1-3".to_string(),
        title: "Ember Sprint",
        lesson: 1,
        kind: LevelKind::Grid(
            GridSpec {
                width: 57,
                height: 29,
                start: Pos { x: 2, y: 26 },
                goal: Pos { x: 54, y: 1 },
                command_budget: 48,
                lava: true,
                lava_interval_ms: Some(2_700),
                generated: true,
                mastery: true,
            },
        ),
        required_to_unlock_next: false,
    };
    assert(level@ =~= LevelView::ember_sprint());
    level
}

fn token_tracks() -> (level: Level)
    ensures
        level@ == LevelView::token_tracks(),
{
    let level: Level = Level {
        id: "2-0".to_string(),
        title: "Tutorial: Token Tracks",
        lesson: 2,
        kind: LevelKind::Token(
            TokenSpec {
                lines: vec![
                    "let courier_patch = old_bug.fix();",
                    "let route = courier_patch.next_stop();",
                    "dispatch(route);",
                ],
                targets: vec![(0, 4), (0, 18), (0, 28), (1, 12), (2, 0)],
                command_budget: 18,
                timer_seconds: None,
                generated: false,
            },
        ),
        required_to_unlock_next: false,
    };
    assert(level@ =~= LevelView::token_tracks());
    level
}

fn symbol_switchyard() -> (level: Level)
    ensures
        level@ == LevelView::symbol_switchyard(),
{
    let level: Level = Level {
        id: "2-1".to_string(),
        title: "Symbol Switchyard",
        lesson: 2,
        kind: LevelKind::Token(
            TokenSpec {
                lines: vec![
                    "route.alpha_beta.map(|fix| fix.apply())",
                    "packet.queue[fix.index()].seal();",
                ],
                targets: vec![(0, 6), (0, 17), (0, 28), (0, 37), (1, 7), (1, 20)],
                command_budget: 20,
                timer_seconds: None,
                generated: true,
            },
        ),
        required_to_unlock_next: false,
    };
    assert(level@ =~= LevelView::symbol_switchyard());
    level
}

fn refactor_route() -> (level: Level)
    ensures
        level@ == LevelView::refactor_route(),
{
    let level: Level = Level {
        id: "2-2".to_string(),
        title: "Refactor Route",
        lesson: 2,
        kind: LevelKind::Token(
            TokenSpec {
                lines: vec![
                    "fn deliver_patch(queue: &mut Vec<Job>) {",
                    "    queue.iter_mut().for_each(|job| job.fix());",
                    "    report_status(queue.len());",
                    "}",
                ],
                targets: vec![(0, 3), (0, 17), (1, 10), (1, 32), (1, 42), (2, 4), (2, 18)],
                command_budget: 28,
                timer_seconds: None,
                generated: true,
            },
        ),
        required_to_unlock_next: true,
    };
    assert(level@ =~= LevelView::refactor_route());
    level
}

fn stack_trace_chase() -> (level: Level)
    ensures
        level@ == LevelView::stack_trace_chase(),
{
    let level: Level = Level {
        id: "2-3".to_string(),
        title: "Stack Trace Chase",
        lesson: 2,
        kind: LevelKind::Token(
            TokenSpec {
                lines: vec![
                    "panic: patch lost at src/courier.rs:42",
                    "  at deliver::route::vault",
                    "  at main::dispatch",
                    "  at runtime::wake_terminal",
                ],
                targets: vec![(0, 7), (0, 24), (0, 39), (1, 5), (1, 20), (2, 6), (3, 15)],
                command_budget: 30,
                timer_seconds: Some(75),
                generated: true,
            },
        ),
        required_to_unlock_next: false,
    };
    assert(level@ =~= LevelView::stack_trace_chase());
    level
}

fn first_patch() -> (level: Level)
    ensures
        level@ == LevelView::first_patch(),
{
    let level: Level = Level {
        id: "3-0".to_string(),
        title: "Tutorial: First Patch",
        lesson: 3,
        kind: LevelKind::Edit(
            EditSpec {
                start: vec![
                    "fn patch() {",
                    "    let mesage = \"ship\";",
                    "    let extra word = true;",
                    "}",
                ],
                expected: vec![
                    "fn patch() {",
                    "    let message = \"ship\";",
                    "    let extra = true;",
                    "}",
                ],
                cursor: Pos { x: 10, y: 1 },
                command_budget: 42,
                timer_seconds: None,
            },
        ),
        required_to_unlock_next: false,
    };
    assert(level@ =~= LevelView::first_patch());
    level
}

fn bug_clinic() -> (level: Level)
    ensures
        level@ == LevelView::bug_clinic(),
{
    let level: Level = Level {
        id: "3-1".to_string(),
        title: "Bug Clinic",
        lesson: 3,
        kind: LevelKind::Edit(
            EditSpec {
                start: vec![
                    "fn count_patch() -> usize {",
                    "    retun patch.count()",
                    "}",
                    "let mode = \"sloww\";",
                ],
                expected: vec![
                    "fn count_patch() -> usize {",
                    "    return patch.count()",
                    "}",
                    "let mode = \"slow\";",
                ],
                cursor: Pos { x: 8, y: 1 },
                command_budget: 46,
                timer_seconds: None,
            },
        ),
        required_to_unlock_next: false,
    };
    assert(level@ =~= LevelView::bug_clinic());
    level
}

fn broken_build_bay() -> (level: Level)
    ensures
        level@ == LevelView::broken_build_bay(),
{
    let level: Level = Level {
        id: "3-2".to_string(),
        title: "Broken Build Bay",
        lesson: 3,
        kind: LevelKind::Edit(
            EditSpec {
                start: vec![
                    "fn mainn() {",
                    "    prnitln!(\"patched\");",
                    "    let stale_word flag = true;",
                    "    dispatch_noww();",
                    "}",
                ],
                expected: vec![
                    "fn main() {",
                    "    println!(\"patched\");",
                    "    let flag = true;",
                    "    dispatch_now();",
                    "}",
                ],
                cursor: Pos { x: 7, y: 0 },
                command_budget: 58,
                timer_seconds: Some(180),
            },
        ),
        required_to_unlock_next: true,
    };
    assert(level@ =~= LevelView::broken_build_bay());
    level
}

fn undo_lab() -> (level: Level)
    ensures
        level@ == LevelView::undo_lab(),
{
    let level: Level = Level {
        id: "3-3".to_string(),
        title: "Undo Lab",
        lesson: 3,
        kind: LevelKind::Edit(
            EditSpec {
                start: vec![
                    "let target = \"wrong\";",
                    "let backup = \"right\";",
                ],
                expected: vec![
                    "let target = \"right\";",
                    "let backup = \"right\";",
                ],
                cursor: Pos { x: 14, y: 0 },
                command_budget: 38,
                timer_seconds: None,
            },
        ),
        required_to_unlock_next: false,
    };
    assert(level@ =~= LevelView::undo_lab());
    level
}

/// Lesson one.
pub fn lesson_one() -> (lesson: Lesson)
    ensures
        lesson@ == LessonView::one(),
{
    let lesson: Lesson = Lesson {
        number: 1,
        title: "Lava Escape: Cursor Motions",
        commands: CommandSet::for_lesson(1),
        levels: vec![warm_floor(), count_crates(), rising_lava_vault(), ember_sprint()],
    };
    assert(lesson@ =~= LessonView::one());
    lesson
}

/// Lesson two.
pub fn lesson_two() -> (lesson: Lesson)
    ensures
        lesson@ == LessonView::two(),
{
    let lesson: Lesson = Lesson {
        number: 2,
        title: "Word Rails: Code Navigation",
        commands: CommandSet::for_lesson(2),
        levels: vec![token_tracks(), symbol_switchyard(), refactor_route(), stack_trace_chase()],
    };
    assert(lesson@ =~= LessonView::two());
    lesson
}

/// Lesson three.
pub fn lesson_three() -> (lesson: Lesson)
    ensures
        lesson@ == LessonView::three(),
{
    let lesson: Lesson = Lesson {
        number: 3,
        title: "Code Surgery: Basic Editing",
        commands: CommandSet::for_lesson(3),
        levels: vec![first_patch(), bug_clinic(), broken_build_bay(), undo_lab()],
    };
    assert(lesson@ =~= LessonView::three());
    lesson
}

} // verus!

//! What holds of the catalogue as a whole: no level is impossible from the start, and
//! the lessons open one after the other.

use crate::catalog;
use crate::catalog::CatalogView;
use crate::edit::EditView;
use crate::grid::GridView;
use crate::level::{GridSpec, LevelKindView, LevelView, TokenSpecView};
use crate::pos::Pos;
use crate::progress::ProgressView;
use crate::reach;
use crate::rng;
use crate::token;
use crate::token::TokenView;
use vstd::prelude::*;

verus! {

/// Floor leads from the player of a grid level to its goal.
pub open spec fn goal_in_reach(level: LevelView, seed: u64) -> bool {
    level.kind matches LevelKindView::Grid(spec) ==> {
        let grid = GridView::of_spec(spec, seed);
        reach::connected(grid.tiles, grid.player, grid.goal)
    }
}

/// Every target of a token level is a character of its text.
pub open spec fn targets_in_text(level: LevelView, seed: u64) -> bool {
    level.kind matches LevelKindView::Token(spec) ==> {
        let token = TokenView::of_spec(spec, seed);
        forall|i: int|
            0 <= i < token.targets.len() ==> (#[trigger] token.targets[i]).y < token.lines.len()
                && token.targets[i].x < token.lines[token.targets[i].y as int].len()
    }
}

/// An edit level asks for a text, and for another one than it starts with.
pub open spec fn has_work(level: LevelView) -> bool {
    level.kind matches LevelKindView::Edit(spec) ==> {
        let edit = EditView::of_spec(spec);
        edit.lines != edit.expected && edit.expected.len() > 0
    }
}

/// Whatever the seed, the goal of every grid level can be reached.
pub proof fn every_goal_can_be_reached(seed: u64)
    ensures
        forall|i: int|
            0 <= i < CatalogView::full().levels().len() ==> goal_in_reach(
                #[trigger] CatalogView::full().levels()[i],
                seed,
            ),
{
    catalog::levels_in_order();
    let levels = CatalogView::full().levels();
    assert forall|i: int| 0 <= i < levels.len() implies goal_in_reach(
        #[trigger] levels[i],
        seed,
    ) by {
        match levels[i].kind {
            LevelKindView::Grid(spec) => {
                if spec.generated {
                    reach::generated_goal_is_reachable(spec, seed);
                } else {
                    reach::tutorial_goal_is_reachable(spec, seed);
                }
            },
            _ => {},
        }
    }
}

/// Endings only make lines longer.
proof fn lemma_lines_grow(spec: TokenSpecView, seed: u64)
    ensures
        ({
            let token = TokenView::of_spec(spec, seed);
            &&& token.targets == token::target_positions(spec.targets)
            &&& token.lines.len() == spec.lines.len()
            &&& forall|y: int|
                0 <= y < spec.lines.len() ==> (#[trigger] token.lines[y]).len()
                    >= spec.lines[y].len()
            &&& spec.generated && rng::first_state(seed) % 2 == 1 && spec.lines.len() > 0
                ==> token.lines[0].len() >= spec.lines[0].len() + 3
        }),
{
    let lines = TokenView::of_spec(spec, seed).lines;
    if spec.generated {
        assert forall|y: int| 0 <= y < spec.lines.len() implies (#[trigger] lines[y]).len()
            >= spec.lines[y].len() by {
            token::decorating_appends(spec.lines, seed, y);
        }
        if spec.lines.len() > 0 {
            token::decorating_appends(spec.lines, seed, 0);
            token::which_lines_are_decorated(seed, 0);
        }
    }
}

/// Every target of every token level is a character of its text, whatever the seed.
/// The one exception is level 2-3: one of its targets lies in the ending that the first
/// line gets only where the seed is odd or zero.
pub proof fn every_target_is_in_the_text(seed: u64)
    ensures
        forall|i: int|
            0 <= i < CatalogView::full().levels().len() && (
            CatalogView::full().levels()[i].id != "2-3"@ || seed == 0 || seed % 2 == 1)
                ==> targets_in_text(#[trigger] CatalogView::full().levels()[i], seed),
{
    catalog::levels_in_order();
    let levels = CatalogView::full().levels();
    reveal_strlit("let courier_patch = old_bug.fix();");
    reveal_strlit("let route = courier_patch.next_stop();");
    reveal_strlit("dispatch(route);");
    reveal_strlit("route.alpha_beta.map(|fix| fix.apply())");
    reveal_strlit("packet.queue[fix.index()].seal();");
    reveal_strlit("fn deliver_patch(queue: &mut Vec<Job>) {");
    reveal_strlit("    queue.iter_mut().for_each(|job| job.fix());");
    reveal_strlit("    report_status(queue.len());");
    reveal_strlit("}");
    reveal_strlit("panic: patch lost at src/courier.rs:42");
    reveal_strlit("  at deliver::route::vault");
    reveal_strlit("  at main::dispatch");
    reveal_strlit("  at runtime::wake_terminal");
    assert forall|i: int|
        0 <= i < levels.len() && (levels[i].id != "2-3"@ || seed == 0 || seed % 2
            == 1) implies targets_in_text(#[trigger] levels[i], seed) by {
        match levels[i].kind {
            LevelKindView::Token(spec) => {
                lemma_lines_grow(spec, seed);
            },
            _ => {},
        }
    }
}

/// Every edit level asks for a text, and for another one than it starts with.
pub proof fn every_edit_level_has_work()
    ensures
        forall|i: int|
            0 <= i < CatalogView::full().levels().len() ==> has_work(
                #[trigger] CatalogView::full().levels()[i],
            ),
{
    catalog::levels_in_order();
    let levels = CatalogView::full().levels();
    reveal_strlit("    let mesage = \"ship\";");
    reveal_strlit("    let message = \"ship\";");
    reveal_strlit("    retun patch.count()");
    reveal_strlit("    return patch.count()");
    reveal_strlit("fn mainn() {");
    reveal_strlit("fn main() {");
    reveal_strlit("let target = \"wrong\";");
    reveal_strlit("let target = \"right\";");
    assert forall|i: int| 0 <= i < levels.len() implies has_work(#[trigger] levels[i]) by {
        match levels[i].kind {
            LevelKindView::Edit(spec) => {
                if i == 8 || i == 9 {
                    assert(spec.start[1].len() != spec.expected[1].len());
                } else if i == 10 {
                    assert(spec.start[0].len() != spec.expected[0].len());
                } else {
                    assert(spec.start[0][14] != spec.expected[0][14]);
                }
            },
            _ => {},
        }
    }
}

/// No two levels share an identifier, so looking one up gives that very level.
pub proof fn identifiers_are_unique()
    ensures
        forall|i: int, j: int|
            0 <= i < j < CatalogView::full().levels().len() ==> (
            #[trigger] CatalogView::full().levels()[i]).id != (
            #[trigger] CatalogView::full().levels()[j]).id,
        forall|i: int|
            0 <= i < CatalogView::full().levels().len() ==> CatalogView::full().find(
                (#[trigger] CatalogView::full().levels()[i]).id,
            ) == Some(CatalogView::full().levels()[i]),
{
    catalog::levels_in_order();
    let levels = CatalogView::full().levels();
    lemma_identifiers();
    assert forall|i: int, j: int| 0 <= i < j < levels.len() implies (#[trigger] levels[i]).id != (
    #[trigger] levels[j]).id by {
        assert(levels[i].id[0] != levels[j].id[0] || levels[i].id[2] != levels[j].id[2]);
    }
    assert forall|i: int| 0 <= i < levels.len() implies CatalogView::full().find(
        (#[trigger] levels[i]).id,
    ) == Some(levels[i]) by {
        catalog::lookup_finds_what_is_there(CatalogView::full(), levels[i].id);
    }
}

/// What the identifiers hold: the number of the lesson, and that of the level in it.
proof fn lemma_identifiers()
    ensures
        "1-0"@ == seq!['1', '-', '0'],
        "1-1"@ == seq!['1', '-', '1'],
        "1-2"@ == seq!['1', '-', '2'],
        "1-3"@ == seq!['1', '-', '3'],
        "2-0"@ == seq!['2', '-', '0'],
        "2-1"@ == seq!['2', '-', '1'],
        "2-2"@ == seq!['2', '-', '2'],
        "2-3"@ == seq!['2', '-', '3'],
        "3-0"@ == seq!['3', '-', '0'],
        "3-1"@ == seq!['3', '-', '1'],
        "3-2"@ == seq!['3', '-', '2'],
        "3-3"@ == seq!['3', '-', '3'],
        "1-"@ == seq!['1', '-'],
        "2-"@ == seq!['2', '-'],
        "3-"@ == seq!['3', '-'],
{
    reveal_strlit("1-0");
    reveal_strlit("1-1");
    reveal_strlit("1-2");
    reveal_strlit("1-3");
    reveal_strlit("2-0");
    reveal_strlit("2-1");
    reveal_strlit("2-2");
    reveal_strlit("2-3");
    reveal_strlit("3-0");
    reveal_strlit("3-1");
    reveal_strlit("3-2");
    reveal_strlit("3-3");
    reveal_strlit("1-");
    reveal_strlit("2-");
    reveal_strlit("3-");
}

/// A level can be played with the first lesson, or once the level that stands for
/// the lesson before its own has been cleared.
pub proof fn levels_open_with_their_lesson(progress: ProgressView)
    ensures
        forall|i: int|
            0 <= i < CatalogView::full().levels().len() ==> (progress.unlocked(
                (#[trigger] CatalogView::full().levels()[i]).id,
            ) <==> match CatalogView::full().levels()[i].lesson {
                1 => true,
                2 => progress.cleared("1-2"@),
                _ => progress.cleared("2-2"@),
            }),
{
    catalog::levels_in_order();
    lemma_identifiers();
    let levels = CatalogView::full().levels();
    assert forall|i: int| 0 <= i < levels.len() implies (progress.unlocked(
        (#[trigger] levels[i]).id,
    ) <==> match levels[i].lesson {
        1 => true,
        2 => progress.cleared("1-2"@),
        _ => progress.cleared("2-2"@),
    }) by {
        let id = levels[i].id;
        assert("1-"@.is_prefix_of(id) == (id[0] == '1')) by {
            assert("1-"@ =~= id.subrange(0, 2) || id[0] != '1');
        }
        assert("2-"@.is_prefix_of(id) == (id[0] == '2')) by {
            assert("2-"@ =~= id.subrange(0, 2) || id[0] != '2');
        }
        assert("3-"@.is_prefix_of(id) == (id[0] == '3')) by {
            assert("3-"@ =~= id.subrange(0, 2) || id[0] != '3');
        }
    }
}

/// Clearing the level that a lesson marks as required makes every level of the next
/// lesson playable.
pub proof fn required_levels_open_the_next_lesson(
    progress: ProgressView,
    time_ms: u128,
    commands: usize,
)
    ensures
        forall|i: int, j: int|
            0 <= i < CatalogView::full().levels().len() && 0 <= j
                < CatalogView::full().levels().len() && (
            #[trigger] CatalogView::full().levels()[i]).required_to_unlock_next && (
            #[trigger] CatalogView::full().levels()[j]).lesson
                == CatalogView::full().levels()[i].lesson + 1 ==> progress.recorded(
                CatalogView::full().levels()[i].id,
                time_ms,
                commands,
            ).unlocked(CatalogView::full().levels()[j].id),
{
    catalog::levels_in_order();
    let levels = CatalogView::full().levels();
    assert forall|i: int, j: int|
        0 <= i < levels.len() && 0 <= j < levels.len() && (
        #[trigger] levels[i]).required_to_unlock_next && (#[trigger] levels[j]).lesson
            == levels[i].lesson + 1 implies progress.recorded(
        levels[i].id,
        time_ms,
        commands,
    ).unlocked(levels[j].id) by {
        levels_open_with_their_lesson(progress.recorded(levels[i].id, time_ms, commands));
    }
}

/// A lesson teaches its own vocabulary, and its levels are played with it.
pub proof fn lessons_share_a_vocabulary()
    ensures
        forall|l: int, i: int|
            #![trigger CatalogView::full().lessons[l].levels[i]]
            0 <= l < CatalogView::full().lessons.len() && 0 <= i
                < CatalogView::full().lessons[l].levels.len() ==> {
                let lesson = CatalogView::full().lessons[l];
                &&& lesson.number == l + 1
                &&& lesson.commands.lesson == lesson.number
                &&& lesson.levels[i].lesson == lesson.number
            },
{
}

/// The grids of lesson one: how large they are, where they start and lead, how many commands
/// the player has, and how fast the lava rises.
pub proof fn the_grids_of_lesson_one()
    ensures
        LevelView::warm_floor().kind == LevelKindView::Grid(
            GridSpec {
                width: 25,
                height: 11,
                start: Pos { x: 2, y: 9 },
                goal: Pos { x: 22, y: 1 },
                command_budget: 34,
                lava: false,
                lava_interval_ms: None,
                generated: false,
                mastery: false,
            },
        ),
        LevelView::count_crates().kind == LevelKindView::Grid(
            GridSpec {
                width: 33,
                height: 13,
                start: Pos { x: 2, y: 6 },
                goal: Pos { x: 30, y: 6 },
                command_budget: 12,
                lava: false,
                lava_interval_ms: None,
                generated: true,
                mastery: false,
            },
        ),
        LevelView::rising_lava_vault().kind == LevelKindView::Grid(
            GridSpec {
                width: 43,
                height: 23,
                start: Pos { x: 2, y: 20 },
                goal: Pos { x: 40, y: 1 },
                command_budget: 38,
                lava: true,
                lava_interval_ms: Some(3_400),
                generated: true,
                mastery: false,
            },
        ),
        LevelView::ember_sprint().kind == LevelKindView::Grid(
            GridSpec {
                width: 57,
                height: 29,
                start: Pos { x: 2, y: 26 },
                goal: Pos { x: 54, y: 1 },
                command_budget: 48,
                lava: true,
                lava_interval_ms: Some(2_700),
                generated: true,
                mastery: true,
            },
        ),
{
}

/// The texts of lesson two: how long their lines are, where the targets lie, and how many
/// commands and how much time the player has.
pub proof fn the_texts_of_lesson_two()
    ensures
        LevelView::token_tracks().kind matches LevelKindView::Token(spec) && {
            &&& spec.lines.len() == 3
            &&& spec.lines[0].len() == 34
            &&& spec.lines[1].len() == 38
            &&& spec.lines[2].len() == 16
            &&& spec.targets == seq![
                (0usize, 4usize),
                (0usize, 18usize),
                (0usize, 28usize),
                (1usize, 12usize),
                (2usize, 0usize),
            ]
            &&& spec.command_budget == 18
            &&& spec.timer_seconds == None::<u64>
            &&& spec.generated == false
        },
        LevelView::symbol_switchyard().kind matches LevelKindView::Token(spec) && {
            &&& spec.lines.len() == 2
            &&& spec.lines[0].len() == 39
            &&& spec.lines[1].len() == 33
            &&& spec.targets == seq![
                (0usize, 6usize),
                (0usize, 17usize),
                (0usize, 28usize),
                (0usize, 37usize),
                (1usize, 7usize),
                (1usize, 20usize),
            ]
            &&& spec.command_budget == 20
            &&& spec.timer_seconds == None::<u64>
            &&& spec.generated == true
        },
        LevelView::refactor_route().kind matches LevelKindView::Token(spec) && {
            &&& spec.lines.len() == 4
            &&& spec.lines[0].len() == 40
            &&& spec.lines[1].len() == 47
            &&& spec.lines[2].len() == 31
            &&& spec.lines[3].len() == 1
            &&& spec.targets == seq![
                (0usize, 3usize),
                (0usize, 17usize),
                (1usize, 10usize),
                (1usize, 32usize),
                (1usize, 42usize),
                (2usize, 4usize),
                (2usize, 18usize),
            ]
            &&& spec.command_budget == 28
            &&& spec.timer_seconds == None::<u64>
            &&& spec.generated == true
        },
        LevelView::stack_trace_chase().kind matches LevelKindView::Token(spec) && {
            &&& spec.lines.len() == 4
            &&& spec.lines[0].len() == 38
            &&& spec.lines[1].len() == 26
            &&& spec.lines[2].len() == 19
            &&& spec.lines[3].len() == 27
            &&& spec.targets == seq![
                (0usize, 7usize),
                (0usize, 24usize),
                (0usize, 39usize),
                (1usize, 5usize),
                (1usize, 20usize),
                (2usize, 6usize),
                (3usize, 15usize),
            ]
            &&& spec.command_budget == 30
            &&& spec.timer_seconds == Some(75u64)
            &&& spec.generated == true
        },
{
    reveal_strlit("    queue.iter_mut().for_each(|job| job.fix());");
    reveal_strlit("    report_status(queue.len());");
    reveal_strlit("  at deliver::route::vault");
    reveal_strlit("  at main::dispatch");
    reveal_strlit("  at runtime::wake_terminal");
    reveal_strlit("dispatch(route);");
    reveal_strlit("fn deliver_patch(queue: &mut Vec<Job>) {");
    reveal_strlit("let courier_patch = old_bug.fix();");
    reveal_strlit("let route = courier_patch.next_stop();");
    reveal_strlit("packet.queue[fix.index()].seal();");
    reveal_strlit("panic: patch lost at src/courier.rs:42");
    reveal_strlit("route.alpha_beta.map(|fix| fix.apply())");
    reveal_strlit("}");
}

/// The repairs of lesson three: which characters of which lines are to be replaced, put in or
/// taken out, where the cursor starts, and how many commands and how much time the player has.
pub proof fn the_repairs_of_lesson_three()
    ensures
        LevelView::first_patch().kind matches LevelKindView::Edit(spec) && {
            &&& spec.start.len() == 4 && spec.expected.len() == 4
            &&& spec.expected[0] == spec.start[0]
            &&& spec.start[1].len() == 24
            &&& spec.expected[1] == spec.start[1].take(11) + seq!['s'] + spec.start[1].skip(11)
            &&& spec.start[2].len() == 26
            &&& spec.expected[2] == spec.start[2].take(14) + spec.start[2].skip(19)
            &&& spec.expected[3] == spec.start[3]
            &&& spec.cursor == (Pos { x: 10, y: 1 })
            &&& spec.command_budget == 42
            &&& spec.timer_seconds == None::<u64>
        },
        LevelView::bug_clinic().kind matches LevelKindView::Edit(spec) && {
            &&& spec.start.len() == 4 && spec.expected.len() == 4
            &&& spec.expected[0] == spec.start[0]
            &&& spec.start[1].len() == 23
            &&& spec.expected[1] == spec.start[1].take(8) + seq!['r'] + spec.start[1].skip(8)
            &&& spec.expected[2] == spec.start[2]
            &&& spec.start[3].len() == 19
            &&& spec.expected[3] == spec.start[3].take(16) + spec.start[3].skip(17)
            &&& spec.cursor == (Pos { x: 8, y: 1 })
            &&& spec.command_budget == 46
            &&& spec.timer_seconds == None::<u64>
        },
        LevelView::broken_build_bay().kind matches LevelKindView::Edit(spec) && {
            &&& spec.start.len() == 5 && spec.expected.len() == 5
            &&& spec.start[0].len() == 12
            &&& spec.expected[0] == spec.start[0].take(7) + spec.start[0].skip(8)
            &&& spec.start[1].len() == 24
            &&& spec.expected[1] == spec.start[1].take(6) + seq!['i', 'n'] + spec.start[1].skip(8)
            &&& spec.start[2].len() == 31
            &&& spec.expected[2] == spec.start[2].take(8) + spec.start[2].skip(19)
            &&& spec.start[3].len() == 20
            &&& spec.expected[3] == spec.start[3].take(16) + spec.start[3].skip(17)
            &&& spec.expected[4] == spec.start[4]
            &&& spec.cursor == (Pos { x: 7, y: 0 })
            &&& spec.command_budget == 58
            &&& spec.timer_seconds == Some(180u64)
        },
        LevelView::undo_lab().kind matches LevelKindView::Edit(spec) && {
            &&& spec.start.len() == 2 && spec.expected.len() == 2
            &&& spec.start[0].len() == 21
            &&& spec.expected[0] == spec.start[0].take(14) + seq!['r', 'i', 'g', 'h', 't'] + spec.start[0].skip(19)
            &&& spec.expected[1] == spec.start[1]
            &&& spec.cursor == (Pos { x: 14, y: 0 })
            &&& spec.command_budget == 38
            &&& spec.timer_seconds == None::<u64>
        },
{
    reveal_strlit("    dispatch_now();");
    reveal_strlit("    dispatch_noww();");
    reveal_strlit("    let extra = true;");
    reveal_strlit("    let extra word = true;");
    reveal_strlit("    let flag = true;");
    reveal_strlit("    let mesage = \"ship\";");
    reveal_strlit("    let message = \"ship\";");
    reveal_strlit("    let stale_word flag = true;");
    reveal_strlit("    println!(\"patched\");");
    reveal_strlit("    prnitln!(\"patched\");");
    reveal_strlit("    retun patch.count()");
    reveal_strlit("    return patch.count()");
    reveal_strlit("fn main() {");
    reveal_strlit("fn mainn() {");
    reveal_strlit("let mode = \"slow\";");
    reveal_strlit("let mode = \"sloww\";");
    reveal_strlit("let target = \"right\";");
    reveal_strlit("let target = \"wrong\";");
    let first_patch = LevelView::first_patch().kind->Edit_0;
    assert(first_patch.expected[1] =~= first_patch.start[1].take(11) + seq!['s'] + first_patch.start[1].skip(11));
    assert(first_patch.expected[2] =~= first_patch.start[2].take(14) + first_patch.start[2].skip(19));
    let bug_clinic = LevelView::bug_clinic().kind->Edit_0;
    assert(bug_clinic.expected[1] =~= bug_clinic.start[1].take(8) + seq!['r'] + bug_clinic.start[1].skip(8));
    assert(bug_clinic.expected[3] =~= bug_clinic.start[3].take(16) + bug_clinic.start[3].skip(17));
    let broken_build_bay = LevelView::broken_build_bay().kind->Edit_0;
    assert(broken_build_bay.expected[0] =~= broken_build_bay.start[0].take(7) + broken_build_bay.start[0].skip(8));
    assert(broken_build_bay.expected[1] =~= broken_build_bay.start[1].take(6) + seq!['i', 'n'] + broken_build_bay.start[1].skip(8));
    assert(broken_build_bay.expected[2] =~= broken_build_bay.start[2].take(8) + broken_build_bay.start[2].skip(19));
    assert(broken_build_bay.expected[3] =~= broken_build_bay.start[3].take(16) + broken_build_bay.start[3].skip(17));
    let undo_lab = LevelView::undo_lab().kind->Edit_0;
    assert(undo_lab.expected[0] =~= undo_lab.start[0].take(14) + seq!['r', 'i', 'g', 'h', 't'] + undo_lab.start[0].skip(19));
}

/// The catalogue has three lessons of four levels. A level is called by the number of its
/// lesson and its place in it, counted from nought; the third of each lesson is the one that
/// opens the next, and lesson one is played on grids, lesson two in tokens and lesson three
/// in edits.
pub proof fn levels_are_called_by_lesson_and_place(lesson: int, place: int)
    requires
        1 <= lesson <= 3,
        0 <= place <= 3,
    ensures
        ({
            let catalog = CatalogView::full();
            let level = catalog.levels()[4 * (lesson - 1) + place];
            &&& catalog.lessons.len() == 3
            &&& catalog.levels().len() == 12
            &&& catalog.lessons[lesson - 1].number == lesson
            &&& catalog.lessons[lesson - 1].commands.lesson == lesson
            &&& catalog.lessons[lesson - 1].levels.len() == 4
            &&& catalog.lessons[lesson - 1].levels[place] == level
            &&& level.lesson == lesson
            &&& level.id == seq![('0' as int + lesson) as char, '-', ('0' as int + place) as char]
            &&& level.required_to_unlock_next <==> place == 2
            &&& level.kind is Grid <==> lesson == 1
            &&& level.kind is Token <==> lesson == 2
            &&& level.kind is Edit <==> lesson == 3
        }),
{
    catalog::levels_in_order();
    reveal_strlit("1-0");
    reveal_strlit("1-1");
    reveal_strlit("1-2");
    reveal_strlit("1-3");
    reveal_strlit("2-0");
    reveal_strlit("2-1");
    reveal_strlit("2-2");
    reveal_strlit("2-3");
    reveal_strlit("3-0");
    reveal_strlit("3-1");
    reveal_strlit("3-2");
    reveal_strlit("3-3");
    let level = CatalogView::full().levels()[4 * (lesson - 1) + place];
    assert(level.id =~= seq![('0' as int + lesson) as char, '-', ('0' as int + place) as char]);
}

/// The lessons and levels have these titles.
pub proof fn levels_have_titles()
    ensures
        ({
            let levels = CatalogView::full().levels();
            let lessons = CatalogView::full().lessons;
            &&& lessons[0].title == "Lava Escape: Cursor Motions"@
            &&& lessons[1].title == "Word Rails: Code Navigation"@
            &&& lessons[2].title == "Code Surgery: Basic Editing"@
            &&& levels[0].title == "Tutorial: The Warm Floor"@
            &&& levels[1].title == "Count Crates"@
            &&& levels[2].title == "Rising Lava Vault"@
            &&& levels[3].title == "Ember Sprint"@
            &&& levels[4].title == "Tutorial: Token Tracks"@
            &&& levels[5].title == "Symbol Switchyard"@
            &&& levels[6].title == "Refactor Route"@
            &&& levels[7].title == "Stack Trace Chase"@
            &&& levels[8].title == "Tutorial: First Patch"@
            &&& levels[9].title == "Bug Clinic"@
            &&& levels[10].title == "Broken Build Bay"@
            &&& levels[11].title == "Undo Lab"@
        }),
{
    catalog::levels_in_order();
}

} // verus!

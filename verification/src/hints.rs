//! Hints: what a defeated player could have typed instead.

use crate::command;
use crate::command::{CommandSet, MotionKind, ParsedCommand};
use crate::edit::{EditState, EditView};
use crate::text;
use vstd::prelude::*;

verus! {

/// How many equal moves in a row end with move number `i`.
pub open spec fn run_ending_at(moves: Seq<MotionKind>, i: int) -> nat
    decreases i,
{
    if 0 < i < moves.len() && moves[i] == moves[i - 1] {
        run_ending_at(moves, i - 1) + 1
    } else {
        1
    }
}

/// The longest run of equal moves among the first `n`, and its length; of runs of
/// one length, the first.
pub open spec fn longest_run(moves: Seq<MotionKind>, n: int) -> Option<(MotionKind, nat)>
    decreases n,
{
    if n <= 0 {
        None
    } else {
        let run = run_ending_at(moves, n - 1);
        match longest_run(moves, n - 1) {
            Some((kind, len)) if run <= len => Some((kind, len)),
            _ => Some((moves[n - 1], run)),
        }
    }
}

/// The key of a motion that takes a count well.
pub open spec fn count_key(kind: MotionKind) -> Seq<char> {
    match kind {
        MotionKind::Left => "h"@,
        MotionKind::Down => "j"@,
        MotionKind::Up => "k"@,
        MotionKind::Right => "l"@,
        _ => "?"@,
    }
}

/// The hint to put a count before a key that was typed over and over.
pub open spec fn count_hint(moves: Seq<MotionKind>) -> Option<Seq<char>> {
    match longest_run(moves, moves.len() as int) {
        Some((kind, len)) if len >= 3 => Some(
            "You repeated `"@ + count_key(kind) + "` "@ + text::decimal(len) + " times. Try `"@
                + text::decimal(len) + count_key(kind) + "` as one command."@,
        ),
        _ => None,
    }
}

/// How many of the commands are a bare `h` or `l`.
pub open spec fn crawling_steps(history: Seq<Seq<char>>) -> nat
    decreases history.len(),
{
    if history.len() == 0 {
        0
    } else {
        let command = history.last();
        crawling_steps(history.drop_last()) + (if command == "h"@ || command == "l"@ {
            1nat
        } else {
            0nat
        })
    }
}

/// The hint to use word motions in place of crawling.
pub open spec fn word_hint(history: Seq<Seq<char>>) -> Option<Seq<char>> {
    if crawling_steps(history) >= 5 {
        Some("You crossed token text with h/l. Try `w`, `e`, `b`, or `ge` for code-token jumps."@)
    } else {
        None
    }
}

/// The hint to compare the text with the target.
pub open spec fn edit_hint(edit: EditView) -> Option<Seq<char>> {
    if edit.matches_target() {
        None
    } else {
        Some(
            "Compare the buffer to the target: `x`, `r<char>`, `dw`, `cw`, `dd`, and `u` are available here."@,
        )
    }
}

/// What an optional message says.
pub open spec fn message_view(message: Option<String>) -> Option<Seq<char>> {
    match message {
        Some(message) => Some(message@),
        None => None,
    }
}

/// The hint to put a count before a key that was typed over and over.
pub fn hint_for_counts(moves: &[MotionKind]) -> (hint: Option<String>)
    ensures
        message_view(hint) == count_hint(moves@),
{
    let mut best: Option<(MotionKind, usize)> = None;
    let mut current: usize = 0;
    let mut i: usize = 0;
    while i < moves.len()
        invariant
            i <= moves@.len(),
            current <= i,
            i > 0 ==> current == run_ending_at(moves@, i - 1),
            match best {
                Some((kind, len)) => longest_run(moves@, i as int) == Some((kind, len as nat)),
                None => longest_run(moves@, i as int) is None,
            },
        decreases moves@.len() - i,
    {
        let kind: MotionKind = moves[i];
        current = if i > 0 && moves[i - 1] == kind {
            current + 1
        } else {
            1
        };
        let longer: bool = match best {
            Some((_, len)) => current > len,
            None => true,
        };
        if longer {
            best = Some((kind, current));
        }
        i += 1;
    }
    match best {
        Some((kind, len)) if len >= 3 => {
            let key: &'static str = match kind {
                MotionKind::Left => "h",
                MotionKind::Down => "j",
                MotionKind::Up => "k",
                MotionKind::Right => "l",
                _ => "?",
            };
            let mut hint: String = String::new();
            hint.append("You repeated `");
            hint.append(key);
            hint.append("` ");
            text::push_decimal(&mut hint, len);
            hint.append(" times. Try `");
            text::push_decimal(&mut hint, len);
            hint.append(key);
            hint.append("` as one command.");
            assert(hint@ =~= count_hint(moves@)->0);
            Some(hint)
        },
        _ => None,
    }
}

/// The hint to use word motions in place of crawling.
pub fn hint_for_words(history: &[String]) -> (hint: Option<String>)
    ensures
        message_view(hint) == word_hint(text::lines_view(history@)),
{
    let ghost commands = text::lines_view(history@);
    let mut steps: usize = 0;
    let mut i: usize = 0;
    assert(commands.take(0).len() == 0);
    while i < history.len()
        invariant
            i <= history@.len(),
            steps <= i,
            commands == text::lines_view(history@),
            steps == crawling_steps(commands.take(i as int)),
        decreases history@.len() - i,
    {
        let command: &str = history[i].as_str();
        assert(commands.take(i + 1).drop_last() =~= commands.take(i as int));
        if text::same_text(command, "h") || text::same_text(command, "l") {
            steps += 1;
        }
        i += 1;
    }
    assert(commands.take(i as int) =~= commands);
    if steps >= 5 {
        Some(
            "You crossed token text with h/l. Try `w`, `e`, `b`, or `ge` for code-token jumps.".to_string(),
        )
    } else {
        None
    }
}

/// The hint to compare the text with the target.
pub fn hint_for_edits(edit: &EditState) -> (hint: Option<String>)
    ensures
        message_view(hint) == edit_hint(edit@),
{
    if text::same_lines(&edit.lines, &edit.expected) {
        return None;
    }
    Some(
        "Compare the buffer to the target: `x`, `r<char>`, `dw`, `cw`, `dd`, and `u` are available here.".to_string(),
    )
}

/// The run that the hint speaks of is a longest one, and the first of those.
pub proof fn longest_run_is_longest(moves: Seq<MotionKind>, n: int)
    requires
        0 <= n <= moves.len(),
    ensures
        match longest_run(moves, n) {
            Some((kind, len)) => {
                &&& n > 0
                &&& exists|i: int|
                    0 <= i < n && #[trigger] run_ending_at(moves, i) == len && moves[i] == kind && (
                    forall|j: int| 0 <= j < i ==> #[trigger] run_ending_at(moves, j) < len)
                &&& forall|i: int| 0 <= i < n ==> #[trigger] run_ending_at(moves, i) <= len
            },
            None => n == 0,
        },
    decreases n,
{
    if n > 0 {
        longest_run_is_longest(moves, n - 1);
        assert(run_ending_at(moves, n - 1) >= 0);
    }
}

/// A hint that names a key of `h`, `j`, `k` and `l` names a command of every lesson, which
/// makes the repeated motion as often as it was repeated.
pub proof fn hinted_counts_are_commands(moves: Seq<MotionKind>, commands: CommandSet)
    requires
        moves.len() <= usize::MAX,
    ensures
        longest_run(moves, moves.len() as int) matches Some((kind, len)) ==> {
            &&& 1 <= len <= moves.len()
            &&& kind is Left || kind is Down || kind is Up || kind is Right ==> command::parsed(
                text::decimal(len) + count_key(kind),
                commands,
            ) == Some(ParsedCommand::Motion(kind, len as usize))
        },
{
    longest_run_is_longest(moves, moves.len() as int);
    match longest_run(moves, moves.len() as int) {
        Some((kind, len)) => {
            let i = choose|i: int|
                0 <= i < moves.len() && #[trigger] run_ending_at(moves, i) == len && moves[i]
                    == kind;
            lemma_run_bound(moves, i);
            if kind is Left || kind is Down || kind is Up || kind is Right {
                command::counts_are_read_back(kind, len as usize, commands);
            }
        },
        None => {},
    }
}

proof fn lemma_run_bound(moves: Seq<MotionKind>, i: int)
    requires
        0 <= i,
    ensures
        1 <= run_ending_at(moves, i) <= i + 1,
    decreases i,
{
    if 0 < i < moves.len() && moves[i] == moves[i - 1] {
        lemma_run_bound(moves, i - 1);
    }
}

proof fn lemma_window_run(moves: Seq<MotionKind>, start: int, len: int)
    requires
        0 <= start,
        1 <= len,
        start + len <= moves.len(),
        forall|j: int| start <= j < start + len ==> #[trigger] moves[j] == moves[start],
    ensures
        run_ending_at(moves, start + len - 1) >= len,
    decreases len,
{
    if len > 1 {
        lemma_window_run(moves, start, len - 1);
        assert(moves[start + len - 1] == moves[start + len - 2]);
    }
}

proof fn lemma_run_window(moves: Seq<MotionKind>, i: int)
    requires
        0 <= i < moves.len(),
    ensures
        1 <= run_ending_at(moves, i) <= i + 1,
        forall|j: int|
            i - run_ending_at(moves, i) < j <= i ==> #[trigger] moves[j] == moves[i],
    decreases i,
{
    if 0 < i && moves[i] == moves[i - 1] {
        lemma_run_window(moves, i - 1);
        assert forall|j: int| i - run_ending_at(moves, i) < j <= i implies #[trigger] moves[j]
            == moves[i] by {
            if j < i {
                assert(moves[j] == moves[i - 1]);
            }
        }
    }
}

/// The `len` moves from number `start` on are all of one kind.
pub open spec fn run_from(moves: Seq<MotionKind>, start: int, len: nat, kind: MotionKind) -> bool {
    &&& 0 <= start && start + len <= moves.len()
    &&& forall|j: int| start <= j < start + len ==> #[trigger] moves[j] == kind
}

/// The run that a hint names was really made, without a break.
pub proof fn the_hinted_run_was_made(moves: Seq<MotionKind>) -> (start: int)
    requires
        moves.len() > 0,
    ensures
        longest_run(moves, moves.len() as int) matches Some((kind, len)) && 1 <= len && run_from(
            moves,
            start,
            len,
            kind,
        ),
{
    let n = moves.len() as int;
    longest_run_is_longest(moves, n);
    let (kind, len) = longest_run(moves, n)->0;
    let i = choose|i: int|
        0 <= i < n && #[trigger] run_ending_at(moves, i) == len && moves[i] == kind && (forall|j: int|
            0 <= j < i ==> #[trigger] run_ending_at(moves, j) < len);
    lemma_run_window(moves, i);
    i - len + 1
}

/// Whoever makes the same motion so many times in a row is hinted at a run at least that
/// long; of runs of the same length it is the first.
pub proof fn no_run_is_overlooked(moves: Seq<MotionKind>, start: int, len: nat, kind: MotionKind)
    requires
        1 <= len,
        run_from(moves, start, len, kind),
    ensures
        longest_run(moves, moves.len() as int) matches Some((hinted, longest)) && longest >= len && (
        longest == len ==> exists|first: int|
            first <= start && #[trigger] run_from(moves, first, len, hinted)),
{
    let n = moves.len() as int;
    longest_run_is_longest(moves, n);
    lemma_window_run(moves, start, len as int);
    let (hinted, longest) = longest_run(moves, n)->0;
    let i = choose|i: int|
        0 <= i < n && #[trigger] run_ending_at(moves, i) == longest && moves[i] == hinted && (
        forall|j: int| 0 <= j < i ==> #[trigger] run_ending_at(moves, j) < longest);
    lemma_run_window(moves, i);
    assert(run_ending_at(moves, start + len - 1) >= len);
    if longest == len {
        assert(i <= start + len - 1);
        assert(run_from(moves, i - len + 1, len, hinted));
    }
}

/// A run of three or more is worth a hint, which names its key and its length; a shorter one
/// is not.
pub proof fn three_in_a_row_are_worth_a_hint(moves: Seq<MotionKind>)
    ensures
        moves.len() == 0 ==> count_hint(moves) is None,
        longest_run(moves, moves.len() as int) matches Some((kind, len)) ==> {
            let key = match kind {
                MotionKind::Left => "h"@,
                MotionKind::Down => "j"@,
                MotionKind::Up => "k"@,
                MotionKind::Right => "l"@,
                _ => "?"@,
            };
            &&& len < 3 ==> count_hint(moves) is None
            &&& len >= 3 ==> count_hint(moves) == Some(
                "You repeated `"@ + key + "` "@ + text::decimal(len) + " times. Try `"@
                    + text::decimal(len) + key + "` as one command."@,
            )
        },
{
}

proof fn lemma_crawling(history: Seq<Seq<char>>)
    ensures
        crawling_steps(history) == history.filter(|c: Seq<char>| c == "h"@ || c == "l"@).len(),
    decreases history.len(),
{
    reveal(Seq::filter);
    if history.len() > 0 {
        lemma_crawling(history.drop_last());
    }
}

/// Five or more commands of a bare `h` or `l` are worth the hint at word motions, wherever
/// they stand among the others; fewer are not.
pub proof fn crawling_is_worth_a_hint(history: Seq<Seq<char>>)
    ensures
        ({
            let crawled = history.filter(|c: Seq<char>| c == "h"@ || c == "l"@).len();
            &&& crawled < 5 ==> word_hint(history) is None
            &&& crawled >= 5 ==> word_hint(history) == Some(
                "You crossed token text with h/l. Try `w`, `e`, `b`, or `ge` for code-token jumps."@,
            )
        }),
{
    lemma_crawling(history);
}

/// A text that is not the one asked for is worth the hint at the edits; one that is, is not.
pub proof fn a_different_text_is_worth_a_hint(edit: EditView)
    ensures
        edit.lines == edit.expected ==> edit_hint(edit) is None,
        edit.lines != edit.expected ==> edit_hint(edit) == Some(
            "Compare the buffer to the target: `x`, `r<char>`, `dw`, `cw`, `dd`, and `u` are available here."@,
        ),
{
}

} // verus!

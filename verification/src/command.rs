//! The commands that a player can type, and the vocabulary of each lesson.

use crate::text;
use vstd::prelude::*;

verus! {

/// The commands that a lesson has taught.
#[derive(Debug, Clone, Copy, PartialEq, Eq, Structural)]
pub struct CommandSet {
    pub lesson: u8,
}

impl CommandSet {
    /// Whether word motions have been taught.
    pub open spec fn words_taught(self) -> bool {
        self.lesson >= 2
    }

    /// Whether editing has been taught.
    pub open spec fn edits_taught(self) -> bool {
        self.lesson >= 3
    }

    /// The vocabulary in one line.
    pub open spec fn help_text(self) -> Seq<char> {
        if self.lesson == 1 {
            "h j k l and counts: 3j, 5l"@
        } else if self.lesson == 2 {
            "h j k l counts plus w b e ge"@
        } else {
            "motions plus i a Esc x r<char> dw cw dd u"@
        }
    }

    /// The commands taught up to and with `lesson`.
    pub fn for_lesson(lesson: u8) -> (commands: Self)
        ensures
            commands.lesson == lesson,
    {
        Self { lesson }
    }

    /// Whether word motions are allowed.
    pub fn allows_word(self) -> (allowed: bool)
        ensures
            allowed == self.words_taught(),
    {
        self.lesson >= 2
    }

    /// Whether editing is allowed.
    pub fn allows_edit(self) -> (allowed: bool)
        ensures
            allowed == self.edits_taught(),
    {
        self.lesson >= 3
    }

    /// The vocabulary in one line.
    pub fn help(self) -> (line: &'static str)
        ensures
            line@ == self.help_text(),
    {
        if self.lesson == 1 {
            "h j k l and counts: 3j, 5l"
        } else if self.lesson == 2 {
            "h j k l counts plus w b e ge"
        } else {
            "motions plus i a Esc x r<char> dw cw dd u"
        }
    }
}

/// A cursor motion.
#[derive(Debug, Clone, Copy, PartialEq, Eq, Structural)]
pub enum MotionKind {
    Left,
    Down,
    Up,
    Right,
    WordForward,
    WordBackward,
    WordEndForward,
    WordEndBackward,
}

impl MotionKind {
    /// The keys that make the motion.
    pub open spec fn keys(self) -> Seq<char> {
        match self {
            MotionKind::Left => "h"@,
            MotionKind::Down => "j"@,
            MotionKind::Up => "k"@,
            MotionKind::Right => "l"@,
            MotionKind::WordForward => "w"@,
            MotionKind::WordBackward => "b"@,
            MotionKind::WordEndForward => "e"@,
            MotionKind::WordEndBackward => "ge"@,
        }
    }
}

/// What a typed command asks for.
#[derive(Debug, Clone, Copy, PartialEq, Eq, Structural)]
pub enum ParsedCommand {
    Motion(MotionKind, usize),
    InsertBefore,
    InsertAfter,
    Escape,
    DeleteChar,
    Replace(char),
    DeleteWord,
    ChangeWord,
    DeleteLine,
    Undo,
}

/// How many digits `s` begins with.
pub open spec fn leading_digits(s: Seq<char>) -> nat
    decreases s.len(),
{
    if s.len() > 0 && text::is_digit(s[0]) {
        1 + leading_digits(s.skip(1))
    } else {
        0
    }
}

/// The number that a run of digits writes out.
pub open spec fn digits_value(s: Seq<char>) -> nat
    decreases s.len(),
{
    if s.len() == 0 {
        0
    } else {
        digits_value(s.drop_last()) * 10 + (s.last() as nat - 48) as nat
    }
}

/// The count that a run of digits stands for: at least one, and no more than a
/// `usize` holds.
pub open spec fn count_of(digits: Seq<char>) -> usize {
    let value = digits_value(digits);
    if value == 0 {
        1
    } else if value > usize::MAX {
        usize::MAX
    } else {
        value as usize
    }
}

/// `s` is the one key `a`.
pub open spec fn is_key(s: Seq<char>, a: char) -> bool {
    s.len() == 1 && s[0] == a
}

/// `s` is the two keys `a` and `b`.
pub open spec fn is_keys(s: Seq<char>, a: char, b: char) -> bool {
    s.len() == 2 && s[0] == a && s[1] == b
}

/// The command that `keys`, typed after a count, stands for in a vocabulary.
pub open spec fn meaning(keys: Seq<char>, count: usize, commands: CommandSet) -> Option<
    ParsedCommand,
> {
    if is_key(keys, 'h') {
        Some(ParsedCommand::Motion(MotionKind::Left, count))
    } else if is_key(keys, 'j') {
        Some(ParsedCommand::Motion(MotionKind::Down, count))
    } else if is_key(keys, 'k') {
        Some(ParsedCommand::Motion(MotionKind::Up, count))
    } else if is_key(keys, 'l') {
        Some(ParsedCommand::Motion(MotionKind::Right, count))
    } else if is_key(keys, 'w') && commands.words_taught() {
        Some(ParsedCommand::Motion(MotionKind::WordForward, count))
    } else if is_key(keys, 'b') && commands.words_taught() {
        Some(ParsedCommand::Motion(MotionKind::WordBackward, count))
    } else if is_key(keys, 'e') && commands.words_taught() {
        Some(ParsedCommand::Motion(MotionKind::WordEndForward, count))
    } else if is_keys(keys, 'g', 'e') && commands.words_taught() {
        Some(ParsedCommand::Motion(MotionKind::WordEndBackward, count))
    } else if is_key(keys, 'i') && commands.edits_taught() {
        Some(ParsedCommand::InsertBefore)
    } else if is_key(keys, 'a') && commands.edits_taught() {
        Some(ParsedCommand::InsertAfter)
    } else if is_key(keys, 'x') && commands.edits_taught() {
        Some(ParsedCommand::DeleteChar)
    } else if is_keys(keys, 'd', 'w') && commands.edits_taught() {
        Some(ParsedCommand::DeleteWord)
    } else if is_keys(keys, 'c', 'w') && commands.edits_taught() {
        Some(ParsedCommand::ChangeWord)
    } else if is_keys(keys, 'd', 'd') && commands.edits_taught() {
        Some(ParsedCommand::DeleteLine)
    } else if is_key(keys, 'u') && commands.edits_taught() {
        Some(ParsedCommand::Undo)
    } else if keys.len() == 2 && keys[0] == 'r' && commands.edits_taught() {
        Some(ParsedCommand::Replace(keys[1]))
    } else {
        None
    }
}

/// The command that `input` stands for: a count, if any, and then the keys.
pub open spec fn parsed(input: Seq<char>, commands: CommandSet) -> Option<ParsedCommand> {
    if input == "<Esc>"@ {
        Some(ParsedCommand::Escape)
    } else {
        let n = leading_digits(input) as int;
        meaning(input.skip(n), count_of(input.take(n)), commands)
    }
}

/// What the player is told of an input that means nothing.
pub open spec fn refusal(input: Seq<char>) -> Seq<char> {
    "`"@ + input + "` is not in this lesson's command vocabulary"@
}

/// Whether `input` is a whole command, so that nothing more needs to be typed.
pub open spec fn complete(input: Seq<char>, commands: CommandSet) -> bool {
    let keys = input.skip(leading_digits(input) as int);
    ||| is_key(keys, 'h') || is_key(keys, 'j') || is_key(keys, 'k') || is_key(keys, 'l')
    ||| commands.words_taught() && {
        ||| is_key(keys, 'w') || is_key(keys, 'b') || is_key(keys, 'e')
        ||| is_keys(keys, 'g', 'e')
    }
    ||| commands.edits_taught() && {
        ||| is_key(keys, 'i') || is_key(keys, 'a') || is_key(keys, 'x') || is_key(keys, 'u')
        ||| is_keys(keys, 'd', 'w') || is_keys(keys, 'c', 'w') || is_keys(keys, 'd', 'd')
        ||| keys.len() == 2 && keys[0] == 'r'
    }
}

/// What the player is told of a motion.
pub open spec fn motion_report(kind: MotionKind, count: usize) -> Seq<char> {
    if count > 1 {
        text::decimal(count as nat) + kind.keys() + " moved "@ + text::decimal(count as nat)
            + " steps."@
    } else {
        kind.keys() + " moved once."@
    }
}

proof fn lemma_leading_digits(s: Seq<char>, n: int)
    requires
        0 <= n <= s.len(),
        forall|j: int| 0 <= j < n ==> text::is_digit(#[trigger] s[j]),
        n == s.len() || !text::is_digit(s[n]),
    ensures
        leading_digits(s) == n,
    decreases n,
{
    if n > 0 {
        assert(text::is_digit(s[0]));
        assert forall|j: int| 0 <= j < n - 1 implies text::is_digit(#[trigger] s.skip(1)[j]) by {
            assert(s.skip(1)[j] == s[j + 1]);
        }
        lemma_leading_digits(s.skip(1), n - 1);
    }
}

/// How many digits `chars` begins with.
fn count_leading_digits(chars: &Vec<char>) -> (n: usize)
    ensures
        n == leading_digits(chars@),
        n <= chars@.len(),
        forall|j: int| 0 <= j < n ==> text::is_digit(#[trigger] chars@[j]),
{
    let mut n: usize = 0;
    while n < chars.len() && '0' <= chars[n] && chars[n] <= '9'
        invariant
            n <= chars@.len(),
            forall|j: int| 0 <= j < n ==> text::is_digit(#[trigger] chars@[j]),
        decreases chars@.len() - n,
    {
        n += 1;
    }
    proof {
        lemma_leading_digits(chars@, n as int);
    }
    n
}

/// The count that the first `n` characters stand for.
fn read_count(chars: &Vec<char>, n: usize) -> (count: usize)
    requires
        n <= chars@.len(),
        forall|j: int| 0 <= j < n ==> text::is_digit(#[trigger] chars@[j]),
    ensures
        count == count_of(chars@.take(n as int)),
{
    let mut count: usize = 0;
    let mut i: usize = 0;
    assert(digits_value(chars@.take(0)) == 0);
    while i < n
        invariant
            i <= n <= chars@.len(),
            forall|j: int| 0 <= j < n ==> text::is_digit(#[trigger] chars@[j]),
            digits_value(chars@.take(i as int)) <= usize::MAX ==> count == digits_value(
                chars@.take(i as int),
            ),
            digits_value(chars@.take(i as int)) > usize::MAX ==> count == usize::MAX,
        decreases n - i,
    {
        assert(text::is_digit(chars@[i as int]));
        let digit: usize = (chars[i] as u32 - 48) as usize;
        assert(chars@.take(i + 1).drop_last() =~= chars@.take(i as int));
        count =
        match count.checked_mul(10) {
            Some(tens) => tens.saturating_add(digit),
            None => usize::MAX,
        };
        i += 1;
    }
    count.max(1)
}

/// Reads `input` as a command of the vocabulary `commands`.
pub fn parse_command(input: &str, commands: CommandSet) -> (command: Result<ParsedCommand, String>)
    ensures
        match command {
            Ok(command) => parsed(input@, commands) == Some(command),
            Err(message) => parsed(input@, commands) is None && message@ == refusal(input@),
        },
{
    if text::same_text(input, "<Esc>") {
        return Ok(ParsedCommand::Escape);
    }
    let chars: Vec<char> = text::chars_of(input);
    let n: usize = count_leading_digits(&chars);
    let count: usize = read_count(&chars, n);
    let words: bool = commands.allows_word();
    let edits: bool = commands.allows_edit();
    let ghost keys = input@.skip(n as int);
    if chars.len() - n == 1 {
        let key: char = chars[n];
        assert(keys[0] == key);
        match key {
            'h' => return Ok(ParsedCommand::Motion(MotionKind::Left, count)),
            'j' => return Ok(ParsedCommand::Motion(MotionKind::Down, count)),
            'k' => return Ok(ParsedCommand::Motion(MotionKind::Up, count)),
            'l' => return Ok(ParsedCommand::Motion(MotionKind::Right, count)),
            'w' if words => return Ok(ParsedCommand::Motion(MotionKind::WordForward, count)),
            'b' if words => return Ok(ParsedCommand::Motion(MotionKind::WordBackward, count)),
            'e' if words => return Ok(ParsedCommand::Motion(MotionKind::WordEndForward, count)),
            'i' if edits => return Ok(ParsedCommand::InsertBefore),
            'a' if edits => return Ok(ParsedCommand::InsertAfter),
            'x' if edits => return Ok(ParsedCommand::DeleteChar),
            'u' if edits => return Ok(ParsedCommand::Undo),
            _ => {},
        }
    } else if chars.len() - n == 2 {
        let first: char = chars[n];
        let second: char = chars[n + 1];
        assert(keys[0] == first && keys[1] == second);
        if first == 'g' && second == 'e' && words {
            return Ok(ParsedCommand::Motion(MotionKind::WordEndBackward, count));
        }
        if first == 'd' && second == 'w' && edits {
            return Ok(ParsedCommand::DeleteWord);
        }
        if first == 'c' && second == 'w' && edits {
            return Ok(ParsedCommand::ChangeWord);
        }
        if first == 'd' && second == 'd' && edits {
            return Ok(ParsedCommand::DeleteLine);
        }
        if first == 'r' && edits {
            return Ok(ParsedCommand::Replace(second));
        }
    }
    let mut message: String = String::new();
    message.append("`");
    message.append(input);
    message.append("` is not in this lesson's command vocabulary");
    assert(message@ =~= refusal(input@));
    Err(message)
}

/// Whether `input` is a whole command of the vocabulary `commands`.
pub fn is_complete(input: &str, commands: CommandSet) -> (whole: bool)
    ensures
        whole == complete(input@, commands),
{
    let chars: Vec<char> = text::chars_of(input);
    let n: usize = count_leading_digits(&chars);
    let ghost keys = input@.skip(n as int);
    if chars.len() - n == 1 {
        let key: char = chars[n];
        assert(keys[0] == key);
        match key {
            'h' | 'j' | 'k' | 'l' => true,
            'w' | 'b' | 'e' => commands.allows_word(),
            'i' | 'a' | 'x' | 'u' => commands.allows_edit(),
            _ => false,
        }
    } else if chars.len() - n == 2 {
        let first: char = chars[n];
        let second: char = chars[n + 1];
        assert(keys[0] == first && keys[1] == second);
        if first == 'g' && second == 'e' {
            commands.allows_word()
        } else if first == 'r' || (first == 'd' && (second == 'w' || second == 'd')) || (first
            == 'c' && second == 'w') {
            commands.allows_edit()
        } else {
            false
        }
    } else {
        false
    }
}

/// What the player is told of a motion.
pub fn describe_motion(kind: MotionKind, count: usize) -> (report: String)
    ensures
        report@ == motion_report(kind, count),
{
    let command: &'static str = match kind {
        MotionKind::Left => "h",
        MotionKind::Down => "j",
        MotionKind::Up => "k",
        MotionKind::Right => "l",
        MotionKind::WordForward => "w",
        MotionKind::WordBackward => "b",
        MotionKind::WordEndForward => "e",
        MotionKind::WordEndBackward => "ge",
    };
    let mut report: String = String::new();
    if count > 1 {
        text::push_decimal(&mut report, count);
        report.append(command);
        report.append(" moved ");
        text::push_decimal(&mut report, count);
        report.append(" steps.");
    } else {
        report.append(command);
        report.append(" moved once.");
    }
    assert(report@ =~= motion_report(kind, count));
    report
}

/// A command once taught stays taught: what a lesson accepts, every later lesson
/// reads the same way.
pub proof fn vocabulary_grows(input: Seq<char>, earlier: CommandSet, later: CommandSet)
    requires
        earlier.lesson <= later.lesson,
        parsed(input, earlier) is Some,
    ensures
        parsed(input, later) == parsed(input, earlier),
{
}

/// Only what has been taught is accepted: word motions from lesson two on, edits
/// from lesson three on.
pub proof fn only_taught_commands(input: Seq<char>, commands: CommandSet)
    ensures
        match parsed(input, commands) {
            Some(ParsedCommand::Motion(kind, count)) => {
                &&& count >= 1
                &&& kind is Left || kind is Down || kind is Up || kind is Right
                    || commands.words_taught()
            },
            Some(ParsedCommand::Escape) => input == "<Esc>"@,
            Some(_) => commands.edits_taught(),
            None => true,
        },
{
}

/// A buffer counts as whole exactly when it can be read as a command; the spelt
/// out escape is the one command that is never typed key by key.
pub proof fn complete_is_parsed(input: Seq<char>, commands: CommandSet)
    ensures
        complete(input, commands) <==> parsed(input, commands) is Some && input != "<Esc>"@,
{
    reveal_strlit("<Esc>");
    if input == "<Esc>"@ {
        assert(!text::is_digit(input[0]));
        assert(input.skip(0) =~= input);
    }
}

/// A numeral is made of digits, and they write its number out.
proof fn lemma_decimal(n: nat)
    ensures
        text::decimal(n).len() > 0,
        forall|j: int| 0 <= j < text::decimal(n).len() ==> text::is_digit(#[trigger] text::decimal(n)[j]),
        digits_value(text::decimal(n)) == n,
    decreases n,
{
    let last = text::digit_char(n % 10);
    assert(text::is_digit(last) && last as nat == 48 + n % 10);
    if n < 10 {
        assert(text::decimal(n).drop_last() =~= Seq::empty());
        assert(digits_value(Seq::empty()) == 0);
    } else {
        lemma_decimal(n / 10);
        assert(text::decimal(n).drop_last() =~= text::decimal(n / 10));
    }
}

/// A motion typed behind a count is made that many times: the count is read back as it
/// was written out.
pub proof fn counts_are_read_back(kind: MotionKind, count: usize, commands: CommandSet)
    requires
        count >= 1,
        kind is Left || kind is Down || kind is Up || kind is Right || commands.words_taught(),
    ensures
        parsed(text::decimal(count as nat) + kind.keys(), commands) == Some(
            ParsedCommand::Motion(kind, count),
        ),
        complete(text::decimal(count as nat) + kind.keys(), commands),
{
    reveal_strlit("h");
    reveal_strlit("j");
    reveal_strlit("k");
    reveal_strlit("l");
    reveal_strlit("w");
    reveal_strlit("b");
    reveal_strlit("e");
    reveal_strlit("ge");
    reveal_strlit("<Esc>");
    let digits = text::decimal(count as nat);
    let keys = kind.keys();
    let input = digits + keys;
    let n = digits.len() as int;
    lemma_decimal(count as nat);
    assert forall|j: int| 0 <= j < n implies text::is_digit(#[trigger] input[j]) by {
        assert(input[j] == digits[j]);
    }
    assert(input[n] == keys[0]);
    lemma_leading_digits(input, n);
    assert(input.skip(n) =~= keys);
    assert(input.take(n) =~= digits);
    assert(text::is_digit(input[0]));
    assert(input != "<Esc>"@);
}

/// Digits are read from the left: each one more multiplies what was read by ten and adds
/// itself. The count is that number, but at least one and at most what a `usize` holds.
pub proof fn digits_are_read_from_the_left(digits: Seq<char>, next: char)
    requires
        text::is_digit(next),
    ensures
        digits_value(Seq::empty()) == 0,
        digits_value(digits.push(next)) == 10 * digits_value(digits) + (next as int - '0' as int),
        count_of(digits) == if digits_value(digits) == 0 {
            1
        } else if digits_value(digits) <= usize::MAX {
            digits_value(digits) as int
        } else {
            usize::MAX as int
        },
{
    assert(digits.push(next).drop_last() =~= digits);
}

/// What an input means: a count, and then the keys of one command. The four plain motions
/// belong to every lesson, the word motions to lesson two and later, the edits to lesson
/// three and later; whatever else is typed means nothing.
pub proof fn inputs_mean_one_command(digits: Seq<char>, keys: Seq<char>, commands: CommandSet)
    requires
        forall|i: int| 0 <= i < digits.len() ==> text::is_digit(#[trigger] digits[i]),
        keys.len() > 0 ==> !text::is_digit(keys[0]),
        digits + keys != "<Esc>"@,
    ensures
        ({
            let meant = parsed(digits + keys, commands);
            let n = count_of(digits);
            if keys == seq!['h'] {
                meant == Some(ParsedCommand::Motion(MotionKind::Left, n))
            } else if keys == seq!['j'] {
                meant == Some(ParsedCommand::Motion(MotionKind::Down, n))
            } else if keys == seq!['k'] {
                meant == Some(ParsedCommand::Motion(MotionKind::Up, n))
            } else if keys == seq!['l'] {
                meant == Some(ParsedCommand::Motion(MotionKind::Right, n))
            } else if keys == seq!['w'] && commands.lesson >= 2 {
                meant == Some(ParsedCommand::Motion(MotionKind::WordForward, n))
            } else if keys == seq!['b'] && commands.lesson >= 2 {
                meant == Some(ParsedCommand::Motion(MotionKind::WordBackward, n))
            } else if keys == seq!['e'] && commands.lesson >= 2 {
                meant == Some(ParsedCommand::Motion(MotionKind::WordEndForward, n))
            } else if keys == seq!['g', 'e'] && commands.lesson >= 2 {
                meant == Some(ParsedCommand::Motion(MotionKind::WordEndBackward, n))
            } else if keys == seq!['i'] && commands.lesson >= 3 {
                meant == Some(ParsedCommand::InsertBefore)
            } else if keys == seq!['a'] && commands.lesson >= 3 {
                meant == Some(ParsedCommand::InsertAfter)
            } else if keys == seq!['x'] && commands.lesson >= 3 {
                meant == Some(ParsedCommand::DeleteChar)
            } else if keys == seq!['u'] && commands.lesson >= 3 {
                meant == Some(ParsedCommand::Undo)
            } else if keys == seq!['d', 'w'] && commands.lesson >= 3 {
                meant == Some(ParsedCommand::DeleteWord)
            } else if keys == seq!['c', 'w'] && commands.lesson >= 3 {
                meant == Some(ParsedCommand::ChangeWord)
            } else if keys == seq!['d', 'd'] && commands.lesson >= 3 {
                meant == Some(ParsedCommand::DeleteLine)
            } else if keys.len() == 2 && keys[0] == 'r' && commands.lesson >= 3 {
                meant == Some(ParsedCommand::Replace(keys[1]))
            } else {
                meant is None
            }
        }),
        complete(digits + keys, commands) <==> parsed(digits + keys, commands) is Some,
{
    let input = digits + keys;
    let n = digits.len() as int;
    assert forall|j: int| 0 <= j < n implies text::is_digit(#[trigger] input[j]) by {
        assert(input[j] == digits[j]);
    }
    if keys.len() > 0 {
        assert(input[n] == keys[0]);
    }
    lemma_leading_digits(input, n);
    assert(input.skip(n) =~= keys);
    assert(input.take(n) =~= digits);
    lemma_keys(keys);
    complete_is_parsed(input, commands);
}

proof fn lemma_keys(keys: Seq<char>)
    ensures
        forall|a: char| #[trigger] is_key(keys, a) <==> keys == seq![a],
        forall|a: char, b: char| #[trigger] is_keys(keys, a, b) <==> keys == seq![a, b],
{
    assert forall|a: char| #[trigger] is_key(keys, a) <==> keys == seq![a] by {
        if is_key(keys, a) {
            assert(keys =~= seq![a]);
        }
    }
    assert forall|a: char, b: char| #[trigger] is_keys(keys, a, b) <==> keys == seq![a, b] by {
        if is_keys(keys, a, b) {
            assert(keys =~= seq![a, b]);
        }
    }
}

/// The spelt out escape is read as such; a refusal quotes the input; a report names the
/// motion's keys, and the count where there is one.
pub proof fn answers_quote_what_was_typed(input: Seq<char>, commands: CommandSet, kind: MotionKind, count: usize)
    ensures
        parsed("<Esc>"@, commands) == Some(ParsedCommand::Escape),
        refusal(input) == "`"@ + input + "` is not in this lesson's command vocabulary"@,
        count <= 1 ==> motion_report(kind, count) == kind.keys() + " moved once."@,
        count > 1 ==> motion_report(kind, count) == text::decimal(count as nat) + kind.keys()
            + " moved "@ + text::decimal(count as nat) + " steps."@,
        MotionKind::Left.keys() == "h"@,
        MotionKind::Down.keys() == "j"@,
        MotionKind::Up.keys() == "k"@,
        MotionKind::Right.keys() == "l"@,
        MotionKind::WordForward.keys() == "w"@,
        MotionKind::WordBackward.keys() == "b"@,
        MotionKind::WordEndForward.keys() == "e"@,
        MotionKind::WordEndBackward.keys() == "ge"@,
        commands.words_taught() <==> commands.lesson >= 2,
        commands.edits_taught() <==> commands.lesson >= 3,
{
}

/// The first lesson teaches plain motions, the second words besides, and every one from the
/// third on editing too; nothing that a lesson taught is taken back by a later one. The line
/// that tells the vocabulary speaks of just that, and before the first lesson of everything.
pub proof fn lessons_add_to_the_vocabulary(earlier: CommandSet, later: CommandSet)
    requires
        earlier.lesson <= later.lesson,
    ensures
        earlier.words_taught() ==> later.words_taught(),
        earlier.edits_taught() ==> later.edits_taught() && earlier.words_taught(),
        !earlier.words_taught() <==> earlier.lesson == 0 || earlier.lesson == 1,
        !earlier.edits_taught() <==> earlier.lesson == 0 || earlier.lesson == 1 || earlier.lesson
            == 2,
        earlier.edits_taught() || earlier.lesson == 0 ==> earlier.help_text()
            == "motions plus i a Esc x r<char> dw cw dd u"@,
        earlier.words_taught() && !earlier.edits_taught() ==> earlier.help_text()
            == "h j k l counts plus w b e ge"@,
        earlier.lesson == 1 ==> earlier.help_text() == "h j k l and counts: 3j, 5l"@,
{
}

} // verus!

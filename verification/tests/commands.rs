use gamevim::command::{describe_motion, is_complete, parse_command, CommandSet, MotionKind, ParsedCommand};
use gamevim::hints::hint_for_counts;

#[test]
fn parses_lesson_one_counts_and_motions() {
    assert_eq!(
        parse_command("3j", CommandSet::for_lesson(1)).unwrap(),
        ParsedCommand::Motion(MotionKind::Down, 3)
    );
    assert_eq!(
        parse_command("h", CommandSet::for_lesson(1)).unwrap(),
        ParsedCommand::Motion(MotionKind::Left, 1)
    );
    assert!(parse_command("w", CommandSet::for_lesson(1)).is_err());
}

#[test]
fn parses_word_motions_after_lesson_two() {
    assert_eq!(
        parse_command("ge", CommandSet::for_lesson(2)).unwrap(),
        ParsedCommand::Motion(MotionKind::WordEndBackward, 1)
    );
    assert_eq!(
        parse_command("2w", CommandSet::for_lesson(2)).unwrap(),
        ParsedCommand::Motion(MotionKind::WordForward, 2)
    );
}

#[test]
fn parses_edit_commands_only_after_lesson_three() {
    assert!(parse_command("dw", CommandSet::for_lesson(2)).is_err());
    assert_eq!(
        parse_command("rx", CommandSet::for_lesson(3)).unwrap(),
        ParsedCommand::Replace('x')
    );
    assert_eq!(
        parse_command("cw", CommandSet::for_lesson(3)).unwrap(),
        ParsedCommand::ChangeWord
    );
}

#[test]
fn parses_every_command_of_the_last_lesson() {
    let all = CommandSet::for_lesson(3);
    let expected = [
        ("h", ParsedCommand::Motion(MotionKind::Left, 1)),
        ("j", ParsedCommand::Motion(MotionKind::Down, 1)),
        ("k", ParsedCommand::Motion(MotionKind::Up, 1)),
        ("l", ParsedCommand::Motion(MotionKind::Right, 1)),
        ("w", ParsedCommand::Motion(MotionKind::WordForward, 1)),
        ("b", ParsedCommand::Motion(MotionKind::WordBackward, 1)),
        ("e", ParsedCommand::Motion(MotionKind::WordEndForward, 1)),
        ("ge", ParsedCommand::Motion(MotionKind::WordEndBackward, 1)),
        ("i", ParsedCommand::InsertBefore),
        ("a", ParsedCommand::InsertAfter),
        ("x", ParsedCommand::DeleteChar),
        ("dw", ParsedCommand::DeleteWord),
        ("cw", ParsedCommand::ChangeWord),
        ("dd", ParsedCommand::DeleteLine),
        ("u", ParsedCommand::Undo),
        ("r\u{e9}", ParsedCommand::Replace('\u{e9}')),
        ("rr", ParsedCommand::Replace('r')),
        ("<Esc>", ParsedCommand::Escape),
    ];
    for (keys, command) in expected {
        assert_eq!(parse_command(keys, all).unwrap(), command);
    }
}

#[test]
fn counts_start_at_one_and_saturate() {
    let one = CommandSet::for_lesson(1);
    assert_eq!(parse_command("0j", one).unwrap(), ParsedCommand::Motion(MotionKind::Down, 1));
    assert_eq!(parse_command("007l", one).unwrap(), ParsedCommand::Motion(MotionKind::Right, 7));
    assert_eq!(
        parse_command("120k", one).unwrap(),
        ParsedCommand::Motion(MotionKind::Up, 120)
    );
    assert_eq!(
        parse_command("99999999999999999999999999h", one).unwrap(),
        ParsedCommand::Motion(MotionKind::Left, usize::MAX)
    );
}

#[test]
fn refusals_quote_the_input() {
    for input in ["", "3", "w", "3x", "hh", "rab", "r"] {
        assert_eq!(
            parse_command(input, CommandSet::for_lesson(1)).unwrap_err(),
            format!("`{input}` is not in this lesson's command vocabulary")
        );
    }
}

#[test]
fn a_later_lesson_knows_all_earlier_commands() {
    for keys in ["h", "12j", "w", "3e", "ge", "dd", "rx", "u", "<Esc>"] {
        for lesson in 1..3 {
            if let Ok(command) = parse_command(keys, CommandSet::for_lesson(lesson)) {
                assert_eq!(
                    parse_command(keys, CommandSet::for_lesson(lesson + 1)).unwrap(),
                    command
                );
            }
        }
    }
}

#[test]
fn whole_commands_are_told_from_unfinished_ones() {
    let three = CommandSet::for_lesson(3);
    for keys in ["h", "10l", "w", "3ge", "i", "dd", "dw", "cw", "rx", "2ra"] {
        assert!(is_complete(keys, three), "{keys}");
        assert!(parse_command(keys, three).is_ok(), "{keys}");
    }
    for keys in ["", "1", "123", "g", "d", "c", "r", "z", "gg", "rab"] {
        assert!(!is_complete(keys, three), "{keys}");
    }
    assert!(!is_complete("w", CommandSet::for_lesson(1)));
    assert!(!is_complete("dd", CommandSet::for_lesson(2)));
}

#[test]
fn motions_are_described() {
    assert_eq!(describe_motion(MotionKind::Down, 3), "3j moved 3 steps.");
    assert_eq!(describe_motion(MotionKind::Left, 1), "h moved once.");
    assert_eq!(describe_motion(MotionKind::WordEndBackward, 2), "2ge moved 2 steps.");
    assert_eq!(describe_motion(MotionKind::WordForward, 1), "w moved once.");
}

#[test]
fn each_lesson_has_its_vocabulary() {
    assert_eq!(CommandSet::for_lesson(1).help(), "h j k l and counts: 3j, 5l");
    assert_eq!(CommandSet::for_lesson(2).help(), "h j k l counts plus w b e ge");
    assert_eq!(CommandSet::for_lesson(3).help(), "motions plus i a Esc x r<char> dw cw dd u");
    assert!(!CommandSet::for_lesson(1).allows_word());
    assert!(CommandSet::for_lesson(2).allows_word());
    assert!(!CommandSet::for_lesson(2).allows_edit());
    assert!(CommandSet::for_lesson(3).allows_edit());
}

#[test]
fn written_counts_are_read_back() {
    let kinds = [
        ("h", MotionKind::Left),
        ("j", MotionKind::Down),
        ("k", MotionKind::Up),
        ("l", MotionKind::Right),
        ("w", MotionKind::WordForward),
        ("b", MotionKind::WordBackward),
        ("e", MotionKind::WordEndForward),
        ("ge", MotionKind::WordEndBackward),
    ];
    for (keys, kind) in kinds {
        for count in [1, 2, 9, 10, 105, 4_000_000, usize::MAX] {
            let typed = format!("{count}{keys}");
            let commands = CommandSet::for_lesson(2);
            assert!(is_complete(&typed, commands));
            assert_eq!(
                parse_command(&typed, commands).unwrap(),
                ParsedCommand::Motion(kind, count)
            );
        }
    }
}

#[test]
fn hinted_commands_can_be_typed() {
    let moves = vec![MotionKind::Up; 12];
    let hint = hint_for_counts(&moves).unwrap();
    assert_eq!(hint, "You repeated `k` 12 times. Try `12k` as one command.");
    assert_eq!(
        parse_command("12k", CommandSet::for_lesson(1)).unwrap(),
        ParsedCommand::Motion(MotionKind::Up, 12)
    );
}

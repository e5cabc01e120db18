use gamevim::catalog::Catalog;
use gamevim::command::MotionKind;
use gamevim::edit::{EditState, EditorMode};
use gamevim::hints::{hint_for_counts, hint_for_edits, hint_for_words};
use gamevim::level::{EditSpec, LevelKind};
use gamevim::pos::Pos;
use gamevim::text::{
    byte_index_at_char, has_prefix, insert_char, is_word_char, push_decimal, push_padded_left,
    push_padded_right, remove_char, remove_chars, same_text,
};

fn edit(lines: Vec<&'static str>, x: usize, y: usize) -> EditState {
    EditState::from_spec(&EditSpec {
        start: lines,
        expected: vec!["target"],
        cursor: Pos { x, y },
        command_budget: 5,
        timer_seconds: None,
    })
}

#[test]
fn edit_snippets_have_expected_output() {
    let catalog = Catalog::new();
    for level in catalog.all_levels() {
        if let LevelKind::Edit(spec) = &level.kind {
            let edit = EditState::from_spec(spec);
            assert_ne!(edit.lines, edit.expected);
            assert!(!edit.expected.is_empty());
        }
    }
}

#[test]
fn hints_name_better_commands() {
    let moves = vec![
        MotionKind::Right,
        MotionKind::Right,
        MotionKind::Right,
        MotionKind::Right,
    ];
    assert!(hint_for_counts(&moves).unwrap().contains("4l"));
    let history = vec!["l".to_string(); 6];
    assert!(hint_for_words(&history).unwrap().contains("w"));
}

#[test]
fn count_hints_name_the_longest_run() {
    use_moves(
        &[MotionKind::Up, MotionKind::Up, MotionKind::Left, MotionKind::Left, MotionKind::Left],
        Some("You repeated `h` 3 times. Try `3h` as one command."),
    );
    use_moves(
        &[MotionKind::Up, MotionKind::Up, MotionKind::Up, MotionKind::Left, MotionKind::Left, MotionKind::Left],
        Some("You repeated `k` 3 times. Try `3k` as one command."),
    );
    use_moves(
        &[MotionKind::WordForward, MotionKind::WordForward, MotionKind::WordForward],
        Some("You repeated `?` 3 times. Try `3?` as one command."),
    );
    use_moves(&[MotionKind::Up, MotionKind::Up], None);
    use_moves(&[], None);
}

fn use_moves(moves: &[MotionKind], hint: Option<&str>) {
    assert_eq!(hint_for_counts(moves).as_deref(), hint);
}

#[test]
fn word_hints_count_single_steps() {
    let four = vec!["h".to_string(), "l".to_string(), "3l".to_string(), "l".to_string(), "h".to_string()];
    assert_eq!(hint_for_words(&four), None);
    let five = vec!["h".to_string(); 5];
    assert_eq!(
        hint_for_words(&five).unwrap(),
        "You crossed token text with h/l. Try `w`, `e`, `b`, or `ge` for code-token jumps."
    );
}

#[test]
fn edit_hints_come_as_long_as_the_texts_differ() {
    let mut state = edit(vec!["other"], 0, 0);
    assert_eq!(
        hint_for_edits(&state).unwrap(),
        "Compare the buffer to the target: `x`, `r<char>`, `dw`, `cw`, `dd`, and `u` are available here."
    );
    state.lines = vec!["target".to_string()];
    assert_eq!(hint_for_edits(&state), None);
}

#[test]
fn characters_are_deleted_and_replaced_by_their_column() {
    let mut state = edit(vec!["h\u{e9}llo \u{1f980}!"], 1, 0);
    state.delete_char();
    assert_eq!(state.lines, vec!["hllo \u{1f980}!"]);
    assert_eq!(state.cursor.x, 1);
    state.cursor.x = 5;
    state.replace_char('\u{e9}');
    assert_eq!(state.lines, vec!["hllo \u{e9}!"]);
    state.cursor.x = 6;
    state.delete_char();
    assert_eq!(state.lines, vec!["hllo \u{e9}"]);
    assert_eq!(state.cursor.x, 5);
    state.cursor.x = 6;
    state.delete_char();
    state.replace_char('z');
    assert_eq!(state.lines, vec!["hllo \u{e9}"]);
    state.cursor = Pos { x: 0, y: 4 };
    state.delete_char();
    state.replace_char('z');
    state.delete_word();
    assert_eq!(state.lines, vec!["hllo \u{e9}"]);
}

#[test]
fn words_are_deleted_from_the_cursor_on() {
    let mut state = edit(vec!["\u{e9}  let x = 1;"], 0, 0);
    state.delete_word();
    assert_eq!(state.lines, vec!["\u{e9}   x = 1;"]);
    assert_eq!(state.cursor.x, 3);
    state.delete_word();
    assert_eq!(state.lines, vec!["\u{e9}    = 1;"]);
    state.cursor.x = 99;
    state.delete_word();
    assert_eq!(state.lines, vec!["\u{e9}    = 1;"]);
    let mut middle = edit(vec!["abcdef"], 3, 0);
    middle.delete_word();
    assert_eq!(middle.lines, vec!["abc"]);
    assert_eq!(middle.cursor.x, 2);
    let mut empty = edit(vec![""], 0, 0);
    empty.delete_word();
    assert_eq!(empty.lines, vec![""]);
}

#[test]
fn lines_are_deleted_down_to_an_empty_one() {
    let mut state = edit(vec!["first", "se", "last one"], 6, 2);
    state.delete_line();
    assert_eq!(state.lines, vec!["first", "se"]);
    assert_eq!(state.cursor, Pos { x: 1, y: 1 });
    state.cursor.y = 0;
    state.delete_line();
    assert_eq!(state.lines, vec!["se"]);
    state.delete_line();
    assert_eq!(state.lines, vec![""]);
    assert_eq!(state.cursor, Pos { x: 0, y: 0 });
}

#[test]
fn undo_brings_texts_back_in_reverse_order() {
    let mut state = edit(vec!["abc"], 2, 0);
    state.push_undo();
    state.delete_char();
    state.push_undo();
    state.delete_line();
    assert!(state.undo_last());
    assert_eq!(state.lines, vec!["ab"]);
    assert!(state.undo_last());
    assert_eq!(state.lines, vec!["abc"]);
    assert!(!state.undo_last());
    assert_eq!(state.lines, vec!["abc"]);
}

#[test]
fn undo_remembers_a_limited_number_of_texts() {
    let mut state = edit(vec![""], 0, 0);
    for _ in 0..30 {
        state.push_undo();
        state.type_char('x');
    }
    assert_eq!(state.undo.len(), 24);
    for _ in 0..24 {
        assert!(state.undo_last());
    }
    assert_eq!(state.lines, vec!["xxxxxx"]);
    assert!(!state.undo_last());
}

#[test]
fn typing_and_erasing_undo_each_other() {
    let mut state = edit(vec!["\u{e9}b"], 1, 0);
    state.mode = EditorMode::Insert;
    state.type_char('\u{1f980}');
    assert_eq!(state.lines, vec!["\u{e9}\u{1f980}b"]);
    assert_eq!(state.cursor.x, 2);
    assert!(state.erase_char());
    assert_eq!(state.lines, vec!["\u{e9}b"]);
    assert!(state.erase_char());
    assert_eq!(state.lines, vec!["b"]);
    assert!(!state.erase_char());
    state.step_after();
    assert_eq!(state.cursor.x, 1);
    state.step_after();
    assert_eq!(state.cursor.x, 1);
    state.escape();
    assert_eq!(state.cursor.x, 0);
    assert_eq!(state.mode, EditorMode::Normal);
}

#[test]
fn motions_move_the_cursor_only() {
    let mut state = edit(vec!["let a = 1;", "b"], 4, 0);
    state.apply_motion(MotionKind::WordForward, 2);
    assert_eq!(state.cursor, Pos { x: 0, y: 1 });
    state.apply_motion(MotionKind::Up, 1);
    assert_eq!(state.cursor, Pos { x: 0, y: 0 });
    assert_eq!(state.line_len(0), 10);
    assert_eq!(state.line_len(5), 0);
    assert_eq!(state.lines, vec!["let a = 1;", "b"]);
}

#[test]
fn byte_indices_follow_characters() {
    let s = "a\u{e9}\u{20ac}\u{1f980}z";
    let expected = [0, 1, 3, 6, 10, 11, 11, 11];
    for (k, idx) in expected.iter().enumerate() {
        assert_eq!(byte_index_at_char(s, k), *idx);
    }
    assert_eq!(byte_index_at_char("", 0), 0);
}

#[test]
fn strings_are_edited_by_character() {
    let mut s = "\u{20ac}x\u{e9}".to_string();
    remove_char(&mut s, 0);
    assert_eq!(s, "x\u{e9}");
    insert_char(&mut s, 2, '\u{1f980}');
    assert_eq!(s, "x\u{e9}\u{1f980}");
    insert_char(&mut s, 1, '-');
    assert_eq!(s, "x-\u{e9}\u{1f980}");
    remove_chars(&mut s, 1, 3);
    assert_eq!(s, "x\u{1f980}");
    remove_chars(&mut s, 1, 1);
    assert_eq!(s, "x\u{1f980}");
}

#[test]
fn texts_are_compared_by_character() {
    assert!(same_text("\u{e9}a", "\u{e9}a"));
    assert!(!same_text("e", "\u{e9}"));
    assert!(!same_text("a", "ab"));
    assert!(has_prefix("1-2", "1-"));
    assert!(!has_prefix("1", "1-"));
    assert!(!has_prefix("2-1", "1-"));
}

#[test]
fn word_characters_are_ascii() {
    for ch in ['a', 'z', 'A', 'Z', '0', '9', '_'] {
        assert!(is_word_char(ch));
    }
    for ch in [' ', '-', '.', '\u{e9}', '@', '[', '`', '{', '/', ':'] {
        assert!(!is_word_char(ch));
    }
}

#[test]
fn numbers_and_padding_are_written_out() {
    let mut s = String::new();
    push_decimal(&mut s, 0);
    push_decimal(&mut s, 70);
    push_decimal(&mut s, usize::MAX);
    assert_eq!(s, format!("070{}", usize::MAX));
    let mut padded = String::new();
    push_padded_right(&mut padded, "\u{e9}b", 4);
    push_padded_left(&mut padded, "c", 3);
    push_padded_left(&mut padded, "long", 2);
    push_padded_right(&mut padded, "long", 2);
    assert_eq!(padded, "\u{e9}b    clonglong");
}

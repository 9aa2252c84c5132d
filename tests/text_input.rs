use r_menu::keys::{keycode_to_char, Keycode};
use r_menu::text_input::{TextInput, MAX_INPUT_LEN};

fn line(text: &str) -> TextInput {
    let mut t = TextInput::new();
    t.set_text(text);
    t
}

#[test]
fn tokenize_splits_on_single_spaces() {
    assert_eq!(line("ls -la").get_args(), vec!["ls".to_string(), "-la".to_string()]);
}

#[test]
fn tokenize_empty_line_gives_one_empty_token() {
    assert_eq!(line("").get_args(), vec![String::new()]);
}

#[test]
fn tokenize_double_space_gives_empty_token() {
    assert_eq!(
        line("a  b").get_args(),
        vec!["a".to_string(), String::new(), "b".to_string()]
    );
}

#[test]
fn tokenize_leading_and_trailing_spaces() {
    assert_eq!(
        line(" x ").get_args(),
        vec![String::new(), "x".to_string(), String::new()]
    );
}

#[test]
fn set_text_puts_caret_at_end() {
    let t = line("curl");
    assert_eq!(t.text(), "curl");
    assert_eq!(t.caret_position(), 4);
    assert!(t.is_caret_at_end());
}

#[test]
fn set_text_counts_characters_not_bytes() {
    let t = line("héllo");
    assert_eq!(t.caret_position(), 5);
}

#[test]
fn insert_at_caret_in_the_middle() {
    let mut t = line("ac");
    t.retreat_caret();
    t.insert_char_at_caret('b');
    assert_eq!(t.text(), "abc");
    assert_eq!(t.caret_position(), 2);
}

#[test]
fn backspace_removes_before_caret() {
    let mut t = line("abc");
    t.retreat_caret();
    t.remove_char_at_caret();
    assert_eq!(t.text(), "ac");
    assert_eq!(t.caret_position(), 1);
}

#[test]
fn backspace_at_start_does_nothing() {
    let mut t = line("abc");
    t.retreat_caret();
    t.retreat_caret();
    t.retreat_caret();
    t.remove_char_at_caret();
    assert_eq!(t.text(), "abc");
    assert_eq!(t.caret_position(), 0);
}

#[test]
fn delete_removes_after_caret_without_moving_it() {
    let mut t = line("abc");
    t.retreat_caret();
    t.retreat_caret();
    t.act_char_at_caret(Keycode::Delete, false);
    assert_eq!(t.text(), "ac");
    assert_eq!(t.caret_position(), 1);
}

#[test]
fn delete_at_end_removes_last_character() {
    let mut t = line("abc");
    t.act_char_at_caret(Keycode::Delete, false);
    assert_eq!(t.text(), "ab");
    assert_eq!(t.caret_position(), 2);
}

#[test]
fn caret_moves_saturate() {
    let mut t = line("ab");
    t.advance_caret();
    assert_eq!(t.caret_position(), 2);
    t.retreat_caret();
    t.retreat_caret();
    t.retreat_caret();
    assert_eq!(t.caret_position(), 0);
}

#[test]
fn caret_stays_in_bounds_over_mixed_edits() {
    let mut t = TextInput::new();
    let keys = [
        Keycode::A, Keycode::Left, Keycode::Left, Keycode::B, Keycode::Right,
        Keycode::Right, Keycode::Backspace, Keycode::Delete, Keycode::Delete,
        Keycode::Backspace, Keycode::C,
    ];
    for k in keys {
        t.keycode_interaction(k);
        t.act_char_at_caret(k, false);
        assert!(t.caret_position() <= t.text().chars().count());
    }
    assert_eq!(t.text(), "c");
}

#[test]
fn insert_past_the_cap_is_dropped() {
    let full: String = std::iter::repeat('x').take(MAX_INPUT_LEN).collect();
    let mut t = line(&full);
    t.insert_char_at_caret('y');
    assert_eq!(t.caret_position(), MAX_INPUT_LEN);
    assert!(!t.text().contains('y'));
}

#[test]
fn set_text_keeps_at_most_the_cap() {
    let long: String = std::iter::repeat('x').take(MAX_INPUT_LEN + 3).collect();
    let t = line(&long);
    assert_eq!(t.caret_position(), MAX_INPUT_LEN);
}

#[test]
fn printable_keys_with_and_without_shift() {
    assert_eq!(keycode_to_char(Keycode::A, false), Some('a'));
    assert_eq!(keycode_to_char(Keycode::A, true), Some('A'));
    assert_eq!(keycode_to_char(Keycode::Num1, true), Some('!'));
    assert_eq!(keycode_to_char(Keycode::Quote, false), Some('\''));
    assert_eq!(keycode_to_char(Keycode::Backquote, true), Some('~'));
    assert_eq!(keycode_to_char(Keycode::Space, true), Some(' '));
    assert_eq!(keycode_to_char(Keycode::Tab, false), None);
    assert_eq!(keycode_to_char(Keycode::Other, true), None);
}

#[test]
fn shifted_key_is_typed_into_the_line() {
    let mut t = TextInput::new();
    t.act_char_at_caret(Keycode::Num9, true);
    t.act_char_at_caret(Keycode::Slash, false);
    assert_eq!(t.text(), "(/");
}

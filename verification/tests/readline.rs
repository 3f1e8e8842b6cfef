use spotter::readline::{
    command_for_key, edit, Command, EditedText, EntryState, EntryUpdate, ReadlineEditor,
    ALT_MASK, CONTROL_MASK, KEY_BACKSPACE,
};

const KEY_C: u32 = 'c' as u32;

fn key(c: char) -> u32 {
    c as u32
}

fn apply(text: &str, cursor: usize, command: Command, kill_buffer: &mut String) -> EditedText {
    edit(text, cursor, None, command, kill_buffer)
}

#[test]
fn maps_control_and_meta_bindings() {
    assert_eq!(
        command_for_key(key('a'), CONTROL_MASK),
        Some(Command::BeginningOfLine)
    );
    assert_eq!(command_for_key(key('f'), ALT_MASK), Some(Command::ForwardWord));
    assert_eq!(
        command_for_key(KEY_BACKSPACE, ALT_MASK),
        Some(Command::BackwardKillWord)
    );
    assert_eq!(command_for_key(KEY_C, CONTROL_MASK), None);
}

#[test]
fn moves_by_characters_and_words() {
    let mut kill_buffer = String::new();
    assert_eq!(
        apply("hello, brave world", 12, Command::BackwardWord, &mut kill_buffer).cursor,
        7
    );
    assert_eq!(
        apply("hello, brave world", 5, Command::ForwardWord, &mut kill_buffer).cursor,
        12
    );
    assert_eq!(
        apply("héllo", 2, Command::BackwardChar, &mut kill_buffer).cursor,
        1
    );
}

#[test]
fn kills_and_yanks_text() {
    let mut kill_buffer = String::new();
    let killed = apply("search some files", 12, Command::UnixWordRubout, &mut kill_buffer);
    assert_eq!(
        killed,
        EditedText {
            text: "search files".to_string(),
            cursor: 7
        }
    );
    assert_eq!(kill_buffer, "some ");

    let yanked = apply(&killed.text, killed.cursor, Command::Yank, &mut kill_buffer);
    assert_eq!(yanked.text, "search some files");
    assert_eq!(yanked.cursor, 12);
}

#[test]
fn line_kills_respect_the_cursor() {
    let mut kill_buffer = String::new();
    let left = apply("alpha beta", 6, Command::UnixLineDiscard, &mut kill_buffer);
    assert_eq!(
        left,
        EditedText {
            text: "beta".to_string(),
            cursor: 0
        }
    );
    assert_eq!(kill_buffer, "alpha ");

    let right = apply("alpha beta", 5, Command::KillLine, &mut kill_buffer);
    assert_eq!(
        right,
        EditedText {
            text: "alpha".to_string(),
            cursor: 5
        }
    );
    assert_eq!(kill_buffer, " beta");
}

#[test]
fn transpose_matches_readline_cursor_behavior() {
    let mut kill_buffer = String::new();
    assert_eq!(
        apply("abcd", 2, Command::TransposeChars, &mut kill_buffer),
        EditedText {
            text: "acbd".to_string(),
            cursor: 3
        }
    );
    assert_eq!(
        apply("abcd", 4, Command::TransposeChars, &mut kill_buffer),
        EditedText {
            text: "abdc".to_string(),
            cursor: 4
        }
    );
}

#[test]
fn deletion_replaces_an_active_selection() {
    let mut kill_buffer = String::new();
    let edited = edit(
        "one two three",
        7,
        Some((4, 7)),
        Command::BackwardDeleteChar,
        &mut kill_buffer,
    );
    assert_eq!(
        edited,
        EditedText {
            text: "one  three".to_string(),
            cursor: 4
        }
    );
}

#[test]
fn control_and_alt_together_bind_nothing() {
    assert_eq!(command_for_key(key('a'), CONTROL_MASK | ALT_MASK), None);
    assert_eq!(command_for_key(key('a'), 0), None);
    assert_eq!(command_for_key(key('d'), 0x1000_0000), Some(Command::KillWord));
}

#[test]
fn kill_word_then_yank_restores_the_text() {
    let mut kill_buffer = String::new();
    let killed = apply("open the door", 5, Command::KillWord, &mut kill_buffer);
    assert_eq!(killed.text, "open  door");
    assert_eq!(kill_buffer, "the");
    let yanked = apply(&killed.text, killed.cursor, Command::Yank, &mut kill_buffer);
    assert_eq!(yanked.text, "open the door");
}

#[test]
fn backward_kill_word_and_empty_kills_keep_the_buffer() {
    let mut kill_buffer = String::from("kept");
    let unchanged = apply("abc", 0, Command::BackwardKillWord, &mut kill_buffer);
    assert_eq!(unchanged.text, "abc");
    assert_eq!(kill_buffer, "kept");
    let killed = apply("foo_bar baz", 7, Command::BackwardKillWord, &mut kill_buffer);
    assert_eq!(killed.text, " baz");
    assert_eq!(kill_buffer, "foo_bar");
}

#[test]
fn delete_char_and_motions_at_the_edges() {
    let mut kill_buffer = String::new();
    assert_eq!(apply("ab", 1, Command::DeleteChar, &mut kill_buffer).text, "a");
    assert_eq!(apply("ab", 2, Command::DeleteChar, &mut kill_buffer).text, "ab");
    assert_eq!(apply("ab", 0, Command::BackwardDeleteChar, &mut kill_buffer).text, "ab");
    assert_eq!(apply("ab", 9, Command::EndOfLine, &mut kill_buffer).cursor, 2);
    assert_eq!(apply("ab", 2, Command::ForwardChar, &mut kill_buffer).cursor, 2);
    assert_eq!(apply("ab", 1, Command::BeginningOfLine, &mut kill_buffer).cursor, 0);
}

fn entry(text: &str, position: i32) -> EntryState {
    EntryState {
        text: text.to_string(),
        position,
        selection: None,
    }
}

#[test]
fn history_navigation_restores_the_draft() {
    let history = vec!["newest".to_string(), "older".to_string()];
    let mut editor = ReadlineEditor::new();
    let up = editor.handle_key(key('p'), CONTROL_MASK, &entry("draft", 5), &history);
    assert_eq!(
        up,
        EntryUpdate {
            handled: true,
            text: Some("newest".to_string()),
            position: Some(6)
        }
    );
    let up = editor.handle_key(key('p'), CONTROL_MASK, &entry("newest", 6), &history);
    assert_eq!(up.text.as_deref(), Some("older"));
    let up = editor.handle_key(key('p'), CONTROL_MASK, &entry("older", 5), &history);
    assert_eq!(up.text.as_deref(), Some("older"));
    let down = editor.handle_key(key('n'), CONTROL_MASK, &entry("older", 5), &history);
    assert_eq!(down.text.as_deref(), Some("newest"));
    let down = editor.handle_key(key('n'), CONTROL_MASK, &entry("newest", 6), &history);
    assert_eq!(down.text.as_deref(), Some("draft"));
    let idle = editor.handle_key(key('n'), CONTROL_MASK, &entry("draft", 5), &history);
    assert_eq!(
        idle,
        EntryUpdate {
            handled: true,
            text: None,
            position: None
        }
    );
}

#[test]
fn unbound_keys_pass_through_and_edits_update_the_entry() {
    let history: Vec<String> = Vec::new();
    let mut editor = ReadlineEditor::new();
    let passed = editor.handle_key(KEY_C, 0, &entry("abc", 3), &history);
    assert!(!passed.handled);
    let killed = editor.handle_key(key('u'), CONTROL_MASK, &entry("abc def", 4), &history);
    assert_eq!(killed.text.as_deref(), Some("def"));
    assert_eq!(killed.position, Some(0));
    let yanked = editor.handle_key(key('y'), CONTROL_MASK, &entry("def", 0), &history);
    assert_eq!(yanked.text.as_deref(), Some("abc def"));
    assert_eq!(yanked.position, Some(4));
    let moved = editor.handle_key(key('a'), CONTROL_MASK, &entry("abc", 2), &history);
    assert_eq!(moved.text, None);
    assert_eq!(moved.position, Some(0));
    let empty_history = editor.handle_key(key('p'), CONTROL_MASK, &entry("abc", 2), &history);
    assert!(empty_history.handled);
    assert_eq!(empty_history.text, None);
}

#[test]
fn edits_keep_the_cursor_in_the_text() {
    let mut kill = String::from("kept");
    for command in [
        Command::BeginningOfLine,
        Command::EndOfLine,
        Command::BackwardChar,
        Command::ForwardChar,
        Command::BackwardWord,
        Command::ForwardWord,
    ] {
        let edited = edit("alpha beta", 40, Some((30, 2)), command, &mut kill);
        assert_eq!(edited.text, "alpha beta");
        assert!(edited.cursor <= edited.text.chars().count());
    }
    let edited = edit("alpha beta", 40, Some((30, 2)), Command::DeleteChar, &mut kill);
    assert_eq!(edited.text, "al");
    assert_eq!(edited.cursor, 2);
    assert_eq!(kill, "kept");
}

#[test]
fn only_kills_replace_the_kill_buffer() {
    let mut kill = String::from("old");
    let edited = edit("one two three", 7, None, Command::BackwardKillWord, &mut kill);
    assert_eq!(edited.text, "one  three");
    assert_eq!(kill, "two");
    edit("one two three", 0, None, Command::BackwardKillWord, &mut kill);
    assert_eq!(kill, "two");
    edit("one two three", 5, None, Command::BackwardDeleteChar, &mut kill);
    assert_eq!(kill, "two");
    edit("one two three", 4, Some((8, 13)), Command::KillLine, &mut kill);
    assert_eq!(kill, "three");
}

use shell_starter_rust::autocomplete::PathEntry;
use shell_starter_rust::editor::{change_line, Escape, Input, LineEditor, Next, ReadResult};
use shell_starter_rust::shell::{Builtin, Shell};

fn shell_with_history(entries: &[&str]) -> Shell {
    let mut shell = Shell::new();
    for entry in entries {
        shell.record(entry.to_string());
    }
    shell
}

/// Feeds the bytes and gathers what the editor writes; stops when the line
/// is done.
fn type_bytes(editor: &mut LineEditor, shell: &Shell, bytes: &[u8]) -> (Vec<u8>, Option<ReadResult>) {
    let mut written = Vec::new();
    for &byte in bytes {
        let reaction = editor.feed(shell, Input::Byte(byte));
        written.extend(reaction.output);
        match reaction.next {
            Next::Continue => {}
            Next::Complete => {
                let answer = editor.complete(shell, &Vec::new());
                written.extend(answer.output);
            }
            Next::Done(result) => return (written, Some(result)),
        }
    }
    (written, None)
}

fn line_of(editor: &LineEditor) -> String {
    editor.line.iter().collect()
}

#[test]
fn typed_bytes_are_echoed_and_kept() {
    let shell = Shell::new();
    let mut editor = LineEditor::new(&shell);
    let (written, done) = type_bytes(&mut editor, &shell, b"ls -l");
    assert_eq!(written, b"ls -l");
    assert!(done.is_none());
    assert_eq!(line_of(&editor), "ls -l");
}

#[test]
fn carriage_return_commits_the_line() {
    let shell = Shell::new();
    let mut editor = LineEditor::new(&shell);
    let (written, done) = type_bytes(&mut editor, &shell, b"pwd\r");
    assert_eq!(written, b"pwd\r\n");
    assert!(matches!(done, Some(ReadResult::Content(line)) if line == "pwd"));
}

#[test]
fn line_feed_commits_the_line() {
    let shell = Shell::new();
    let mut editor = LineEditor::new(&shell);
    let (written, done) = type_bytes(&mut editor, &shell, b"x\n");
    assert_eq!(written, b"x\r\n");
    assert!(matches!(done, Some(ReadResult::Content(line)) if line == "x"));
}

#[test]
fn empty_line_is_empty() {
    let shell = Shell::new();
    let mut editor = LineEditor::new(&shell);
    let (written, done) = type_bytes(&mut editor, &shell, b"\r");
    assert_eq!(written, b"\r\n");
    assert!(matches!(done, Some(ReadResult::Empty)));
}

#[test]
fn end_of_transmission_quits() {
    let shell = Shell::new();
    let mut editor = LineEditor::new(&shell);
    let (written, done) = type_bytes(&mut editor, &shell, b"ab\x04");
    assert_eq!(written, b"ab");
    assert!(matches!(done, Some(ReadResult::Quit)));
}

#[test]
fn closed_input_quits() {
    let shell = Shell::new();
    let mut editor = LineEditor::new(&shell);
    let reaction = editor.feed(&shell, Input::Closed);
    assert!(reaction.output.is_empty());
    assert!(matches!(reaction.next, Next::Done(ReadResult::Quit)));
}

#[test]
fn closed_input_quits_inside_an_escape_sequence() {
    let shell = Shell::new();
    let mut editor = LineEditor::new(&shell);
    editor.feed(&shell, Input::Byte(0x1b));
    let reaction = editor.feed(&shell, Input::Closed);
    assert!(matches!(reaction.next, Next::Done(ReadResult::Quit)));
}

#[test]
fn delete_drops_the_last_character() {
    let shell = Shell::new();
    let mut editor = LineEditor::new(&shell);
    let (written, _) = type_bytes(&mut editor, &shell, b"ab\x7f");
    assert_eq!(written, b"ab\x08 \x08");
    assert_eq!(line_of(&editor), "a");
}

#[test]
fn delete_on_an_empty_line_does_nothing() {
    let shell = Shell::new();
    let mut editor = LineEditor::new(&shell);
    let (written, done) = type_bytes(&mut editor, &shell, b"\x7f");
    assert!(written.is_empty());
    assert!(done.is_none());
    assert_eq!(line_of(&editor), "");
}

#[test]
fn cursor_up_recalls_the_history() {
    let shell = shell_with_history(&["first", "second"]);
    let mut editor = LineEditor::new(&shell);
    assert_eq!(editor.history_position, 2);
    let (written, _) = type_bytes(&mut editor, &shell, b"abc\x1b[A");
    assert_eq!(written, b"abc\x08\x08\x08   \x08\x08\x08second");
    assert_eq!(line_of(&editor), "second");
    assert_eq!(editor.history_position, 1);
    let (written, _) = type_bytes(&mut editor, &shell, b"\x1b[A");
    assert_eq!(
        written,
        b"\x08\x08\x08\x08\x08\x08      \x08\x08\x08\x08\x08\x08first"
    );
    assert_eq!(line_of(&editor), "first");
    assert_eq!(editor.history_position, 0);
}

#[test]
fn cursor_up_at_the_oldest_entry_does_nothing() {
    let shell = shell_with_history(&["only"]);
    let mut editor = LineEditor::new(&shell);
    type_bytes(&mut editor, &shell, b"\x1b[A");
    let (written, done) = type_bytes(&mut editor, &shell, b"\x1b[A");
    assert!(written.is_empty());
    assert!(done.is_none());
    assert_eq!(line_of(&editor), "only");
    assert_eq!(editor.history_position, 0);
}

#[test]
fn cursor_up_without_history_does_nothing() {
    let shell = Shell::new();
    let mut editor = LineEditor::new(&shell);
    let (written, _) = type_bytes(&mut editor, &shell, b"x\x1b[A");
    assert_eq!(written, b"x");
    assert_eq!(line_of(&editor), "x");
}

#[test]
fn other_escape_sequences_are_swallowed() {
    let shell = shell_with_history(&["old"]);
    let mut editor = LineEditor::new(&shell);
    let (written, _) = type_bytes(&mut editor, &shell, b"a\x1b[Bb\x1bOAc");
    assert_eq!(written, b"abc");
    assert_eq!(line_of(&editor), "abc");
    assert_eq!(editor.escape, Escape::Idle);
    assert_eq!(editor.history_position, 1);
}

#[test]
fn recalled_line_can_be_committed() {
    let shell = shell_with_history(&["echo hi"]);
    let mut editor = LineEditor::new(&shell);
    let (_, done) = type_bytes(&mut editor, &shell, b"\x1b[A\r");
    assert!(matches!(done, Some(ReadResult::Content(line)) if line == "echo hi"));
}

#[test]
fn tab_asks_for_completion() {
    let shell = Shell::new();
    let mut editor = LineEditor::new(&shell);
    type_bytes(&mut editor, &shell, b"ech");
    let reaction = editor.feed(&shell, Input::Byte(b'\t'));
    assert!(reaction.output.is_empty());
    assert!(matches!(reaction.next, Next::Complete));
    let answer = editor.complete(&shell, &Vec::new());
    assert_eq!(answer.output, b"o ");
    assert!(matches!(answer.next, Next::Continue));
    assert_eq!(line_of(&editor), "echo ");
    assert!(!editor.bell_rang);
}

#[test]
fn completion_without_candidates_rings_the_bell() {
    let shell = Shell::new();
    let mut editor = LineEditor::new(&shell);
    let (written, _) = type_bytes(&mut editor, &shell, b"zz\t");
    assert_eq!(written, b"zz\x07");
    assert!(!editor.bell_rang);
    assert_eq!(line_of(&editor), "zz");
}

#[test]
fn second_tab_in_a_row_lists_the_candidates() {
    let shell = Shell::with_builtins(vec![Builtin::Echo, Builtin::Exit]);
    let mut editor = LineEditor::new(&shell);
    let (written, _) = type_bytes(&mut editor, &shell, b"e\t");
    assert_eq!(written, b"e\x07");
    assert!(editor.bell_rang);
    let (written, _) = type_bytes(&mut editor, &shell, b"\t");
    assert_eq!(written, b"\necho  exit\n$ e\x07");
    assert!(editor.bell_rang);
    assert_eq!(line_of(&editor), "e");
}

#[test]
fn any_other_key_forgets_the_bell() {
    let shell = Shell::with_builtins(vec![Builtin::Echo, Builtin::Exit]);
    let mut editor = LineEditor::new(&shell);
    type_bytes(&mut editor, &shell, b"e\t");
    assert!(editor.bell_rang);
    let (written, _) = type_bytes(&mut editor, &shell, b"x\x7f\t");
    assert_eq!(written, b"x\x08 \x08\x07");
    assert!(editor.bell_rang);
}

#[test]
fn completion_uses_the_directory_entries() {
    let shell = Shell::with_builtins(Vec::new());
    let mut editor = LineEditor::new(&shell);
    type_bytes(&mut editor, &shell, b"my");
    editor.feed(&shell, Input::Byte(b'\t'));
    let entries = vec![PathEntry { name: "mytool".to_string(), is_file: true, mode: 0o755 }];
    let answer = editor.complete(&shell, &entries);
    assert_eq!(answer.output, b"tool ");
    assert_eq!(line_of(&editor), "mytool ");
}

#[test]
fn bytes_above_ascii_are_echoed_as_they_came() {
    let shell = Shell::new();
    let mut editor = LineEditor::new(&shell);
    let (written, _) = type_bytes(&mut editor, &shell, &[0xe9]);
    assert_eq!(written, vec![0xe9]);
    assert_eq!(line_of(&editor), "\u{e9}");
}

#[test]
fn erasing_counts_the_bytes_of_the_line() {
    let mut line: Vec<char> = vec!['\u{e9}'];
    let written = change_line(&mut line, &"ok".to_string());
    assert_eq!(written, b"\x08\x08  \x08\x08ok");
    assert_eq!(line, vec!['o', 'k']);
}

#[test]
fn change_of_an_empty_line_only_writes_the_content() {
    let mut line: Vec<char> = Vec::new();
    let written = change_line(&mut line, &"abc".to_string());
    assert_eq!(written, b"abc");
}

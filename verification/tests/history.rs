use shell_starter_rust::builtins::{builtin_history, Effect};
use shell_starter_rust::history::{
    decimal_of, history_listing, lines_of, render_lines, tail_start_of,
};
use shell_starter_rust::shell::Shell;

fn strings(items: &[&str]) -> Vec<String> {
    items.iter().map(|s| s.to_string()).collect()
}

fn shell_after(commands: &[&str]) -> Shell {
    let mut shell = Shell::new();
    for command in commands {
        shell.record(command.to_string());
    }
    shell
}

#[test]
fn history_of_a_count_prints_the_last_entries() {
    let mut shell = shell_after(&["echo a", "echo b", "history 2"]);
    let effect = builtin_history(&mut shell, &strings(&["history", "2"]));
    match effect {
        Effect::Print(lines) => {
            assert_eq!(lines, strings(&["    1  echo b", "    2  history 2"]));
        }
        _ => panic!("the history is printed"),
    }
}

#[test]
fn history_without_argument_prints_everything() {
    let mut shell = shell_after(&["one", "two", "three"]);
    let effect = builtin_history(&mut shell, &strings(&["history"]));
    assert!(matches!(effect, Effect::Print(lines)
        if lines == strings(&["    1  one", "    2  two", "    3  three"])));
}

#[test]
fn history_of_a_large_count_prints_everything() {
    let mut shell = shell_after(&["one", "two"]);
    let effect = builtin_history(&mut shell, &strings(&["history", "10"]));
    assert!(matches!(effect, Effect::Print(lines) if lines == strings(&["    1  one", "    2  two"])));
    let effect = builtin_history(
        &mut shell,
        &strings(&["history", "99999999999999999999999999999999"]),
    );
    assert!(matches!(effect, Effect::Print(lines) if lines.len() == 2));
}

#[test]
fn history_of_zero_prints_nothing() {
    let mut shell = shell_after(&["one", "two"]);
    let effect = builtin_history(&mut shell, &strings(&["history", "0"]));
    assert!(matches!(effect, Effect::Print(lines) if lines.is_empty()));
}

#[test]
fn history_rejects_what_is_no_number() {
    let mut shell = shell_after(&["one"]);
    for bad in ["abc", "-5", "1x", "+1", "", "-r", "-w", "-a", "-x", "\u{b2}"] {
        let effect = builtin_history(&mut shell, &strings(&["history", bad]));
        assert!(
            matches!(effect, Effect::Complain(line) if line == "history: invalid parameter"),
            "{:?}",
            bad
        );
    }
}

#[test]
fn written_history_reads_back_the_same() {
    let mut first = shell_after(&["echo a", "ls | wc", "history -w f"]);
    let text = match builtin_history(&mut first, &strings(&["history", "-w", "f"])) {
        Effect::SaveHistory { path, text, append } => {
            assert_eq!(path, "f");
            assert!(!append);
            text
        }
        _ => panic!("the history is saved"),
    };
    assert_eq!(text, "echo a\nls | wc\nhistory -w f\n");
    let mut fresh = Shell::new();
    match builtin_history(&mut fresh, &strings(&["history", "-r", "f"])) {
        Effect::LoadHistory { path } => assert_eq!(path, "f"),
        _ => panic!("the history is loaded"),
    }
    fresh.read_history(&text);
    assert_eq!(fresh.history, first.history);
}

#[test]
fn append_writes_only_what_is_new() {
    let mut shell = shell_after(&["a", "b"]);
    let effect = builtin_history(&mut shell, &strings(&["history", "-a", "f"]));
    assert!(matches!(effect, Effect::SaveHistory { path, text, append }
        if path == "f" && text == "a\nb\n" && append));
    assert_eq!(shell.last_history_append_index, 2);
    shell.record("c".to_string());
    let effect = builtin_history(&mut shell, &strings(&["history", "-a", "g"]));
    assert!(matches!(effect, Effect::SaveHistory { path, text, append }
        if path == "g" && text == "c\n" && append));
    assert_eq!(shell.last_history_append_index, 3);
    let effect = builtin_history(&mut shell, &strings(&["history", "-a", "g"]));
    assert!(matches!(effect, Effect::SaveHistory { text, .. } if text.is_empty()));
}

#[test]
fn write_does_not_move_the_append_mark() {
    let mut shell = shell_after(&["a"]);
    builtin_history(&mut shell, &strings(&["history", "-w", "f"]));
    assert_eq!(shell.last_history_append_index, 0);
    assert_eq!(shell.append_history(), "a\n");
}

#[test]
fn lines_of_a_text() {
    assert_eq!(lines_of(""), Vec::<String>::new());
    assert_eq!(lines_of("\n"), strings(&[""]));
    assert_eq!(lines_of("a"), strings(&["a"]));
    assert_eq!(lines_of("a\n"), strings(&["a"]));
    assert_eq!(lines_of("a\nb"), strings(&["a", "b"]));
    assert_eq!(lines_of("a\n\nb\n"), strings(&["a", "", "b"]));
    assert_eq!(lines_of("a\r\nb\r\n"), strings(&["a", "b"]));
    assert_eq!(lines_of("a\r\r\nb\r"), strings(&["a\r", "b\r"]));
}

#[test]
fn lines_agree_with_the_standard_library() {
    for text in ["", "\n", "a", "x\ny\n", "x\r\ny", "\r\n\r\n", "a\rb\n", "tail\r", "\r"] {
        let expected: Vec<String> = text.lines().map(String::from).collect();
        assert_eq!(lines_of(text), expected, "{:?}", text);
    }
}

#[test]
fn rendered_lines() {
    assert_eq!(render_lines(&strings(&["a", "b", "c"]), 0), "a\nb\nc\n");
    assert_eq!(render_lines(&strings(&["a", "b", "c"]), 2), "c\n");
    assert_eq!(render_lines(&strings(&["a", "b", "c"]), 3), "");
    assert_eq!(render_lines(&Vec::new(), 0), "");
}

#[test]
fn decimal_numerals() {
    let text = |n: usize| decimal_of(n).into_iter().collect::<String>();
    assert_eq!(text(0), "0");
    assert_eq!(text(7), "7");
    assert_eq!(text(10), "10");
    assert_eq!(text(4096), "4096");
    assert_eq!(text(usize::MAX), usize::MAX.to_string());
}

#[test]
fn listing_numbers_are_right_aligned() {
    let entries: Vec<String> = (0..12).map(|i| format!("c{}", i)).collect();
    let shown = history_listing(&entries, 0);
    assert_eq!(shown[0], "    1  c0");
    assert_eq!(shown[8], "    9  c8");
    assert_eq!(shown[9], "   10  c9");
    assert_eq!(shown[11], "   12  c11");
    for (index, line) in shown.iter().enumerate() {
        assert_eq!(*line, format!("{:5}  {}", index + 1, entries[index]));
    }
}

#[test]
fn listing_counts_from_where_it_starts() {
    let shown = history_listing(&strings(&["a", "b", "c", "d"]), 2);
    assert_eq!(shown, strings(&["    1  c", "    2  d"]));
}

#[test]
fn start_of_the_tail() {
    assert_eq!(tail_start_of(5, "2"), Some(3));
    assert_eq!(tail_start_of(5, "5"), Some(0));
    assert_eq!(tail_start_of(5, "6"), Some(0));
    assert_eq!(tail_start_of(5, "0"), Some(5));
    assert_eq!(tail_start_of(5, "007"), Some(0));
    assert_eq!(tail_start_of(5, "003"), Some(2));
    assert_eq!(tail_start_of(0, "3"), Some(0));
    assert_eq!(tail_start_of(5, ""), None);
    assert_eq!(tail_start_of(5, "2a"), None);
    assert_eq!(tail_start_of(5, " 2"), None);
}

use shell_starter_rust::autocomplete::{
    autocomplete, bell, complete, find_shared_prefix, prompt, AutocompleteResult, PathEntry,
};
use shell_starter_rust::shell::{Builtin, Shell};

fn entry(name: &str, is_file: bool, mode: u32) -> PathEntry {
    PathEntry { name: name.to_string(), is_file, mode }
}

fn strings(items: &[&str]) -> Vec<String> {
    items.iter().map(|s| s.to_string()).collect()
}

#[test]
fn two_builtins_with_nothing_in_common() {
    let shell = Shell::with_builtins(vec![Builtin::Echo, Builtin::Exit]);
    let mut line = "e".to_string();
    let completion = autocomplete(&shell, &Vec::new(), &mut line, false);
    assert_eq!(completion.candidates, strings(&["cho", "xit"]));
    assert_eq!(completion.result, AutocompleteResult::More);
    assert_eq!(line, "e");
    assert_eq!(completion.output, "");
}

#[test]
fn single_candidate_is_taken_with_a_space() {
    let shell = Shell::with_builtins(vec![Builtin::Echo, Builtin::Exit]);
    let mut line = "ech".to_string();
    let completion = autocomplete(&shell, &Vec::new(), &mut line, false);
    assert_eq!(completion.candidates, strings(&["o"]));
    assert_eq!(completion.result, AutocompleteResult::Found);
    assert_eq!(line, "echo ");
    assert_eq!(completion.output, "o ");
}

#[test]
fn no_candidate_changes_nothing() {
    let shell = Shell::new();
    let mut line = "zz".to_string();
    let completion = autocomplete(&shell, &Vec::new(), &mut line, true);
    assert!(completion.candidates.is_empty());
    assert_eq!(completion.result, AutocompleteResult::NoMatch);
    assert_eq!(line, "zz");
    assert_eq!(completion.output, "");
}

#[test]
fn second_request_lists_the_candidates() {
    let shell = Shell::with_builtins(vec![Builtin::Exit, Builtin::Echo]);
    let mut line = "e".to_string();
    let completion = autocomplete(&shell, &Vec::new(), &mut line, true);
    assert_eq!(completion.result, AutocompleteResult::More);
    assert_eq!(line, "e");
    assert_eq!(completion.output, "\necho  exit\n$ e");
}

#[test]
fn shared_prefix_is_taken_without_a_space() {
    let shell = Shell::with_builtins(Vec::new());
    let entries = vec![
        entry("xyz_foo", true, 0o755),
        entry("xyz_foo_bar", true, 0o755),
        entry("xyz_foo_bar_baz", true, 0o700),
    ];
    let mut line = "xyz_".to_string();
    let completion = autocomplete(&shell, &entries, &mut line, false);
    assert_eq!(completion.candidates, strings(&["foo", "foo_bar", "foo_bar_baz"]));
    assert_eq!(completion.result, AutocompleteResult::Found);
    assert_eq!(line, "xyz_foo");
    assert_eq!(completion.output, "foo");
}

#[test]
fn only_executable_regular_files_are_candidates() {
    let shell = Shell::with_builtins(Vec::new());
    let entries = vec![
        entry("tool_dir", false, 0o755),
        entry("tool_data", true, 0o644),
        entry("tool_run", true, 0o001),
    ];
    let mut line = "tool_".to_string();
    let completion = autocomplete(&shell, &entries, &mut line, false);
    assert_eq!(completion.candidates, strings(&["run"]));
    assert_eq!(completion.result, AutocompleteResult::Found);
    assert_eq!(line, "tool_run ");
}

#[test]
fn candidates_are_listed_once() {
    let shell = Shell::with_builtins(vec![Builtin::Echo]);
    let entries = vec![entry("echo", true, 0o755), entry("echo", true, 0o755)];
    let mut line = "ec".to_string();
    let completion = autocomplete(&shell, &entries, &mut line, false);
    assert_eq!(completion.candidates, strings(&["ho"]));
    assert_eq!(line, "echo ");
}

#[test]
fn candidates_are_sorted_by_length_then_text() {
    let shell = Shell::with_builtins(Vec::new());
    let entries = vec![
        entry("abcc", true, 0o755),
        entry("ab", true, 0o755),
        entry("aab", true, 0o755),
        entry("aaa", true, 0o755),
        entry("ac", true, 0o755),
    ];
    let mut line = "a".to_string();
    let completion = autocomplete(&shell, &entries, &mut line, true);
    assert_eq!(completion.candidates, strings(&["b", "c", "aa", "ab", "bcc"]));
    assert_eq!(completion.result, AutocompleteResult::More);
    assert_eq!(completion.output, "\nab  ac  aaa  aab  abcc\n$ a");
}

#[test]
fn whole_name_typed_has_the_empty_candidate() {
    let shell = Shell::with_builtins(vec![Builtin::Echo]);
    let mut line = "echo".to_string();
    let completion = autocomplete(&shell, &Vec::new(), &mut line, false);
    assert_eq!(completion.candidates, strings(&[""]));
    assert_eq!(completion.result, AutocompleteResult::Found);
    assert_eq!(line, "echo ");
}

#[test]
fn completion_on_characters() {
    let shell = Shell::new();
    let mut line: Vec<char> = "hist".chars().collect();
    let completion = complete(&shell, &Vec::new(), &mut line, false);
    assert_eq!(completion.result, AutocompleteResult::Found);
    assert_eq!(line.iter().collect::<String>(), "history ");
}

#[test]
fn shared_prefix_of_texts() {
    assert_eq!(find_shared_prefix(&strings(&["foo", "foo_bar", "fox"])), "fo");
    assert_eq!(find_shared_prefix(&strings(&["abc"])), "abc");
    assert_eq!(find_shared_prefix(&strings(&["abc", "xbc"])), "");
    assert_eq!(find_shared_prefix(&strings(&["abc", ""])), "");
    assert_eq!(find_shared_prefix(&strings(&["long", "lo"])), "lo");
    assert_eq!(find_shared_prefix(&strings(&["\u{e9}t\u{e9}", "\u{e9}tat"])), "\u{e9}t");
}

#[test]
fn prompt_and_bell() {
    assert_eq!(prompt(), "$ ");
    assert_eq!(bell(), 0x07);
}

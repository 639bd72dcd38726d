use shell_starter_rust::parser::{
    is_space, parse_argv, parse_pipeline, ParsedLine, Redirect, StandardNamedStream,
};

fn argv(line: &str) -> Vec<String> {
    parse_argv(line.to_string()).arguments
}

fn redirects(line: &str) -> Vec<(StandardNamedStream, String, bool)> {
    parse_argv(line.to_string())
        .redirects
        .into_iter()
        .map(|r: Redirect| (r.stream_name, r.path, r.append))
        .collect()
}

#[test]
fn whitespace_runs_collapse() {
    assert_eq!(argv("echo  a   b"), vec!["echo", "a", "b"]);
    assert!(redirects("echo  a   b").is_empty());
}

#[test]
fn leading_and_trailing_spaces_make_no_argument() {
    assert_eq!(argv("   echo a  "), vec!["echo", "a"]);
}

#[test]
fn blank_line_has_no_argument() {
    assert!(argv("").is_empty());
    assert!(argv("     ").is_empty());
    assert!(redirects("   ").is_empty());
}

#[test]
fn single_and_double_quotes() {
    assert_eq!(argv("echo 'a b' \"c\\\"d\""), vec!["echo", "a b", "c\"d"]);
}

#[test]
fn backslash_stays_before_what_it_does_not_escape() {
    assert_eq!(argv("echo \"a\\$b\""), vec!["echo", "a\\$b"]);
}

#[test]
fn backslash_in_double_quotes_escapes_backslash() {
    assert_eq!(argv("echo \"a\\\\b\""), vec!["echo", "a\\b"]);
}

#[test]
fn single_quotes_keep_backslashes() {
    assert_eq!(argv("echo 'a\\nb' 'c\"d'"), vec!["echo", "a\\nb", "c\"d"]);
}

#[test]
fn backslash_outside_quotes_takes_next_character() {
    assert_eq!(argv("echo a\\ b \\'x\\' \\>"), vec!["echo", "a b", "'x'", ">"]);
}

#[test]
fn adjacent_quoted_parts_form_one_argument() {
    assert_eq!(argv("echo 'a'\"b\"c"), vec!["echo", "abc"]);
}

#[test]
fn empty_quotes_make_an_empty_argument() {
    assert_eq!(argv("echo '' \"\" x"), vec!["echo", "", "", "x"]);
    assert_eq!(argv("''"), vec![""]);
    assert_eq!(argv("\"\""), vec![""]);
    assert_eq!(argv("a''b"), vec!["ab"]);
}

#[test]
fn command_is_empty_only_if_the_line_is_blank() {
    for line in ["", " ", "\t", " \t \n", "\u{a0}\u{3000}"] {
        let parsed = parse_argv(line.to_string());
        assert!(parsed.arguments.is_empty() && parsed.redirects.is_empty(), "{:?}", line);
    }
    for line in ["a", "''", "\"\"", "\\", ">", "1", " ' ", "\t>\t"] {
        let parsed = parse_argv(line.to_string());
        assert!(!(parsed.arguments.is_empty() && parsed.redirects.is_empty()), "{:?}", line);
    }
}

#[test]
fn stderr_append_redirect() {
    assert_eq!(argv("cmd arg 2>> err.log"), vec!["cmd", "arg"]);
    assert_eq!(
        redirects("cmd arg 2>> err.log"),
        vec![(StandardNamedStream::Error, "err.log".to_string(), true)]
    );
}

#[test]
fn redirect_operators() {
    assert_eq!(
        redirects("a > o"),
        vec![(StandardNamedStream::Output, "o".to_string(), false)]
    );
    assert_eq!(
        redirects("a 1> o"),
        vec![(StandardNamedStream::Output, "o".to_string(), false)]
    );
    assert_eq!(
        redirects("a >> o"),
        vec![(StandardNamedStream::Output, "o".to_string(), true)]
    );
    assert_eq!(
        redirects("a 1>> o"),
        vec![(StandardNamedStream::Output, "o".to_string(), true)]
    );
    assert_eq!(
        redirects("a 2> e"),
        vec![(StandardNamedStream::Error, "e".to_string(), false)]
    );
    assert_eq!(
        redirects("a 2>>e"),
        vec![(StandardNamedStream::Error, "e".to_string(), true)]
    );
}

#[test]
fn other_digit_names_unknown_stream() {
    assert_eq!(argv("a 3> f b"), vec!["a", "b"]);
    assert_eq!(
        redirects("a 3> f b"),
        vec![(StandardNamedStream::Unknown, "f".to_string(), false)]
    );
}

#[test]
fn several_redirects_keep_their_order() {
    assert_eq!(argv("a > x 2> y >> z b"), vec!["a", "b"]);
    assert_eq!(
        redirects("a > x 2> y >> z b"),
        vec![
            (StandardNamedStream::Output, "x".to_string(), false),
            (StandardNamedStream::Error, "y".to_string(), false),
            (StandardNamedStream::Output, "z".to_string(), true),
        ]
    );
}

#[test]
fn quoted_redirect_destination() {
    assert_eq!(
        redirects("a > 'my file'"),
        vec![(StandardNamedStream::Output, "my file".to_string(), false)]
    );
}

#[test]
fn redirect_operator_ends_the_word_before_it() {
    assert_eq!(argv("a>b c"), vec!["a", "c"]);
    assert_eq!(redirects("a>b c"), vec![(StandardNamedStream::Output, "b".to_string(), false)]);
    assert_eq!(argv("echo a>b c"), vec!["echo", "a", "c"]);
    assert_eq!(argv("echo x2>e y"), vec!["echo", "x", "y"]);
    assert_eq!(
        redirects("echo x2>e y"),
        vec![(StandardNamedStream::Error, "e".to_string(), false)]
    );
    assert_eq!(argv("'a b'>o"), vec!["a b"]);
}

#[test]
fn redirect_without_destination_has_empty_path() {
    assert_eq!(argv("a >"), vec!["a"]);
    assert_eq!(
        redirects("a >"),
        vec![(StandardNamedStream::Output, String::new(), false)]
    );
}

#[test]
fn operator_behind_an_operator_leaves_the_first_without_destination() {
    assert_eq!(argv("cmd >>> f"), vec!["cmd"]);
    assert_eq!(
        redirects("cmd >>> f"),
        vec![
            (StandardNamedStream::Output, String::new(), true),
            (StandardNamedStream::Output, "f".to_string(), false),
        ]
    );
}

#[test]
fn empty_quotes_are_a_destination() {
    assert_eq!(argv("a > '' b"), vec!["a", "b"]);
    assert_eq!(redirects("a > '' b"), vec![(StandardNamedStream::Output, String::new(), false)]);
}

#[test]
fn digit_without_operator_is_text() {
    assert_eq!(argv("echo 12 3"), vec!["echo", "12", "3"]);
    assert_eq!(argv("echo 12>f"), vec!["echo", "1"]);
    assert_eq!(
        redirects("echo 12>f"),
        vec![(StandardNamedStream::Error, "f".to_string(), false)]
    );
    assert_eq!(argv("echo 7"), vec!["echo", "7"]);
}

#[test]
fn unterminated_quote_ends_with_the_line() {
    assert_eq!(argv("echo 'a b"), vec!["echo", "a b"]);
    assert_eq!(argv("echo \"a b"), vec!["echo", "a b"]);
    assert_eq!(argv("echo a\\"), vec!["echo", "a"]);
    assert_eq!(argv("echo \"a\\"), vec!["echo", "a"]);
}

#[test]
fn every_kind_of_whitespace_separates() {
    assert_eq!(argv("a\tb"), vec!["a", "b"]);
    assert_eq!(argv("\ta \t b\n"), vec!["a", "b"]);
    assert_eq!(argv("a\u{a0}b\u{2003}c\u{3000}"), vec!["a", "b", "c"]);
    assert_eq!(argv("'a\tb' c\\\td"), vec!["a\tb", "c\td"]);
    assert!(argv("\t").is_empty());
}

#[test]
fn plain_lines_split_as_the_standard_library_splits_whitespace() {
    for line in ["", "  ", "a", " a  b ", "\ta\nb\r\nc", "x\u{85}y\u{1680}z", "1 22 3a", "a|b c"] {
        let expected: Vec<&str> = line.split_whitespace().collect();
        assert_eq!(argv(line), expected, "{:?}", line);
        assert!(redirects(line).is_empty());
    }
}

#[test]
fn whitespace_is_what_the_standard_library_calls_whitespace() {
    for code in 0..=0x10ffffu32 {
        if let Some(c) = char::from_u32(code) {
            assert_eq!(is_space(c), c.is_whitespace(), "{:x}", code);
        }
    }
}

#[test]
fn stream_from_descriptor_number() {
    assert_eq!(StandardNamedStream::from(1), StandardNamedStream::Output);
    assert_eq!(StandardNamedStream::from(2), StandardNamedStream::Error);
    assert_eq!(StandardNamedStream::from(0), StandardNamedStream::Unknown);
    assert_eq!(StandardNamedStream::from(77), StandardNamedStream::Unknown);
}

#[test]
fn pipeline_has_one_command_per_stage() {
    let stages: Vec<ParsedLine> = parse_pipeline("cat f | grep 'a b' | wc -l > n");
    assert_eq!(stages.len(), 3);
    assert_eq!(stages[0].arguments, vec!["cat", "f"]);
    assert_eq!(stages[1].arguments, vec!["grep", "a b"]);
    assert_eq!(stages[2].arguments, vec!["wc", "-l"]);
    assert_eq!(stages[2].redirects.len(), 1);
    assert_eq!(stages[2].redirects[0].path, "n");
}

#[test]
fn line_without_bar_is_one_stage() {
    let stages = parse_pipeline("echo hi");
    assert_eq!(stages.len(), 1);
    assert_eq!(stages[0].arguments, vec!["echo", "hi"]);
    let blank = parse_pipeline("");
    assert_eq!(blank.len(), 1);
    assert!(blank[0].arguments.is_empty());
}

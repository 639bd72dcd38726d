use shell_starter_rust::builtins::{
    builtin_cd, builtin_echo, builtin_exit, builtin_pwd, builtin_type, cd_outcome, Base, Effect,
};
use shell_starter_rust::shell::{Builtin, PathCandidate, Shell};

fn strings(items: &[&str]) -> Vec<String> {
    items.iter().map(|s| s.to_string()).collect()
}

fn printed(effect: Effect) -> Vec<String> {
    match effect {
        Effect::Print(lines) => lines,
        _ => panic!("lines are printed"),
    }
}

#[test]
fn exit_ends_with_status_zero() {
    assert!(matches!(builtin_exit(), Effect::Exit(0)));
}

#[test]
fn echo_joins_its_arguments() {
    assert_eq!(printed(builtin_echo(&strings(&["echo", "a", "b  c", "d"]))), vec!["a b  c d"]);
    assert_eq!(printed(builtin_echo(&strings(&["echo", "x"]))), vec!["x"]);
    assert_eq!(printed(builtin_echo(&strings(&["echo"]))), vec![""]);
}

#[test]
fn type_of_a_builtin() {
    let shell = Shell::new();
    let candidates = vec![PathCandidate { path: "/bin/echo".to_string(), exists: true }];
    let lines = printed(builtin_type(&shell, &strings(&["type", "echo"]), &candidates));
    assert_eq!(lines, vec!["echo is a shell builtin"]);
}

#[test]
fn type_of_a_program() {
    let shell = Shell::new();
    let candidates = vec![
        PathCandidate { path: "/opt/ls".to_string(), exists: false },
        PathCandidate { path: "/bin/ls".to_string(), exists: true },
    ];
    let lines = printed(builtin_type(&shell, &strings(&["type", "ls"]), &candidates));
    assert_eq!(lines, vec!["ls is /bin/ls"]);
}

#[test]
fn type_of_nothing() {
    let shell = Shell::with_builtins(vec![Builtin::Type]);
    let lines = printed(builtin_type(&shell, &strings(&["type", "nosuch"]), &Vec::new()));
    assert_eq!(lines, vec!["nosuch: not found"]);
    let lines = printed(builtin_type(&shell, &strings(&["type", "echo"]), &Vec::new()));
    assert_eq!(lines, vec!["echo: not found"]);
}

#[test]
fn pwd_prints_the_directory_or_the_reason() {
    assert_eq!(printed(builtin_pwd(&Ok("/home/me".to_string()))), vec!["/home/me"]);
    let effect = builtin_pwd(&Err("gone".to_string()));
    assert!(matches!(effect, Effect::Complain(line) if line == "pwd: gone"));
}

#[test]
fn cd_to_an_absolute_path() {
    let effect = builtin_cd(&strings(&["cd", "/usr/lib"]), true, true);
    match effect {
        Effect::ChangeDirectory { base, path, failure } => {
            assert_eq!(base, Base::Root);
            assert_eq!(path, "/usr/lib");
            assert_eq!(failure, "cd: /usr/lib: No such file or directory");
        }
        _ => panic!("the directory changes"),
    }
}

#[test]
fn cd_to_a_relative_path() {
    for path in ["../x", "./x", "docs", "docs/more", ""] {
        let effect = builtin_cd(&strings(&["cd", path]), true, false);
        match effect {
            Effect::ChangeDirectory { base, path: target, failure } => {
                assert_eq!(base, Base::Current);
                assert_eq!(target, path);
                assert_eq!(failure, format!("cd: {}: No such file or directory", path));
            }
            _ => panic!("the directory changes"),
        }
    }
}

#[test]
fn cd_to_a_relative_path_without_a_working_directory_fails() {
    for path in ["./x", "docs"] {
        let effect = builtin_cd(&strings(&["cd", path]), false, true);
        let expected = format!("cd: {}: No such file or directory", path);
        assert!(matches!(effect, Effect::Complain(line) if line == expected));
    }
}

#[test]
fn cd_to_the_home_directory() {
    let effect = builtin_cd(&strings(&["cd", "~/docs"]), false, true);
    match effect {
        Effect::ChangeDirectory { base, path, failure } => {
            assert_eq!(base, Base::Home);
            assert_eq!(path, ".//docs");
            assert_eq!(failure, "cd: ~/docs: No such file or directory");
        }
        _ => panic!("the directory changes"),
    }
    let effect = builtin_cd(&strings(&["cd", "~"]), true, true);
    assert!(matches!(effect, Effect::ChangeDirectory { base: Base::Home, path, .. } if path == "./"));
    let effect = builtin_cd(&strings(&["cd", "~"]), true, false);
    assert!(matches!(effect, Effect::Complain(line) if line == "cd: $HOME not set"));
}

#[test]
fn directory_that_cannot_be_entered_is_reported() {
    let failure = "cd: nosuchdir: No such file or directory".to_string();
    let effect = cd_outcome(failure.clone(), false);
    assert!(matches!(effect, Effect::Complain(line) if line == failure));
    assert!(matches!(cd_outcome(failure, true), Effect::Nothing));
}

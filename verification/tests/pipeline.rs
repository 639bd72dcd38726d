use shell_starter_rust::parser::{parse_argv, parse_pipeline, ParsedLine};
use shell_starter_rust::pipeline::{
    eval, next_redirect, run_pipeline, run_single, Job, Launch, Pipeline, Program, Sink, Source,
    Stage, Step,
};
use shell_starter_rust::shell::{Builtin, PathCandidate, Shell};
use shell_starter_rust::stream::{Opening, Target};
use std::io::{Error, ErrorKind};

/// The outcomes of a command all of whose files could be opened.
fn all_opened(command: &ParsedLine) -> Vec<Opening> {
    let mut outcomes: Vec<Opening> = Vec::new();
    while next_redirect(command, &outcomes).is_some() {
        outcomes.push(Ok(()));
    }
    outcomes
}

fn denied(text: &str) -> Opening {
    Err(Error::new(ErrorKind::PermissionDenied, text.to_string()))
}

fn single(shell: &Shell, line: &str, candidates: &Vec<PathCandidate>) -> Step {
    let command = parse_argv(line.to_string());
    let outcomes = all_opened(&command);
    match run_single(shell, &command, candidates, outcomes) {
        Ok(step) => step,
        Err(error) => panic!("every file was opened: {}", error),
    }
}

fn plan(shell: &Shell, commands: &Vec<ParsedLine>, candidates: &Vec<Vec<PathCandidate>>) -> Pipeline {
    let outcomes = commands.iter().map(all_opened).collect();
    run_pipeline(shell, commands, candidates, outcomes)
}

fn found(path: &str) -> Vec<PathCandidate> {
    vec![PathCandidate { path: path.to_string(), exists: true }]
}

fn launch_of(stage: &Stage) -> &Launch {
    match stage {
        Stage::Launch(launch) => launch,
        _ => panic!("the stage is launched"),
    }
}

#[test]
fn committed_line_joins_the_history() {
    let mut shell = Shell::new();
    let job = eval(&mut shell, "echo hi".to_string());
    assert_eq!(shell.history, vec!["echo hi"]);
    match job {
        Job::Single(command) => assert_eq!(command.arguments, vec!["echo", "hi"]),
        Job::Pipeline(_) => panic!("one command is a single job"),
    }
}

#[test]
fn line_with_bars_is_a_pipeline() {
    let mut shell = Shell::new();
    let job = eval(&mut shell, "a | b x | c".to_string());
    assert_eq!(shell.history, vec!["a | b x | c"]);
    match job {
        Job::Pipeline(commands) => {
            assert_eq!(commands.len(), 3);
            assert_eq!(commands[1].arguments, vec!["b", "x"]);
        }
        Job::Single(_) => panic!("three stages are a pipeline"),
    }
}

#[test]
fn empty_command_does_nothing() {
    let shell = Shell::new();
    let step = single(&shell, "   ", &Vec::new());
    assert!(matches!(step, Step::Nothing));
    let step = single(&shell, "> out", &Vec::new());
    assert!(matches!(step, Step::Nothing));
}

#[test]
fn single_builtin_runs_in_the_shell() {
    let shell = Shell::new();
    let step = single(&shell, "echo hi > out 2> err", &found("/bin/echo"));
    match step {
        Step::Builtin { builtin, streams } => {
            assert_eq!(builtin, Builtin::Echo);
            assert_eq!(streams.output, Some(0));
            assert_eq!(streams.error, Some(1));
        }
        _ => panic!("echo is a builtin"),
    }
}

#[test]
fn single_program_is_launched_under_its_typed_name() {
    let shell = Shell::new();
    let step = single(&shell, "ls -l /tmp", &found("/usr/bin/ls"));
    match step {
        Step::Launch(launch) => {
            assert!(matches!(launch.program, Program::Path(path) if path == "/usr/bin/ls"));
            assert_eq!(launch.name, Some("ls".to_string()));
            assert_eq!(launch.arguments, vec!["-l", "/tmp"]);
            assert_eq!(launch.stdin, Source::Inherited);
            assert_eq!(launch.stdout, Sink::Inherited);
            assert_eq!(launch.stderr, Sink::Inherited);
        }
        _ => panic!("ls is launched"),
    }
}

#[test]
fn single_program_with_redirects() {
    let shell = Shell::new();
    let step = single(&shell, "ls > a 2>> b > c", &found("/usr/bin/ls"));
    match step {
        Step::Launch(launch) => {
            assert!(launch.arguments.is_empty());
            assert_eq!(launch.stdout, Sink::File(2));
            assert_eq!(launch.stderr, Sink::File(1));
        }
        _ => panic!("ls is launched"),
    }
}

#[test]
fn unknown_command_is_reported_on_the_error_stream() {
    let shell = Shell::new();
    let step = single(&shell, "nosuch arg", &Vec::new());
    match step {
        Step::NotFound(written) => {
            assert_eq!(written.text, "nosuch: command not found\n");
            assert_eq!(written.target, Target::Inherited);
        }
        _ => panic!("nothing is found"),
    }
    let step = single(&shell, "nosuch 2> log", &Vec::new());
    match step {
        Step::NotFound(written) => {
            assert_eq!(written.text, "nosuch: command not found\n");
            assert_eq!(written.target, Target::File(0));
        }
        _ => panic!("nothing is found"),
    }
}

#[test]
fn pipeline_of_three_programs() {
    let shell = Shell::new();
    let commands = parse_pipeline("cat f | grep x 2> e | wc -l > n");
    let candidates = vec![found("/bin/cat"), found("/bin/grep"), found("/bin/wc")];
    let plan = plan(&shell, &commands, &candidates);
    assert_eq!(plan.stages.len(), 3);
    assert_eq!(plan.pipes, 2);
    assert_eq!(plan.wait_for, Some(2));

    let first = launch_of(&plan.stages[0]);
    assert!(matches!(&first.program, Program::Path(path) if path == "/bin/cat"));
    assert_eq!(first.name, Some("cat".to_string()));
    assert_eq!(first.arguments, vec!["f"]);
    assert_eq!(first.stdin, Source::Inherited);
    assert_eq!(first.stdout, Sink::Pipe(0));
    assert_eq!(first.stderr, Sink::Inherited);

    let second = launch_of(&plan.stages[1]);
    assert_eq!(second.arguments, vec!["x"]);
    assert_eq!(second.stdin, Source::Pipe(0));
    assert_eq!(second.stdout, Sink::Pipe(1));
    assert_eq!(second.stderr, Sink::File(0));

    let third = launch_of(&plan.stages[2]);
    assert_eq!(third.arguments, vec!["-l"]);
    assert_eq!(third.stdin, Source::Pipe(1));
    assert_eq!(third.stdout, Sink::File(0));
    assert_eq!(third.stderr, Sink::Inherited);
}

#[test]
fn only_the_last_stage_writes_to_the_terminal() {
    let shell = Shell::new();
    let commands = parse_pipeline("a | b | c | d");
    let candidates = vec![found("/a"), found("/b"), found("/c"), found("/d")];
    let plan = plan(&shell, &commands, &candidates);
    for (index, stage) in plan.stages.iter().enumerate() {
        let launch = launch_of(stage);
        if index + 1 < plan.stages.len() {
            assert_eq!(launch.stdout, Sink::Pipe(index));
        } else {
            assert_eq!(launch.stdout, Sink::Inherited);
        }
    }
    assert_eq!(plan.wait_for, Some(3));
}

#[test]
fn redirect_of_an_inner_stage_does_not_take_its_output_from_the_pipe() {
    let shell = Shell::new();
    let commands = parse_pipeline("a > side | b");
    let plan = plan(&shell, &commands, &vec![found("/a"), found("/b")]);
    assert_eq!(launch_of(&plan.stages[0]).stdout, Sink::Pipe(0));
}

#[test]
fn builtin_stage_is_run_by_the_own_binary() {
    let shell = Shell::new();
    let commands = parse_pipeline("echo a b | wc");
    let plan = plan(&shell, &commands, &vec![found("/bin/echo"), found("/bin/wc")]);
    let first = launch_of(&plan.stages[0]);
    assert!(matches!(first.program, Program::OwnBinary));
    assert_eq!(first.name, None);
    assert_eq!(first.arguments, vec!["--builtin", "echo", "a", "b"]);
    assert_eq!(first.stdout, Sink::Pipe(0));
    let second = launch_of(&plan.stages[1]);
    assert_eq!(second.stdin, Source::Pipe(0));
}

#[test]
fn unknown_stage_is_skipped() {
    let shell = Shell::new();
    let commands = parse_pipeline("cat | nosuch 2> e | wc");
    let plan = plan(&shell, &commands, &vec![found("/cat"), Vec::new(), found("/wc")]);
    match &plan.stages[1] {
        Stage::NotFound(written) => {
            assert_eq!(written.text, "nosuch: command not found\n");
            assert_eq!(written.target, Target::File(0));
        }
        _ => panic!("nothing is launched"),
    }
    assert_eq!(launch_of(&plan.stages[2]).stdin, Source::Pipe(1));
    assert_eq!(plan.wait_for, Some(2));
}

#[test]
fn unknown_last_stage_is_not_waited_for() {
    let shell = Shell::new();
    let commands = parse_pipeline("cat | nosuch");
    let plan = plan(&shell, &commands, &vec![found("/cat"), Vec::new()]);
    assert!(matches!(plan.stages[1], Stage::NotFound(_)));
    assert_eq!(plan.wait_for, None);
}

#[test]
fn empty_pipeline_has_no_stage() {
    let shell = Shell::new();
    let plan = plan(&shell, &Vec::new(), &Vec::new());
    assert!(plan.stages.is_empty());
    assert_eq!(plan.pipes, 0);
    assert_eq!(plan.wait_for, None);
}

#[test]
fn command_with_a_file_that_cannot_be_opened_never_runs() {
    let shell = Shell::new();
    for line in ["ls > /nonexistent-dir/out", "echo hi > /nonexistent-dir/out", "nosuch > x"] {
        let command = parse_argv(line.to_string());
        let result = run_single(&shell, &command, &found("/usr/bin/ls"), vec![denied("no")]);
        match result {
            Err(error) => assert_eq!(error.to_string(), "no"),
            Ok(_) => panic!("nothing is left to run of {:?}", line),
        }
    }
}

#[test]
fn first_failure_is_the_one_reported() {
    let shell = Shell::new();
    let command = parse_argv("ls > a 2> b > c".to_string());
    let outcomes = vec![Ok(()), denied("b"), denied("c")];
    let error = run_single(&shell, &command, &found("/bin/ls"), outcomes).err().unwrap();
    assert_eq!(error.to_string(), "b");
}

#[test]
fn empty_command_opens_nothing() {
    let shell = Shell::new();
    let command = parse_argv("> out".to_string());
    assert_eq!(next_redirect(&command, &Vec::new()), None);
    let result = run_single(&shell, &command, &Vec::new(), vec![denied("ignored")]);
    assert!(matches!(result, Ok(Step::Nothing)));
}

#[test]
fn redirects_are_opened_in_order() {
    let command = parse_argv("ls > a 2> b".to_string());
    assert_eq!(next_redirect(&command, &Vec::new()), Some(0));
    assert_eq!(next_redirect(&command, &vec![Ok(())]), Some(1));
    assert_eq!(next_redirect(&command, &vec![Ok(()), Ok(())]), None);
    assert_eq!(next_redirect(&command, &vec![denied("a")]), None);
}

#[test]
fn stage_with_a_file_that_cannot_be_opened_is_not_launched() {
    let shell = Shell::new();
    let commands = parse_pipeline("cat | grep x > /nonexistent-dir/out | wc");
    let candidates = vec![found("/cat"), found("/grep"), found("/wc")];
    let outcomes = vec![Vec::new(), vec![denied("no")], Vec::new()];
    let plan = run_pipeline(&shell, &commands, &candidates, outcomes);
    assert!(matches!(&plan.stages[0], Stage::Launch(_)));
    assert!(matches!(&plan.stages[1], Stage::Failed(error) if error.to_string() == "no"));
    assert!(matches!(&plan.stages[2], Stage::Launch(_)));
    assert_eq!(plan.wait_for, Some(2));
    let outcomes = vec![Vec::new(), Vec::new(), vec![denied("last")]];
    let commands = parse_pipeline("cat | grep x | wc > /nonexistent-dir/out");
    let plan = run_pipeline(&shell, &commands, &candidates, outcomes);
    assert!(matches!(&plan.stages[2], Stage::Failed(_)));
    assert_eq!(plan.wait_for, None);
}

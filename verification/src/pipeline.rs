//! What running a command line comes to.
//!
//! A line with one command is run where the shell is: a builtin by the shell
//! itself, a program as a child that the shell waits for. A line with several
//! commands is a pipeline, each stage of which is a process of its own: a
//! program is launched directly, and a builtin by launching the shell's own
//! binary with the request to run just that builtin. The functions here say
//! which processes to launch and how their streams are wired; launching them
//! is left to the program around the library.

use crate::parser::{parse_pipeline, parse_stages, parsed_views, ParsedLine, ParsedLineView};
use crate::shell::{candidate_views, resolve, Builtin, PathCandidate, PathCandidateView};
use crate::shell::{Resolution, Shell, ShellCommand};
use crate::stream::{next_opening, next_to_open, opened, streams_of, target_of};
use crate::stream::{Opening, RedirectStreams, Written, WrittenView};
use crate::text::{append_chars, chars_of, lemma_split_nonempty, string_of, texts};
use vstd::prelude::*;

verus! {

/// What a line asks to run.
pub enum Job {
    /// One command.
    Single(ParsedLine),
    /// A pipeline of two commands or more.
    Pipeline(Vec<ParsedLine>),
}

/// A [`Job`] as a mathematical value.
pub enum JobView {
    Single(ParsedLineView),
    Pipeline(Seq<ParsedLineView>),
}

impl View for Job {
    type V = JobView;

    open spec fn view(&self) -> JobView {
        match self {
            Job::Single(command) => JobView::Single(command@),
            Job::Pipeline(commands) => JobView::Pipeline(parsed_views(commands@)),
        }
    }
}

/// What a line asks to run: its one command, or the pipeline of its stages.
pub open spec fn job_of(line: Seq<char>) -> JobView {
    let stages = parse_stages(line);
    if stages.len() == 1 {
        JobView::Single(stages[0])
    } else {
        JobView::Pipeline(stages)
    }
}

/// Takes a committed line: it joins the history, and its commands are what
/// is to be run.
pub fn eval(shell: &mut Shell, line: String) -> (job: Job)
    ensures
        job@ == job_of(line@),
        job@ matches JobView::Pipeline(stages) ==> stages.len() >= 2,
        final(shell).entries() == old(shell).entries().push(line@),
        final(shell).builtins == old(shell).builtins,
        final(shell).flushed() == old(shell).flushed(),
{
    let mut stages = parse_pipeline(line.as_str());
    proof {
        lemma_split_nonempty(line@, '|');
    }
    let ghost before = shell.entries();
    shell.record(line);
    assert(shell.entries() =~= before.push(line@));
    if stages.len() == 1 {
        match stages.pop() {
            Some(command) => Job::Single(command),
            None => Job::Pipeline(stages),
        }
    } else {
        Job::Pipeline(stages)
    }
}

/// Where a process reads from.
#[derive(Debug, Clone, Copy, PartialEq, Eq, Structural)]
pub enum Source {
    /// Where the shell reads from.
    Inherited,
    /// The read end of the pipe of the given number.
    Pipe(usize),
}

/// Where a process writes to.
#[derive(Debug, Clone, Copy, PartialEq, Eq, Structural)]
pub enum Sink {
    /// Where the shell writes to.
    Inherited,
    /// The write end of the pipe of the given number.
    Pipe(usize),
    /// The file of the redirect at the given position.
    File(usize),
}

/// What a process executes.
pub enum Program {
    /// The file at the given path.
    Path(String),
    /// The shell's own binary.
    OwnBinary,
}

/// A [`Program`] as a mathematical value.
pub enum ProgramView {
    Path(Seq<char>),
    OwnBinary,
}

impl View for Program {
    type V = ProgramView;

    open spec fn view(&self) -> ProgramView {
        match self {
            Program::Path(path) => ProgramView::Path(path@),
            Program::OwnBinary => ProgramView::OwnBinary,
        }
    }
}

/// A process to launch.
pub struct Launch {
    pub program: Program,
    /// The name that the process sees as its own, where it is not the
    /// program's path.
    pub name: Option<String>,
    /// The arguments after the name.
    pub arguments: Vec<String>,
    pub stdin: Source,
    pub stdout: Sink,
    pub stderr: Sink,
}

/// A [`Launch`] as a mathematical value.
pub struct LaunchView {
    pub program: ProgramView,
    pub name: Option<Seq<char>>,
    pub arguments: Seq<Seq<char>>,
    pub stdin: Source,
    pub stdout: Sink,
    pub stderr: Sink,
}

impl View for Launch {
    type V = LaunchView;

    open spec fn view(&self) -> LaunchView {
        LaunchView {
            program: self.program@,
            name: match self.name {
                Some(name) => Some(name@),
                None => None,
            },
            arguments: texts(self.arguments@),
            stdin: self.stdin,
            stdout: self.stdout,
            stderr: self.stderr,
        }
    }
}

/// Where a stream goes that the redirect at the given position replaces, if
/// one does.
pub open spec fn sink_of(file: Option<usize>) -> Sink {
    match file {
        Some(at) => Sink::File(at),
        None => Sink::Inherited,
    }
}

/// What the shell says of a name that resolves to nothing.
pub open spec fn not_found(name: Seq<char>) -> Seq<char> {
    name + ": command not found"@
}

/// What running one command comes to.
pub enum Step {
    /// Nothing: the command is empty, and not even its redirects are opened.
    Nothing,
    /// The shell runs the builtin with the command's arguments and the given
    /// streams.
    Builtin { builtin: Builtin, streams: RedirectStreams },
    /// The shell launches the process and waits until it has ended.
    Launch(Launch),
    /// The shell writes the line.
    NotFound(Written),
}

/// A [`Step`] as a mathematical value.
pub enum StepView {
    Nothing,
    Builtin { builtin: Builtin, streams: RedirectStreams },
    Launch(LaunchView),
    NotFound(WrittenView),
}

impl View for Step {
    type V = StepView;

    open spec fn view(&self) -> StepView {
        match self {
            Step::Nothing => StepView::Nothing,
            Step::Builtin { builtin, streams } => StepView::Builtin {
                builtin: *builtin,
                streams: *streams,
            },
            Step::Launch(launch) => StepView::Launch(launch@),
            Step::NotFound(written) => StepView::NotFound(written@),
        }
    }
}

/// The line that says that the command's program was not found, for the
/// command's error stream.
pub open spec fn complaint(command: ParsedLineView) -> WrittenView {
    WrittenView {
        target: target_of(streams_of(command.redirects).error),
        text: not_found(command.arguments[0]).push('\n'),
    }
}

/// What running one command by itself comes to.
///
/// A program is launched under the name that was typed, not under the path
/// that it resolved to, with the arguments after the name. It reads what the
/// shell reads, and writes where the shell writes unless a redirect says
/// otherwise.
pub open spec fn single_step(
    builtins: Seq<Builtin>,
    command: ParsedLineView,
    candidates: Seq<PathCandidateView>,
) -> StepView {
    let streams = streams_of(command.redirects);
    if command.arguments.len() == 0 {
        StepView::Nothing
    } else {
        match resolve(builtins, command.arguments[0], candidates) {
            Resolution::Builtin(builtin) => StepView::Builtin { builtin, streams },
            Resolution::Executable(path) => StepView::Launch(
                LaunchView {
                    program: ProgramView::Path(path),
                    name: Some(command.arguments[0]),
                    arguments: command.arguments.skip(1),
                    stdin: Source::Inherited,
                    stdout: sink_of(streams.output),
                    stderr: sink_of(streams.error),
                },
            ),
            Resolution::NotFound => StepView::NotFound(complaint(command)),
        }
    }
}

fn copy_from(v: &Vec<String>, from: usize) -> (copy: Vec<String>)
    requires
        from <= v.len(),
    ensures
        texts(copy@) == texts(v@).skip(from as int),
{
    let mut copy: Vec<String> = Vec::new();
    let mut i: usize = from;
    while i < v.len()
        invariant
            from <= i <= v.len(),
            copy.len() == i - from,
            forall|k: int| 0 <= k < i - from ==> (#[trigger] copy[k])@ == v[from + k]@,
        decreases v.len() - i,
    {
        copy.push(v[i].clone());
        i += 1;
    }
    assert(texts(copy@) =~= texts(v@).skip(from as int));
    copy
}

fn sink(file: Option<usize>) -> (sink: Sink)
    ensures
        sink == sink_of(file),
{
    match file {
        Some(at) => Sink::File(at),
        None => Sink::Inherited,
    }
}

fn complain(command: &ParsedLine, streams: &RedirectStreams) -> (written: Written)
    requires
        command.arguments.len() > 0,
        *streams == streams_of(command@.redirects),
    ensures
        written@ == complaint(command@),
{
    let mut message = chars_of(command.arguments[0].as_str());
    let rest = chars_of(": command not found");
    append_chars(&mut message, &rest);
    let message = string_of(&message);
    streams.println_error(message.as_str())
}

/// The redirect of the command whose file is to be opened next, given how
/// the openings so far ended. An empty command opens none; any other command
/// opens the files of its redirects in their order, up to the first that
/// fails.
pub open spec fn next_redirect_of(command: ParsedLineView, outcomes: Seq<Opening>) -> Option<
    usize,
> {
    if command.arguments.len() == 0 {
        None
    } else {
        next_opening(command.redirects.len(), outcomes)
    }
}

/// Says which redirect's file to open next before the command is run, if
/// any.
pub fn next_redirect(command: &ParsedLine, outcomes: &Vec<Opening>) -> (next: Option<usize>)
    ensures
        next == next_redirect_of(command@, outcomes@),
{
    if command.arguments.len() == 0 {
        None
    } else {
        next_to_open(&command.redirects, outcomes)
    }
}

/// What running one command by itself comes to, given how opening the files
/// of its redirects ended. An empty command does nothing. A command of which
/// a file could not be opened is not run: what is left is the error of the
/// first opening that failed. Every other command takes its step.
pub open spec fn single_outcome(
    builtins: Seq<Builtin>,
    command: ParsedLineView,
    candidates: Seq<PathCandidateView>,
    outcomes: Seq<Opening>,
) -> Result<StepView, std::io::Error> {
    if command.arguments.len() == 0 {
        Ok(StepView::Nothing)
    } else {
        match opened(command.redirects, outcomes) {
            Err(error) => Err(error),
            Ok(_) => Ok(single_step(builtins, command, candidates)),
        }
    }
}

/// The step of a result, as a mathematical value.
pub open spec fn step_view(result: Result<Step, std::io::Error>) -> Result<
    StepView,
    std::io::Error,
> {
    match result {
        Ok(step) => Ok(step@),
        Err(error) => Err(error),
    }
}

/// Says what running one command by itself comes to. `candidates` holds the
/// places of the search path where the command's program may be, as
/// [`Shell::query`] takes them, and `outcomes` says how opening the files of
/// the redirects ended, in the order in which [`next_redirect`] asked for
/// them.
///
/// Where a file could not be opened, no step is left: the command never
/// runs, and the error is that of the first opening that failed.
pub fn run_single(
    shell: &Shell,
    parsed_line: &ParsedLine,
    candidates: &Vec<PathCandidate>,
    outcomes: Vec<Opening>,
) -> (step: Result<Step, std::io::Error>)
    ensures
        step_view(step) == single_outcome(
            shell.builtins@,
            parsed_line@,
            candidate_views(candidates@),
            outcomes@,
        ),
        parsed_line.arguments.len() > 0 ==> (step is Err <==> exists|k: int|
            0 <= k < outcomes.len() && (#[trigger] outcomes[k]) is Err),
{
    let arguments = &parsed_line.arguments;
    if arguments.len() == 0 {
        return Ok(Step::Nothing);
    }
    let streams = match RedirectStreams::new(&parsed_line.redirects, outcomes) {
        Ok(streams) => streams,
        Err(error) => {
            return Err(error);
        },
    };
    let program = &arguments[0];
    let step = match shell.query(program, candidates) {
        ShellCommand::Builtin(builtin) => Step::Builtin { builtin, streams },
        ShellCommand::Executable(path) => Step::Launch(
            Launch {
                program: Program::Path(path),
                name: Some(program.clone()),
                arguments: copy_from(arguments, 1),
                stdin: Source::Inherited,
                stdout: sink(streams.output),
                stderr: sink(streams.error),
            },
        ),
        ShellCommand::NotFound => Step::NotFound(complain(parsed_line, &streams)),
    };
    Ok(step)
}

/// What becomes of one stage of a pipeline.
pub enum Stage {
    /// The process is launched.
    Launch(Launch),
    /// Nothing is launched, and the line is written.
    NotFound(Written),
    /// Nothing is launched, because a file of the stage's redirects could
    /// not be opened.
    Failed(std::io::Error),
}

/// A [`Stage`] as a mathematical value.
pub enum StageView {
    Launch(LaunchView),
    NotFound(WrittenView),
    Failed(std::io::Error),
}

impl View for Stage {
    type V = StageView;

    open spec fn view(&self) -> StageView {
        match self {
            Stage::Launch(launch) => StageView::Launch(launch@),
            Stage::NotFound(written) => StageView::NotFound(written@),
            Stage::Failed(error) => StageView::Failed(*error),
        }
    }
}

/// The stages of a vector, each as a mathematical value.
pub open spec fn stage_views(v: Seq<Stage>) -> Seq<StageView> {
    Seq::new(v.len(), |i: int| v[i]@)
}

/// The word that asks the shell's own binary to run one builtin and end.
pub open spec fn builtin_flag() -> Seq<char> {
    "--builtin"@
}

/// What becomes of the stage at position `index` of a pipeline of `count`
/// stages.
///
/// The pipes are numbered from 0, and pipe `i` leads from stage `i` to stage
/// `i + 1`. The first stage reads what the shell reads. Every stage but the
/// last writes into its pipe; the last one writes where the shell writes
/// unless a redirect says otherwise. Errors go where the shell's go unless a
/// redirect says otherwise.
///
/// A program is launched under the name that was typed, with the arguments
/// after the name. A builtin is run by the shell's own binary, which is
/// handed [`builtin_flag`] and then the whole command. A name that resolves
/// to nothing launches nothing, and neither does a stage of which a file
/// could not be opened.
pub open spec fn stage_of(
    builtins: Seq<Builtin>,
    command: ParsedLineView,
    candidates: Seq<PathCandidateView>,
    outcomes: Seq<Opening>,
    index: usize,
    count: usize,
) -> StageView {
    match opened(command.redirects, outcomes) {
        Err(error) => StageView::Failed(error),
        Ok(_) => launched_stage(builtins, command, candidates, index, count),
    }
}

/// What becomes of a stage whose files are all open.
pub open spec fn launched_stage(
    builtins: Seq<Builtin>,
    command: ParsedLineView,
    candidates: Seq<PathCandidateView>,
    index: usize,
    count: usize,
) -> StageView {
    let streams = streams_of(command.redirects);
    let stdin = if index == 0 {
        Source::Inherited
    } else {
        Source::Pipe((index - 1) as usize)
    };
    let stdout = if index + 1 < count {
        Sink::Pipe(index)
    } else {
        sink_of(streams.output)
    };
    let stderr = sink_of(streams.error);
    match resolve(builtins, command.arguments[0], candidates) {
        Resolution::Builtin(_) => StageView::Launch(
            LaunchView {
                program: ProgramView::OwnBinary,
                name: None,
                arguments: seq![builtin_flag()] + command.arguments,
                stdin,
                stdout,
                stderr,
            },
        ),
        Resolution::Executable(path) => StageView::Launch(
            LaunchView {
                program: ProgramView::Path(path),
                name: Some(command.arguments[0]),
                arguments: command.arguments.skip(1),
                stdin,
                stdout,
                stderr,
            },
        ),
        Resolution::NotFound => StageView::NotFound(complaint(command)),
    }
}

/// The plan of a pipeline.
pub struct Pipeline {
    /// How many pipes to make before the first stage is launched: one
    /// between each two stages.
    pub pipes: usize,
    /// What becomes of each stage, in order, which is the order in which
    /// they are launched.
    pub stages: Vec<Stage>,
    /// The stage to wait for when all are launched: the last one, if it was
    /// launched. No other stage is waited for.
    pub wait_for: Option<usize>,
}

/// The candidates of each stage, as mathematical values.
pub open spec fn candidate_lists(v: Seq<Vec<PathCandidate>>) -> Seq<Seq<PathCandidateView>> {
    Seq::new(v.len(), |i: int| candidate_views(v[i]@))
}

/// The outcomes of each stage, as sequences.
pub open spec fn outcome_lists(v: Seq<Vec<Opening>>) -> Seq<Seq<Opening>> {
    Seq::new(v.len(), |i: int| v[i]@)
}

/// Whether `stages` is the plan of the given commands.
pub open spec fn is_plan(
    stages: Seq<StageView>,
    builtins: Seq<Builtin>,
    commands: Seq<ParsedLineView>,
    candidates: Seq<Seq<PathCandidateView>>,
    outcomes: Seq<Seq<Opening>>,
) -> bool {
    &&& stages.len() == commands.len()
    &&& forall|i: int|
        0 <= i < stages.len() ==> #[trigger] stages[i] == stage_of(
            builtins,
            commands[i],
            candidates[i],
            outcomes[i],
            i as usize,
            commands.len() as usize,
        )
}

/// Whether the stage, if anything is launched for it, writes its output
/// into the pipe of the given number.
pub open spec fn writes_into_pipe(stage: StageView, number: int) -> bool {
    stage matches StageView::Launch(launch) ==> launch.stdout == Sink::Pipe(number as usize)
}

/// Whether the stage, if anything is launched for it, reads from the pipe of
/// the given number.
pub open spec fn reads_from_pipe(stage: StageView, number: int) -> bool {
    stage matches StageView::Launch(launch) ==> launch.stdin == Source::Pipe(number as usize)
}

/// The stage that is waited for: the last one, if it is launched.
pub open spec fn awaited(stages: Seq<StageView>) -> Option<usize> {
    if stages.len() > 0 && stages.last() is Launch {
        Some((stages.len() - 1) as usize)
    } else {
        None
    }
}

fn plan_stage(
    shell: &Shell,
    command: &ParsedLine,
    candidates: &Vec<PathCandidate>,
    outcomes: Vec<Opening>,
    index: usize,
    count: usize,
) -> (stage: Stage)
    requires
        command.arguments.len() > 0,
        index < count,
    ensures
        stage@ == stage_of(
            shell.builtins@,
            command@,
            candidate_views(candidates@),
            outcomes@,
            index,
            count,
        ),
{
    let streams = match RedirectStreams::new(&command.redirects, outcomes) {
        Ok(streams) => streams,
        Err(error) => {
            return Stage::Failed(error);
        },
    };
    let stdin = if index == 0 {
        Source::Inherited
    } else {
        Source::Pipe(index - 1)
    };
    let stdout = if index + 1 < count {
        Sink::Pipe(index)
    } else {
        sink(streams.output)
    };
    let stderr = sink(streams.error);
    let program = &command.arguments[0];
    match shell.query(program, candidates) {
        ShellCommand::Builtin(_) => {
            let mut arguments: Vec<String> = Vec::new();
            arguments.push(String::from_str("--builtin"));
            let mut rest = copy_from(&command.arguments, 0);
            let ghost copied = texts(rest@);
            assert(copied =~= command@.arguments);
            arguments.append(&mut rest);
            assert(texts(arguments@) =~= seq![builtin_flag()] + command@.arguments);
            Stage::Launch(
                Launch {
                    program: Program::OwnBinary,
                    name: None,
                    arguments,
                    stdin,
                    stdout,
                    stderr,
                },
            )
        },
        ShellCommand::Executable(path) => Stage::Launch(
            Launch {
                program: Program::Path(path),
                name: Some(program.clone()),
                arguments: copy_from(&command.arguments, 1),
                stdin,
                stdout,
                stderr,
            },
        ),
        ShellCommand::NotFound => Stage::NotFound(complain(command, &streams)),
    }
}

/// Plans a pipeline. `candidates` holds for each command the places of the
/// search path where its program may be, as [`Shell::query`] takes them, and
/// `outcomes` says for each command how opening the files of its redirects
/// ended, in the order in which [`next_redirect`] asked for them.
///
/// Only the last stage writes where the shell writes, or where a redirect of
/// its own sends its output, and it is the only one that is waited for.
pub fn run_pipeline(
    shell: &Shell,
    commands: &Vec<ParsedLine>,
    candidates: &Vec<Vec<PathCandidate>>,
    outcomes: Vec<Vec<Opening>>,
) -> (plan: Pipeline)
    requires
        commands.len() == candidates.len(),
        commands.len() == outcomes.len(),
        forall|i: int| 0 <= i < commands.len() ==> (#[trigger] commands[i]).arguments.len() > 0,
    ensures
        is_plan(
            stage_views(plan.stages@),
            shell.builtins@,
            parsed_views(commands@),
            candidate_lists(candidates@),
            outcome_lists(outcomes@),
        ),
        plan.pipes == if commands.len() == 0 {
            0
        } else {
            commands.len() - 1
        },
        plan.wait_for == awaited(stage_views(plan.stages@)),
        forall|i: int|
            0 <= i < plan.stages.len() - 1 ==> writes_into_pipe(#[trigger] plan.stages[i]@, i),
        forall|i: int|
            0 < i < plan.stages.len() ==> reads_from_pipe(#[trigger] plan.stages[i]@, i - 1),
{
    let count = commands.len();
    let mut stages: Vec<Stage> = Vec::new();
    let mut rest = outcomes;
    let mut i: usize = 0;
    while i < count
        invariant
            i <= count,
            count == commands.len(),
            count == candidates.len(),
            count == outcomes.len(),
            rest@ == outcomes@.skip(i as int),
            stages.len() == i,
            forall|k: int|
                0 <= k < commands.len() ==> (#[trigger] commands[k]).arguments.len() > 0,
            forall|k: int|
                0 <= k < i ==> (#[trigger] stages[k])@ == stage_of(
                    shell.builtins@,
                    commands[k]@,
                    candidate_views(candidates[k]@),
                    outcomes[k]@,
                    k as usize,
                    count,
                ),
        decreases count - i,
    {
        let first = rest.remove(0);
        assert(first == outcomes[i as int]);
        assert(rest@ =~= outcomes@.skip(i + 1));
        stages.push(plan_stage(shell, &commands[i], &candidates[i], first, i, count));
        i += 1;
    }
    let wait_for = if count > 0 {
        match &stages[count - 1] {
            Stage::Launch(_) => Some(count - 1),
            Stage::NotFound(_) => None,
            Stage::Failed(_) => None,
        }
    } else {
        None
    };
    proof {
        let views = stage_views(stages@);
        assert forall|k: int| 0 <= k < views.len() implies #[trigger] views[k] == stage_of(
            shell.builtins@,
            parsed_views(commands@)[k],
            candidate_lists(candidates@)[k],
            outcome_lists(outcomes@)[k],
            k as usize,
            commands.len() as usize,
        ) by {
            assert(views[k] == stages[k]@);
        }
    }
    let pipes = if count == 0 {
        0
    } else {
        count - 1
    };
    Pipeline { pipes, stages, wait_for }
}

} // verus!

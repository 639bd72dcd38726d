//! The builtins, each as a function from its arguments, and from what it
//! needs to know of the shell and its surroundings, to what it wants done.
//! The first argument is always the name under which the builtin was called.

use crate::history::{
    history_listing, is_numeral, listing, numeral_value, render, tail_start, tail_start_of,
};
use crate::shell::{candidate_views, resolve, PathCandidate, Resolution, Shell, ShellCommand};
use crate::text::{
    append_chars, char_seqs, chars_of, join, join_chars, same_text, string_of, tail_of, texts,
};
use vstd::prelude::*;

verus! {

/// From where a relative path of `cd` starts.
#[derive(Debug, Clone, Copy, PartialEq, Eq, Structural)]
pub enum Base {
    /// From nowhere: the path is absolute.
    Root,
    /// From the working directory.
    Current,
    /// From the user's home directory.
    Home,
}

/// What a builtin wants done.
pub enum Effect {
    /// Nothing.
    Nothing,
    /// The shell ends with the given status.
    Exit(i32),
    /// The lines are written to the output stream.
    Print(Vec<String>),
    /// The line is written to the error stream.
    Complain(String),
    /// The working directory becomes `path`, taken from `base`. If that
    /// fails, `failure` is written to the error stream.
    ChangeDirectory { base: Base, path: String, failure: String },
    /// The file is read and its text handed to [`Shell::read_history`]. A
    /// file that cannot be read adds nothing.
    LoadHistory { path: String },
    /// The text is written to the file, behind what the file holds if
    /// `append` is set and in its place otherwise.
    SaveHistory { path: String, text: String, append: bool },
}

/// An [`Effect`] as a mathematical value.
pub enum EffectView {
    Nothing,
    Exit(i32),
    Print(Seq<Seq<char>>),
    Complain(Seq<char>),
    ChangeDirectory { base: Base, path: Seq<char>, failure: Seq<char> },
    LoadHistory { path: Seq<char> },
    SaveHistory { path: Seq<char>, text: Seq<char>, append: bool },
}

impl View for Effect {
    type V = EffectView;

    open spec fn view(&self) -> EffectView {
        match self {
            Effect::Nothing => EffectView::Nothing,
            Effect::Exit(status) => EffectView::Exit(*status),
            Effect::Print(lines) => EffectView::Print(texts(lines@)),
            Effect::Complain(line) => EffectView::Complain(line@),
            Effect::ChangeDirectory { base, path, failure } => EffectView::ChangeDirectory {
                base: *base,
                path: path@,
                failure: failure@,
            },
            Effect::LoadHistory { path } => EffectView::LoadHistory { path: path@ },
            Effect::SaveHistory { path, text, append } => EffectView::SaveHistory {
                path: path@,
                text: text@,
                append: *append,
            },
        }
    }
}

fn concat(a: &str, b: &str) -> (joined: String)
    ensures
        joined@ == a@ + b@,
{
    let mut joined = chars_of(a);
    let b = chars_of(b);
    append_chars(&mut joined, &b);
    string_of(&joined)
}

fn concat3(a: &str, b: &str, c: &str) -> (joined: String)
    ensures
        joined@ == a@ + b@ + c@,
{
    let mut joined = chars_of(a);
    let b = chars_of(b);
    let c = chars_of(c);
    append_chars(&mut joined, &b);
    append_chars(&mut joined, &c);
    string_of(&joined)
}

/// `exit`: the shell ends with status 0.
pub fn builtin_exit() -> (effect: Effect)
    ensures
        effect@ == EffectView::Exit(0),
{
    Effect::Exit(0)
}

/// `echo`: prints its arguments on one line, a space between each two.
pub fn builtin_echo(arguments: &Vec<String>) -> (effect: Effect)
    requires
        arguments.len() >= 1,
    ensures
        effect@ == EffectView::Print(seq![join(texts(arguments@).skip(1), seq![' '])]),
{
    let mut words: Vec<Vec<char>> = Vec::new();
    let ghost rest = texts(arguments@).skip(1);
    let mut i: usize = 1;
    while i < arguments.len()
        invariant
            1 <= i <= arguments.len(),
            rest == texts(arguments@).skip(1),
            words.len() == i - 1,
            forall|k: int| 0 <= k < i - 1 ==> (#[trigger] words[k])@ == rest[k],
        decreases arguments.len() - i,
    {
        words.push(chars_of(arguments[i].as_str()));
        i += 1;
    }
    assert(char_seqs(words@) =~= rest);
    let mut gap: Vec<char> = Vec::new();
    gap.push(' ');
    assert(gap@ =~= seq![' ']);
    let line = string_of(&join_chars(&words, &gap));
    let mut lines: Vec<String> = Vec::new();
    lines.push(line);
    assert(texts(lines@) =~= seq![join(rest, seq![' '])]);
    Effect::Print(lines)
}

/// What `type` says of a name that resolves to `resolution`.
pub open spec fn type_line(program: Seq<char>, resolution: Resolution) -> Seq<char> {
    match resolution {
        Resolution::Builtin(_) => program + " is a shell builtin"@,
        Resolution::Executable(path) => program + " is "@ + path,
        Resolution::NotFound => program + ": not found"@,
    }
}

/// `type NAME`: says what the name resolves to. `candidates` holds the places
/// of the search path where the name may be, as [`Shell::query`] takes them.
pub fn builtin_type(
    shell: &Shell,
    arguments: &Vec<String>,
    candidates: &Vec<PathCandidate>,
) -> (effect: Effect)
    requires
        arguments.len() >= 2,
    ensures
        effect@ == EffectView::Print(
            seq![
                type_line(
                    arguments[1]@,
                    resolve(shell.builtins@, arguments[1]@, candidate_views(candidates@)),
                ),
            ],
        ),
{
    let program = &arguments[1];
    let line = match shell.query(program, candidates) {
        ShellCommand::Builtin(_) => concat(program.as_str(), " is a shell builtin"),
        ShellCommand::Executable(path) => concat3(program.as_str(), " is ", path.as_str()),
        ShellCommand::NotFound => concat(program.as_str(), ": not found"),
    };
    let ghost resolution = resolve(shell.builtins@, program@, candidate_views(candidates@));
    assert(line@ =~= type_line(program@, resolution));
    let mut lines: Vec<String> = Vec::new();
    lines.push(line);
    assert(texts(lines@) =~= seq![type_line(program@, resolution)]);
    Effect::Print(lines)
}

/// `pwd`: prints the working directory, or says why it cannot be told.
/// `current` is the working directory, or the reason why there is none.
pub fn builtin_pwd(current: &Result<String, String>) -> (effect: Effect)
    ensures
        effect@ == match current {
            Ok(path) => EffectView::Print(seq![path@]),
            Err(reason) => EffectView::Complain("pwd: "@ + reason@),
        },
{
    match current {
        Ok(path) => {
            let mut lines: Vec<String> = Vec::new();
            lines.push(path.clone());
            assert(texts(lines@) =~= seq![path@]);
            Effect::Print(lines)
        },
        Err(reason) => {
            let line = concat("pwd: ", reason.as_str());
            assert(line@ =~= "pwd: "@ + reason@);
            Effect::Complain(line)
        },
    }
}

/// What `cd` says when the directory cannot be entered.
pub open spec fn cd_failure(path: Seq<char>) -> Seq<char> {
    "cd: "@ + path + ": No such file or directory"@
}

/// What `cd PATH` wants done.
///
/// A path that begins with `/` is absolute. One that begins with `~` starts
/// from the home directory, with `./` in the place of the `~`; where no home
/// directory is set, `cd` says so. Every other path starts from the working
/// directory; where that is not known the directory cannot be entered, and
/// `cd` says so.
pub open spec fn cd_effect(path: Seq<char>, has_current: bool, has_home: bool) -> EffectView {
    if path.len() > 0 && path[0] == '/' {
        EffectView::ChangeDirectory { base: Base::Root, path, failure: cd_failure(path) }
    } else if path.len() > 0 && path[0] == '~' {
        if has_home {
            EffectView::ChangeDirectory {
                base: Base::Home,
                path: seq!['.', '/'] + path.skip(1),
                failure: cd_failure(path),
            }
        } else {
            EffectView::Complain("cd: $HOME not set"@)
        }
    } else if has_current {
        EffectView::ChangeDirectory { base: Base::Current, path, failure: cd_failure(path) }
    } else {
        EffectView::Complain(cd_failure(path))
    }
}

/// `cd PATH`: changes the working directory. `has_current` says whether the
/// working directory is known, `has_home` whether a home directory is set.
pub fn builtin_cd(arguments: &Vec<String>, has_current: bool, has_home: bool) -> (effect: Effect)
    requires
        arguments.len() >= 2,
    ensures
        effect@ == cd_effect(arguments[1]@, has_current, has_home),
        effect is ChangeDirectory || effect is Complain,
{
    let path = chars_of(arguments[1].as_str());
    let failure = concat3("cd: ", arguments[1].as_str(), ": No such file or directory");
    if path.len() > 0 && path[0] == '/' {
        Effect::ChangeDirectory { base: Base::Root, path: arguments[1].clone(), failure }
    } else if path.len() > 0 && path[0] == '~' {
        if has_home {
            let mut target: Vec<char> = Vec::new();
            target.push('.');
            target.push('/');
            let rest = tail_of(&path, 1);
            append_chars(&mut target, &rest);
            assert(target@ =~= seq!['.', '/'] + path@.skip(1));
            Effect::ChangeDirectory { base: Base::Home, path: string_of(&target), failure }
        } else {
            Effect::Complain(String::from_str("cd: $HOME not set"))
        }
    } else if has_current {
        Effect::ChangeDirectory { base: Base::Current, path: arguments[1].clone(), failure }
    } else {
        Effect::Complain(failure)
    }
}

/// What is left of `cd` once the directory was tried: nothing if it was
/// entered, and the failure line for the error stream if it was not, as
/// where the path names no directory.
pub fn cd_outcome(failure: String, entered: bool) -> (effect: Effect)
    ensures
        effect@ == if entered {
            EffectView::Nothing
        } else {
            EffectView::Complain(failure@)
        },
{
    if entered {
        Effect::Nothing
    } else {
        Effect::Complain(failure)
    }
}

/// What `history` wants done with the given arguments.
///
/// Without an argument the whole history is listed. `-r FILE` reads entries
/// from the file, `-w FILE` writes the history to it, `-a FILE` appends what
/// was not appended yet. A number lists that many of the last entries, or all
/// where there are fewer. Everything else is an invalid parameter, and so is
/// an option without its file.
pub open spec fn history_effect(
    entries: Seq<Seq<char>>,
    flushed: nat,
    arguments: Seq<Seq<char>>,
) -> EffectView {
    if arguments.len() <= 1 {
        EffectView::Print(listing(entries))
    } else if arguments[1] == "-r"@ && arguments.len() > 2 {
        EffectView::LoadHistory { path: arguments[2] }
    } else if arguments[1] == "-w"@ && arguments.len() > 2 {
        EffectView::SaveHistory { path: arguments[2], text: render(entries), append: false }
    } else if arguments[1] == "-a"@ && arguments.len() > 2 {
        EffectView::SaveHistory {
            path: arguments[2],
            text: render(entries.skip(flushed as int)),
            append: true,
        }
    } else if is_numeral(arguments[1]) {
        EffectView::Print(
            listing(entries.skip(tail_start(entries.len(), numeral_value(arguments[1])) as int)),
        )
    } else {
        EffectView::Complain("history: invalid parameter"@)
    }
}

/// `history [N | -r FILE | -w FILE | -a FILE]`: lists the history or moves
/// it between the shell and a file. After `-a` the whole history counts as
/// appended.
pub fn builtin_history(shell: &mut Shell, arguments: &Vec<String>) -> (effect: Effect)
    requires
        old(shell).wf(),
    ensures
        effect@ == history_effect(old(shell).entries(), old(shell).flushed(), texts(arguments@)),
        final(shell).wf(),
        final(shell).history == old(shell).history,
        final(shell).builtins == old(shell).builtins,
        final(shell).flushed() == if effect@ matches EffectView::SaveHistory { append: true, .. } {
            old(shell).history@.len()
        } else {
            old(shell).flushed()
        },
{
    proof {
        reveal_strlit("-r");
        reveal_strlit("-w");
        reveal_strlit("-a");
    }
    if arguments.len() <= 1 {
        let lines = history_listing(&shell.history, 0);
        assert(shell.entries().skip(0) =~= shell.entries());
        return Effect::Print(lines);
    }
    let first = arguments[1].as_str();
    if arguments.len() > 2 {
        if same_text(first, "-r") {
            return Effect::LoadHistory { path: arguments[2].clone() };
        }
        if same_text(first, "-w") {
            return Effect::SaveHistory {
                path: arguments[2].clone(),
                text: shell.write_history(),
                append: false,
            };
        }
        if same_text(first, "-a") {
            return Effect::SaveHistory {
                path: arguments[2].clone(),
                text: shell.append_history(),
                append: true,
            };
        }
    }
    assert(!is_numeral("-r"@) && !is_numeral("-w"@) && !is_numeral("-a"@)) by {
        assert("-r"@[0] == '-' && "-w"@[0] == '-' && "-a"@[0] == '-');
    }
    match tail_start_of(shell.history.len(), first) {
        Some(start) => Effect::Print(history_listing(&shell.history, start)),
        None => Effect::Complain(String::from_str("history: invalid parameter")),
    }
}

} // verus!

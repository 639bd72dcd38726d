//! The shell's context, which every component is handed explicitly: the
//! table of builtins and the command history. Command resolution lives here
//! too: a builtin of the given name wins, and else the first directory of the
//! search path that holds the program.

use crate::history::{lines, lines_of, render, render_lines};
use crate::text::{chars_of, same_text, split, split_chars, strings_of, texts};
use vstd::prelude::*;

verus! {

/// A command that the shell runs itself.
#[derive(Debug, Clone, Copy, PartialEq, Eq, Structural)]
pub enum Builtin {
    Exit,
    Echo,
    Type,
    Pwd,
    Cd,
    History,
}

impl Builtin {
    /// The name under which the builtin is called.
    pub open spec fn spec_name(self) -> Seq<char> {
        match self {
            Builtin::Exit => "exit"@,
            Builtin::Echo => "echo"@,
            Builtin::Type => "type"@,
            Builtin::Pwd => "pwd"@,
            Builtin::Cd => "cd"@,
            Builtin::History => "history"@,
        }
    }

    /// The name under which the builtin is called.
    pub fn name(self) -> (name: &'static str)
        ensures
            name@ == self.spec_name(),
    {
        match self {
            Builtin::Exit => "exit",
            Builtin::Echo => "echo",
            Builtin::Type => "type",
            Builtin::Pwd => "pwd",
            Builtin::Cd => "cd",
            Builtin::History => "history",
        }
    }

    /// The builtin of the given name, if there is one.
    pub fn from_name(name: &str) -> (found: Option<Builtin>)
        ensures
            found == builtin_named(name@),
    {
        if same_text(name, "exit") {
            Some(Builtin::Exit)
        } else if same_text(name, "echo") {
            Some(Builtin::Echo)
        } else if same_text(name, "type") {
            Some(Builtin::Type)
        } else if same_text(name, "pwd") {
            Some(Builtin::Pwd)
        } else if same_text(name, "cd") {
            Some(Builtin::Cd)
        } else if same_text(name, "history") {
            Some(Builtin::History)
        } else {
            None
        }
    }
}

/// The builtin of the given name, if there is one.
pub open spec fn builtin_named(name: Seq<char>) -> Option<Builtin> {
    if name == Builtin::Exit.spec_name() {
        Some(Builtin::Exit)
    } else if name == Builtin::Echo.spec_name() {
        Some(Builtin::Echo)
    } else if name == Builtin::Type.spec_name() {
        Some(Builtin::Type)
    } else if name == Builtin::Pwd.spec_name() {
        Some(Builtin::Pwd)
    } else if name == Builtin::Cd.spec_name() {
        Some(Builtin::Cd)
    } else if name == Builtin::History.spec_name() {
        Some(Builtin::History)
    } else {
        None
    }
}

/// No two builtins share a name: the name finds the builtin again.
pub proof fn lemma_name_finds_builtin(builtin: Builtin)
    ensures
        builtin_named(builtin.spec_name()) == Some(builtin),
{
    reveal_strlit("exit");
    reveal_strlit("echo");
    reveal_strlit("type");
    reveal_strlit("pwd");
    reveal_strlit("cd");
    reveal_strlit("history");
    assert("exit"@.len() == 4 && "exit"@[1] == 'x');
    assert("echo"@.len() == 4 && "echo"@[1] == 'c');
    assert("type"@.len() == 4 && "type"@[1] == 'y');
    assert("pwd"@.len() == 3);
    assert("cd"@.len() == 2);
    assert("history"@.len() == 7);
}

/// Whether the table holds a builtin of the given name.
pub open spec fn is_registered(builtins: Seq<Builtin>, name: Seq<char>) -> bool {
    builtin_named(name) matches Some(builtin) && builtins.contains(builtin)
}

/// One place where a program may be: a directory of the search path joined
/// with the program's name, and whether anything exists at that path.
pub struct PathCandidate {
    pub path: String,
    pub exists: bool,
}

/// A [`PathCandidate`] as a mathematical value.
pub struct PathCandidateView {
    pub path: Seq<char>,
    pub exists: bool,
}

impl View for PathCandidate {
    type V = PathCandidateView;

    open spec fn view(&self) -> PathCandidateView {
        PathCandidateView { path: self.path@, exists: self.exists }
    }
}

/// The candidates of a vector, each as a mathematical value.
pub open spec fn candidate_views(v: Seq<PathCandidate>) -> Seq<PathCandidateView> {
    Seq::new(v.len(), |i: int| v[i]@)
}

/// What a program name resolves to.
pub enum ShellCommand {
    Builtin(Builtin),
    Executable(String),
    NotFound,
}

/// A [`ShellCommand`] as a mathematical value.
pub enum Resolution {
    Builtin(Builtin),
    Executable(Seq<char>),
    NotFound,
}

impl View for ShellCommand {
    type V = Resolution;

    open spec fn view(&self) -> Resolution {
        match self {
            ShellCommand::Builtin(builtin) => Resolution::Builtin(*builtin),
            ShellCommand::Executable(path) => Resolution::Executable(path@),
            ShellCommand::NotFound => Resolution::NotFound,
        }
    }
}

/// The position of the first candidate at or after `from` that exists.
pub open spec fn first_existing(candidates: Seq<PathCandidateView>, from: int) -> Option<int>
    decreases candidates.len() - from,
{
    if from >= candidates.len() {
        None
    } else if candidates[from].exists {
        Some(from)
    } else {
        first_existing(candidates, from + 1)
    }
}

/// What `program` resolves to: the builtin of that name if the table holds
/// it; else the first candidate that exists; else nothing.
pub open spec fn resolve(
    builtins: Seq<Builtin>,
    program: Seq<char>,
    candidates: Seq<PathCandidateView>,
) -> Resolution {
    if is_registered(builtins, program) {
        Resolution::Builtin(builtin_named(program)->0)
    } else {
        match first_existing(candidates, 0) {
            Some(i) => Resolution::Executable(candidates[i].path),
            None => Resolution::NotFound,
        }
    }
}

/// A builtin has priority: the name of a builtin that the table holds
/// resolves to that builtin, whatever the search path holds under the same
/// name.
pub proof fn lemma_builtin_has_priority(
    builtins: Seq<Builtin>,
    builtin: Builtin,
    candidates: Seq<PathCandidateView>,
)
    requires
        builtins.contains(builtin),
    ensures
        resolve(builtins, builtin.spec_name(), candidates) == Resolution::Builtin(builtin),
{
    lemma_name_finds_builtin(builtin);
}

/// [`first_existing`] finds a candidate that exists and that none that
/// exists comes before, and finds none only if none exists.
pub proof fn lemma_first_existing(candidates: Seq<PathCandidateView>, from: int)
    requires
        0 <= from,
    ensures
        match first_existing(candidates, from) {
            Some(i) => from <= i < candidates.len() && candidates[i].exists && forall|j: int|
                from <= j < i ==> !(#[trigger] candidates[j]).exists,
            None => forall|j: int|
                from <= j < candidates.len() ==> !(#[trigger] candidates[j]).exists,
        },
    decreases candidates.len() - from,
{
    if from < candidates.len() && !candidates[from].exists {
        lemma_first_existing(candidates, from + 1);
    }
}

/// The directories of a search path, which separates them by colons.
pub fn search_directories(path: &str) -> (directories: Vec<String>)
    ensures
        texts(directories@) == split(path@, ':'),
{
    let chars = chars_of(path);
    let pieces = split_chars(&chars, ':');
    strings_of(&pieces)
}

/// The shell's context.
pub struct Shell {
    /// The builtins that can be called.
    pub builtins: Vec<Builtin>,
    /// The command lines that were entered, oldest first.
    pub history: Vec<String>,
    /// How many entries of the history have been appended to its file.
    pub last_history_append_index: usize,
}

impl Shell {
    /// How many entries of the history have been appended to its file.
    pub open spec fn flushed(&self) -> nat {
        self.last_history_append_index as nat
    }

    /// The history holds at least what has been flushed.
    pub open spec fn wf(&self) -> bool {
        self.flushed() <= self.history@.len()
    }

    /// The entries of the history as mathematical values.
    pub open spec fn entries(&self) -> Seq<Seq<char>> {
        texts(self.history@)
    }

    /// A shell with every builtin and an empty history.
    pub fn new() -> (shell: Shell)
        ensures
            shell.wf(),
            shell.builtins@ == seq![
                Builtin::Exit,
                Builtin::Echo,
                Builtin::Type,
                Builtin::Pwd,
                Builtin::Cd,
                Builtin::History,
            ],
            shell.history@.len() == 0,
            shell.flushed() == 0,
    {
        let mut builtins: Vec<Builtin> = Vec::new();
        builtins.push(Builtin::Exit);
        builtins.push(Builtin::Echo);
        builtins.push(Builtin::Type);
        builtins.push(Builtin::Pwd);
        builtins.push(Builtin::Cd);
        builtins.push(Builtin::History);
        let shell = Shell::with_builtins(builtins);
        assert(shell.builtins@ =~= seq![
            Builtin::Exit,
            Builtin::Echo,
            Builtin::Type,
            Builtin::Pwd,
            Builtin::Cd,
            Builtin::History,
        ]);
        shell
    }

    /// A shell with the given builtins and an empty history.
    pub fn with_builtins(builtins: Vec<Builtin>) -> (shell: Shell)
        ensures
            shell.wf(),
            shell.builtins == builtins,
            shell.history@.len() == 0,
            shell.flushed() == 0,
    {
        Shell { builtins, history: Vec::new(), last_history_append_index: 0 }
    }

    /// Whether the table holds the builtin.
    pub fn has_builtin(&self, builtin: Builtin) -> (found: bool)
        ensures
            found == self.builtins@.contains(builtin),
    {
        let mut i: usize = 0;
        while i < self.builtins.len()
            invariant
                i <= self.builtins.len(),
                forall|k: int| 0 <= k < i ==> self.builtins[k] != builtin,
            decreases self.builtins.len() - i,
        {
            if self.builtins[i] == builtin {
                return true;
            }
            i += 1;
        }
        false
    }

    /// Resolves a program name. `candidates` holds, for each directory of the
    /// search path in order, the path that the program would have there and
    /// whether it exists; it is empty where there is no search path.
    pub fn query(
        &self,
        program: &String,
        candidates: &Vec<PathCandidate>,
    ) -> (command: ShellCommand)
        ensures
            command@ == resolve(self.builtins@, program@, candidate_views(candidates@)),
            is_registered(self.builtins@, program@) ==> command is Builtin,
    {
        match Builtin::from_name(program.as_str()) {
            Some(builtin) => {
                if self.has_builtin(builtin) {
                    return ShellCommand::Builtin(builtin);
                }
            },
            None => {},
        }
        let ghost views = candidate_views(candidates@);
        let mut i: usize = 0;
        while i < candidates.len()
            invariant
                i <= candidates.len(),
                views == candidate_views(candidates@),
                !is_registered(self.builtins@, program@),
                first_existing(views, 0) == first_existing(views, i as int),
            decreases candidates.len() - i,
        {
            if candidates[i].exists {
                return ShellCommand::Executable(candidates[i].path.clone());
            }
            i += 1;
        }
        ShellCommand::NotFound
    }

    /// The history file to read when the shell starts: the one that the
    /// environment names, if it exists. `named` is the name that the
    /// environment gives, and `present` says whether a file of that name is
    /// there.
    pub fn get_history_file(&self, named: Option<String>, present: bool) -> (file: Option<String>)
        ensures
            file == if present {
                named
            } else {
                None
            },
    {
        if present {
            named
        } else {
            None
        }
    }

    /// Adds a command line to the end of the history.
    pub fn record(&mut self, line: String)
        ensures
            final(self).history@ == old(self).history@.push(line),
            final(self).builtins == old(self).builtins,
            final(self).flushed() == old(self).flushed(),
    {
        self.history.push(line);
    }

    /// Adds the lines of a history file's text to the end of the history.
    pub fn read_history(&mut self, text: &str)
        ensures
            final(self).entries() == old(self).entries() + lines(text@),
            final(self).builtins == old(self).builtins,
            final(self).flushed() == old(self).flushed(),
    {
        let mut found = lines_of(text);
        let ghost added = texts(found@);
        self.history.append(&mut found);
        assert(final(self).entries() =~= old(self).entries() + added);
    }

    /// The text of a history file that holds the whole history.
    pub fn write_history(&self) -> (text: String)
        ensures
            text@ == render(self.entries()),
    {
        let text = render_lines(&self.history, 0);
        assert(self.entries().skip(0) =~= self.entries());
        text
    }

    /// The text to append to a history file that holds what was flushed
    /// before: the entries since then. After it, all of the history counts as
    /// flushed.
    pub fn append_history(&mut self) -> (text: String)
        requires
            old(self).wf(),
        ensures
            text@ == render(old(self).entries().skip(old(self).flushed() as int)),
            final(self).flushed() == old(self).history@.len(),
            final(self).history == old(self).history,
            final(self).builtins == old(self).builtins,
            final(self).wf(),
    {
        let text = render_lines(&self.history, self.last_history_append_index);
        self.last_history_append_index = self.history.len();
        text
    }
}

} // verus!

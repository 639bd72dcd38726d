//! The line tokenizer.
//!
//! A command line is read one character at a time by a small machine with a
//! mode (plain text, inside single quotes, inside double quotes, after a
//! backslash, after a redirect operator) and the word at hand. Whitespace
//! outside quotes ends a word, and so does a redirect operator; the word
//! after an operator is the redirect's destination and no argument.
//!
//! [`step`] is the transition of that machine, [`finish`] closes what is open
//! at the end of the line, and [`parse`] is what a whole line means.
//! [`parse_argv`] computes it.

use crate::text::{char_seqs, chars_of, split, split_chars, string_of, texts};
use crate::words::lemma_empty_if_blank;
use vstd::prelude::*;

verus! {

/// The stream that a redirect names.
#[derive(Debug, Clone, Copy, PartialEq, Eq, Structural)]
pub enum StandardNamedStream {
    Unknown,
    Output,
    Error,
}

/// The stream with the given descriptor number: 1 is the output, 2 the error
/// stream, and every other number names no stream that the shell redirects.
pub open spec fn stream_of_fd(fd: u32) -> StandardNamedStream {
    if fd == 1 {
        StandardNamedStream::Output
    } else if fd == 2 {
        StandardNamedStream::Error
    } else {
        StandardNamedStream::Unknown
    }
}

impl From<u32> for StandardNamedStream {
    fn from(fd: u32) -> (stream: Self) {
        if fd == 1 {
            StandardNamedStream::Output
        } else if fd == 2 {
            StandardNamedStream::Error
        } else {
            StandardNamedStream::Unknown
        }
    }
}

impl vstd::std_specs::convert::FromSpecImpl<u32> for StandardNamedStream {
    open spec fn obeys_from_spec() -> bool {
        true
    }

    open spec fn from_spec(fd: u32) -> Self {
        stream_of_fd(fd)
    }
}

/// One redirect of a command: the stream, the file it goes to, and whether
/// the file is appended to rather than truncated.
#[derive(Debug)]
pub struct Redirect {
    pub stream_name: StandardNamedStream,
    pub path: String,
    pub append: bool,
}

/// A [`Redirect`] as a mathematical value.
pub struct RedirectView {
    pub stream_name: StandardNamedStream,
    pub path: Seq<char>,
    pub append: bool,
}

impl View for Redirect {
    type V = RedirectView;

    open spec fn view(&self) -> RedirectView {
        RedirectView { stream_name: self.stream_name, path: self.path@, append: self.append }
    }
}

/// One command of a line: its argument vector, whose first entry is the
/// program's name, and its redirects in the order in which they were written.
pub struct ParsedLine {
    pub arguments: Vec<String>,
    pub redirects: Vec<Redirect>,
}

/// A [`ParsedLine`] as a mathematical value.
pub struct ParsedLineView {
    pub arguments: Seq<Seq<char>>,
    pub redirects: Seq<RedirectView>,
}

/// The redirects of a vector, each as a mathematical value.
pub open spec fn redirect_views(v: Seq<Redirect>) -> Seq<RedirectView> {
    Seq::new(v.len(), |i: int| v[i]@)
}

impl View for ParsedLine {
    type V = ParsedLineView;

    open spec fn view(&self) -> ParsedLineView {
        ParsedLineView {
            arguments: texts(self.arguments@),
            redirects: redirect_views(self.redirects@),
        }
    }
}

/// Whether the character is whitespace: a blank, a tab, a line ending, or
/// one of the other space characters of Unicode.
pub open spec fn is_whitespace(c: char) -> bool {
    let code = c as u32;
    ||| 0x09 <= code <= 0x0d
    ||| code == 0x20
    ||| code == 0x85
    ||| code == 0xa0
    ||| code == 0x1680
    ||| 0x2000 <= code <= 0x200a
    ||| code == 0x2028
    ||| code == 0x2029
    ||| code == 0x202f
    ||| code == 0x205f
    ||| code == 0x3000
}

/// Whether the character is whitespace.
pub fn is_space(c: char) -> (space: bool)
    ensures
        space == is_whitespace(c),
{
    let code = c as u32;
    (0x09 <= code && code <= 0x0d) || code == 0x20 || code == 0x85 || code == 0xa0 || code
        == 0x1680 || (0x2000 <= code && code <= 0x200a) || code == 0x2028 || code == 0x2029
        || code == 0x202f || code == 0x205f || code == 0x3000
}

/// Whether the text holds nothing but whitespace.
pub open spec fn is_blank(text: Seq<char>) -> bool {
    forall|i: int| 0 <= i < text.len() ==> is_whitespace(#[trigger] text[i])
}

/// What the tokenizer is in the middle of.
#[derive(Debug, Clone, Copy, PartialEq, Eq, Structural)]
pub enum Mode {
    /// Outside quotes.
    Plain,
    /// Between single quotes: everything up to the next `'` is taken as it is.
    SingleQuoted,
    /// Between double quotes: everything but `"` and `\` is taken as it is.
    DoubleQuoted,
    /// After a backslash outside quotes: the next character is taken as it is.
    Escape,
    /// After a backslash between double quotes.
    QuotedEscape,
    /// After a digit outside quotes, which is a redirect's stream number if a
    /// `>` follows and an ordinary character otherwise.
    Digit(char),
    /// After the `>` of a redirect: a second `>` asks to append.
    Operator,
}

/// A redirect whose operator was read and whose destination is not
/// complete yet.
#[derive(Debug, Clone, Copy, PartialEq, Eq, Structural)]
pub struct Target {
    pub stream_name: StandardNamedStream,
    pub append: bool,
}

/// The tokenizer's state between two characters.
pub struct State {
    pub mode: Mode,
    /// The word at hand, as far as it is read.
    pub word: Seq<char>,
    /// Whether there is a word at hand. A quote or a backslash opens a word
    /// as well as a character does, so a word at hand may be empty.
    pub started: bool,
    /// The redirect whose destination the next word is, if one is open.
    pub target: Option<Target>,
    pub arguments: Seq<Seq<char>>,
    pub redirects: Seq<RedirectView>,
}

/// The state before the first character.
pub open spec fn start() -> State {
    State {
        mode: Mode::Plain,
        word: Seq::empty(),
        started: false,
        target: None,
        arguments: Seq::empty(),
        redirects: Seq::empty(),
    }
}

pub open spec fn is_digit(c: char) -> bool {
    '0' <= c <= '9'
}

/// The stream that a digit before `>` names.
pub open spec fn stream_of_digit(d: char) -> StandardNamedStream {
    stream_of_fd(
        if is_digit(d) {
            (d as u32 - 48) as u32
        } else {
            0
        },
    )
}

/// What a backslash between double quotes makes of the character after it:
/// a backslash or a double quote stands for itself, and nothing else is
/// escaped.
pub open spec fn backslash_mapping(c: char) -> Option<char> {
    if c == '\\' || c == '"' {
        Some(c)
    } else {
        None
    }
}

impl State {
    pub open spec fn with_mode(self, mode: Mode) -> State {
        State { mode, ..self }
    }

    /// A word is at hand from now on, if none was.
    pub open spec fn begin(self) -> State {
        State { started: true, ..self }
    }

    /// The character joins the word at hand, which it opens if there is
    /// none.
    pub open spec fn put(self, c: char) -> State {
        State { word: self.word.push(c), started: true, ..self }
    }

    /// What is open is closed. With a redirect open, the word at hand is its
    /// destination, and the empty path is where there is no word. Without
    /// one, the word at hand is the next argument, and nothing happens where
    /// there is no word.
    pub open spec fn end_word(self) -> State {
        match self.target {
            Some(target) => State {
                word: Seq::empty(),
                started: false,
                target: None,
                redirects: self.redirects.push(
                    RedirectView {
                        stream_name: target.stream_name,
                        path: self.word,
                        append: target.append,
                    },
                ),
                ..self
            },
            None => if self.started {
                State {
                    word: Seq::empty(),
                    started: false,
                    arguments: self.arguments.push(self.word),
                    ..self
                }
            } else {
                self
            },
        }
    }

    /// A redirect operator was read. It ends what is open, and the next word
    /// is its destination.
    pub open spec fn open_redirect(self, stream_name: StandardNamedStream) -> State {
        State {
            mode: Mode::Operator,
            target: Some(Target { stream_name, append: false }),
            ..self.end_word()
        }
    }

    /// The open redirect appends.
    pub open spec fn set_append(self) -> State {
        match self.target {
            Some(target) => State {
                target: Some(Target { stream_name: target.stream_name, append: true }),
                ..self
            },
            None => self,
        }
    }

    /// One character outside quotes. Whitespace ends the word at hand and
    /// is skipped where there is none.
    pub open spec fn plain(self, c: char) -> State {
        if is_whitespace(c) {
            if self.started {
                self.end_word()
            } else {
                self
            }
        } else if c == '\'' {
            self.begin().with_mode(Mode::SingleQuoted)
        } else if c == '"' {
            self.begin().with_mode(Mode::DoubleQuoted)
        } else if c == '\\' {
            self.begin().with_mode(Mode::Escape)
        } else if c == '>' {
            self.open_redirect(StandardNamedStream::Output)
        } else if is_digit(c) {
            self.with_mode(Mode::Digit(c))
        } else {
            self.put(c)
        }
    }

    /// A character after a backslash. Outside quotes it is taken as it is;
    /// between double quotes the backslash stays unless the character is one
    /// that it escapes there.
    pub open spec fn backslash(self, c: char, in_quote: bool) -> State {
        if in_quote && backslash_mapping(c) is None {
            self.put('\\').put(c)
        } else {
            self.put(c)
        }
    }
}

/// The state after one more character.
pub open spec fn step(st: State, c: char) -> State {
    match st.mode {
        Mode::Plain => st.plain(c),
        Mode::SingleQuoted => if c == '\'' {
            st.with_mode(Mode::Plain)
        } else {
            st.put(c)
        },
        Mode::DoubleQuoted => if c == '"' {
            st.with_mode(Mode::Plain)
        } else if c == '\\' {
            st.with_mode(Mode::QuotedEscape)
        } else {
            st.put(c)
        },
        Mode::Escape => st.backslash(c, false).with_mode(Mode::Plain),
        Mode::QuotedEscape => st.backslash(c, true).with_mode(Mode::DoubleQuoted),
        Mode::Digit(d) => if c == '>' {
            st.open_redirect(stream_of_digit(d))
        } else {
            st.put(d).with_mode(Mode::Plain).plain(c)
        },
        Mode::Operator => if c == '>' {
            st.set_append().with_mode(Mode::Plain)
        } else {
            st.with_mode(Mode::Plain).plain(c)
        },
    }
}

/// The state after the characters of `s`, read from `st`.
pub open spec fn run(st: State, s: Seq<char>) -> State
    decreases s.len(),
{
    if s.len() == 0 {
        st
    } else {
        step(run(st, s.drop_last()), s.last())
    }
}

/// The command that a state stands for when the line ends there. An open
/// quote or a trailing backslash ends with the line; a digit that waited for
/// a `>` is an ordinary character; the word at hand is the last argument,
/// or the destination of the redirect that is open; and a redirect without a
/// destination has the empty path.
pub open spec fn finish(st: State) -> ParsedLineView {
    let settled = match st.mode {
        Mode::Digit(d) => st.put(d),
        _ => st,
    };
    let closed = settled.end_word();
    ParsedLineView { arguments: closed.arguments, redirects: closed.redirects }
}

/// The command that a line stands for.
pub open spec fn parse(line: Seq<char>) -> ParsedLineView {
    finish(run(start(), line))
}

/// The running tokenizer: the characters of the line and the machine's state.
struct LineParser {
    chars: Vec<char>,
    mode: Mode,
    word: Vec<char>,
    started: bool,
    target: Option<Target>,
    arguments: Vec<String>,
    redirects: Vec<Redirect>,
}

impl LineParser {
    /// The characters that the parser was made for.
    spec fn line(&self) -> Seq<char> {
        self.chars@
    }

    /// The machine's state.
    spec fn state(&self) -> State {
        State {
            mode: self.mode,
            word: self.word@,
            started: self.started,
            target: self.target,
            arguments: texts(self.arguments@),
            redirects: redirect_views(self.redirects@),
        }
    }

    fn new(line: &String) -> (parser: LineParser)
        ensures
            parser.line() == line@,
            parser.state() == start(),
    {
        let parser = LineParser {
            chars: chars_of(line.as_str()),
            mode: Mode::Plain,
            word: Vec::new(),
            started: false,
            target: None,
            arguments: Vec::new(),
            redirects: Vec::new(),
        };
        assert(parser.state().arguments =~= start().arguments);
        assert(parser.state().redirects =~= start().redirects);
        parser
    }

    fn put(&mut self, c: char)
        ensures
            final(self).state() == old(self).state().put(c),
            final(self).chars == old(self).chars,
    {
        self.word.push(c);
        self.started = true;
    }

    fn end_word(&mut self)
        ensures
            final(self).state() == old(self).state().end_word(),
            final(self).chars == old(self).chars,
    {
        match self.target {
            Some(target) => {
                let mut word: Vec<char> = Vec::new();
                std::mem::swap(&mut word, &mut self.word);
                self.redirects.push(
                    Redirect {
                        stream_name: target.stream_name,
                        path: string_of(&word),
                        append: target.append,
                    },
                );
                self.started = false;
                self.target = None;
                assert(final(self).state().redirects =~= old(self).state().end_word().redirects);
            },
            None => {
                if self.started {
                    let mut word: Vec<char> = Vec::new();
                    std::mem::swap(&mut word, &mut self.word);
                    self.arguments.push(string_of(&word));
                    self.started = false;
                    assert(final(self).state().arguments =~= old(
                        self,
                    ).state().end_word().arguments);
                }
            },
        }
    }

    fn redirect(&mut self, stream_name: StandardNamedStream)
        ensures
            final(self).state() == old(self).state().open_redirect(stream_name),
            final(self).chars == old(self).chars,
    {
        self.end_word();
        self.target = Some(Target { stream_name, append: false });
        self.mode = Mode::Operator;
    }

    fn set_append(&mut self)
        ensures
            final(self).state() == old(self).state().set_append(),
            final(self).chars == old(self).chars,
    {
        match self.target {
            Some(target) => {
                self.target = Some(Target { stream_name: target.stream_name, append: true });
            },
            None => {},
        }
    }

    fn map_backslash_character(character: char) -> (mapped: Option<char>)
        ensures
            mapped == backslash_mapping(character),
    {
        if character == '\\' || character == '"' {
            Some(character)
        } else {
            None
        }
    }

    fn backslash(&mut self, character: char, in_quote: bool)
        ensures
            final(self).state() == old(self).state().backslash(character, in_quote),
            final(self).chars == old(self).chars,
    {
        let mut character = character;
        if in_quote {
            match LineParser::map_backslash_character(character) {
                Some(mapped) => {
                    character = mapped;
                },
                None => {
                    self.put('\\');
                },
            }
        }
        self.put(character);
    }

    fn plain(&mut self, c: char)
        ensures
            final(self).state() == old(self).state().plain(c),
            final(self).chars == old(self).chars,
    {
        if is_space(c) {
            if self.started {
                self.end_word();
            }
        } else if c == '\'' {
            self.started = true;
            self.mode = Mode::SingleQuoted;
        } else if c == '"' {
            self.started = true;
            self.mode = Mode::DoubleQuoted;
        } else if c == '\\' {
            self.started = true;
            self.mode = Mode::Escape;
        } else if c == '>' {
            self.redirect(StandardNamedStream::Output);
        } else if '0' <= c && c <= '9' {
            self.mode = Mode::Digit(c);
        } else {
            self.put(c);
        }
    }

    /// Reads one character.
    fn step(&mut self, c: char)
        ensures
            final(self).state() == step(old(self).state(), c),
            final(self).chars == old(self).chars,
    {
        match self.mode {
            Mode::Plain => {
                self.plain(c);
            },
            Mode::SingleQuoted => {
                if c == '\'' {
                    self.mode = Mode::Plain;
                } else {
                    self.put(c);
                }
            },
            Mode::DoubleQuoted => {
                if c == '"' {
                    self.mode = Mode::Plain;
                } else if c == '\\' {
                    self.mode = Mode::QuotedEscape;
                } else {
                    self.put(c);
                }
            },
            Mode::Escape => {
                self.backslash(c, false);
                self.mode = Mode::Plain;
            },
            Mode::QuotedEscape => {
                self.backslash(c, true);
                self.mode = Mode::DoubleQuoted;
            },
            Mode::Digit(d) => {
                if c == '>' {
                    let fd: u32 = if '0' <= d && d <= '9' {
                        d as u32 - 48
                    } else {
                        0
                    };
                    self.redirect(StandardNamedStream::from(fd));
                } else {
                    self.put(d);
                    self.mode = Mode::Plain;
                    self.plain(c);
                }
            },
            Mode::Operator => {
                if c == '>' {
                    self.set_append();
                    self.mode = Mode::Plain;
                } else {
                    self.mode = Mode::Plain;
                    self.plain(c);
                }
            },
        }
    }

    /// Reads the line to its end and gives the command that it stands for.
    fn parse(self) -> (parsed: ParsedLine)
        ensures
            parsed@ == finish(run(self.state(), self.line())),
    {
        let mut parser = self;
        let ghost first = parser.state();
        let ghost line = parser.chars@;
        let mut i: usize = 0;
        while i < parser.chars.len()
            invariant
                i <= parser.chars.len(),
                parser.chars@ == line,
                parser.state() == run(first, line.take(i as int)),
            decreases parser.chars.len() - i,
        {
            let c = parser.chars[i];
            proof {
                assert(line.take(i + 1).drop_last() =~= line.take(i as int));
            }
            parser.step(c);
            i += 1;
        }
        assert(line.take(i as int) =~= line);
        match parser.mode {
            Mode::Digit(d) => {
                parser.put(d);
            },
            _ => {},
        }
        parser.end_word();
        ParsedLine { arguments: parser.arguments, redirects: parser.redirects }
    }
}

/// Tokenizes one command: the arguments and the redirects that `line` stands
/// for. The command is empty, without an argument and without a redirect, if
/// and only if the line is blank.
pub fn parse_argv(line: String) -> (parsed: ParsedLine)
    ensures
        parsed@ == parse(line@),
        (parsed.arguments.len() == 0 && parsed.redirects.len() == 0) <==> is_blank(line@),
{
    proof {
        lemma_empty_if_blank(line@);
    }
    LineParser::new(&line).parse()
}

/// The commands of a pipeline. The line is cut at every `|` before anything
/// else is looked at, so also at one that stands between quotes or behind a
/// backslash, and each piece is tokenized by itself.
pub open spec fn parse_stages(line: Seq<char>) -> Seq<ParsedLineView> {
    split(line, '|').map_values(|stage: Seq<char>| parse(stage))
}

/// The commands of a pipeline as mathematical values.
pub open spec fn parsed_views(v: Seq<ParsedLine>) -> Seq<ParsedLineView> {
    Seq::new(v.len(), |i: int| v[i]@)
}

/// Tokenizes a line that may hold a pipeline: one command for each stage, in
/// order.
pub fn parse_pipeline(line: &str) -> (stages: Vec<ParsedLine>)
    ensures
        parsed_views(stages@) == parse_stages(line@),
{
    let chars = chars_of(line);
    let pieces = split_chars(&chars, '|');
    let mut stages: Vec<ParsedLine> = Vec::new();
    let mut i: usize = 0;
    while i < pieces.len()
        invariant
            i <= pieces.len(),
            char_seqs(pieces@) == split(line@, '|'),
            stages.len() == i,
            forall|k: int| 0 <= k < i ==> (#[trigger] stages[k])@ == parse(pieces[k]@),
        decreases pieces.len() - i,
    {
        stages.push(parse_argv(string_of(&pieces[i])));
        i += 1;
    }
    assert(parsed_views(stages@) =~= parse_stages(line@));
    stages
}

} // verus!

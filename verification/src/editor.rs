//! The line editor.
//!
//! The terminal hands over one byte at a time, and the editor answers each
//! with what to write back and with what comes next: another byte, a
//! completion request, or the end of the line. The program around it does
//! the reading and the writing.

use crate::autocomplete::{complete, decide, listing, AutocompleteResult, PathEntry};
use crate::autocomplete::{entry_views, Outcome};
use crate::shell::Shell;
use crate::text::{bytes_of, chars_of, string_of};
use vstd::prelude::*;
use vstd::utf8::encode_utf8;

verus! {

/// End of transmission: the byte that ends the session.
pub const END_OF_TRANSMISSION: u8 = 0x04;

/// The byte that rings the bell.
pub const BELL: u8 = 0x07;

/// The byte that moves the cursor one place back.
pub const BACKSPACE: u8 = 0x08;

/// The byte of the tabulator key, which asks for completion.
pub const TAB: u8 = 0x09;

pub const LINE_FEED: u8 = 0x0a;

pub const CARRIAGE_RETURN: u8 = 0x0d;

/// The byte that starts an escape sequence.
pub const ESCAPE: u8 = 0x1b;

pub const SPACE: u8 = 0x20;

/// `[`, the second byte of the sequence of a cursor key.
pub const BRACKET: u8 = 0x5b;

/// `A`, the last byte of the sequence of the cursor-up key.
pub const UP: u8 = 0x41;

/// The byte of the delete key.
pub const DELETE: u8 = 0x7f;

/// How reading a line ended.
pub enum ReadResult {
    /// The input ended, or the user asked to leave.
    Quit,
    /// The line was committed with nothing on it.
    Empty,
    /// The line was committed.
    Content(String),
}

/// A [`ReadResult`] as a mathematical value.
pub enum ReadResultView {
    Quit,
    Empty,
    Content(Seq<char>),
}

impl View for ReadResult {
    type V = ReadResultView;

    open spec fn view(&self) -> ReadResultView {
        match self {
            ReadResult::Quit => ReadResultView::Quit,
            ReadResult::Empty => ReadResultView::Empty,
            ReadResult::Content(line) => ReadResultView::Content(line@),
        }
    }
}

/// Where the editor is in an escape sequence.
#[derive(Debug, Clone, Copy, PartialEq, Eq, Structural)]
pub enum Escape {
    /// In none.
    Idle,
    /// The escape byte was read.
    Started,
    /// The byte after the escape byte was read; the flag says whether it was
    /// `[`.
    Introduced(bool),
}

/// What the terminal delivers.
#[derive(Debug, Clone, Copy, PartialEq, Eq, Structural)]
pub enum Input {
    /// One byte.
    Byte(u8),
    /// Nothing more: the input has ended, or reading failed.
    Closed,
}

/// What the editor asks for after an input.
pub enum Next {
    /// The next input.
    Continue,
    /// The entries of the search path's directories, to be handed to
    /// [`LineEditor::complete`], and then the next input.
    Complete,
    /// Nothing: the line is read.
    Done(ReadResult),
}

/// A [`Next`] as a mathematical value.
pub enum NextView {
    Continue,
    Complete,
    Done(ReadResultView),
}

impl View for Next {
    type V = NextView;

    open spec fn view(&self) -> NextView {
        match self {
            Next::Continue => NextView::Continue,
            Next::Complete => NextView::Complete,
            Next::Done(result) => NextView::Done(result@),
        }
    }
}

/// The editor's answer to an input.
pub struct Reaction {
    /// The bytes to write to the terminal.
    pub output: Vec<u8>,
    pub next: Next,
}

/// The editor's state between two inputs.
pub struct LineEditor {
    /// The text of the line so far.
    pub line: Vec<char>,
    /// The position in the history of the entry that the line was recalled
    /// from; the length of the history while none was.
    pub history_position: usize,
    /// Whether the last key was a completion request that rang the bell
    /// because the candidates had nothing in common.
    pub bell_rang: bool,
    pub escape: Escape,
}

/// A [`LineEditor`] as a mathematical value.
pub struct EditorState {
    pub line: Seq<char>,
    pub history_position: nat,
    pub bell_rang: bool,
    pub escape: Escape,
}

impl View for LineEditor {
    type V = EditorState;

    open spec fn view(&self) -> EditorState {
        EditorState {
            line: self.line@,
            history_position: self.history_position as nat,
            bell_rang: self.bell_rang,
            escape: self.escape,
        }
    }
}

/// A state, what is written to the terminal on the way to it, and what comes
/// next.
pub struct Step {
    pub state: EditorState,
    pub output: Seq<u8>,
    pub next: NextView,
}

/// `count` times the byte.
pub open spec fn repeated(byte: u8, count: nat) -> Seq<u8> {
    Seq::new(count, |i: int| byte)
}

/// The bytes that wipe a text of `width` bytes off the terminal: back over
/// it, blanks over it, and back again.
pub open spec fn erasure(width: nat) -> Seq<u8> {
    repeated(BACKSPACE, width) + repeated(SPACE, width) + repeated(BACKSPACE, width)
}

/// The bytes that put `content` in the place of `line` on the terminal.
pub open spec fn replacement(line: Seq<char>, content: Seq<char>) -> Seq<u8> {
    erasure(encode_utf8(line).len()) + encode_utf8(content)
}

/// The state in which the session ends.
pub open spec fn quit(state: EditorState) -> Step {
    Step { state, output: Seq::empty(), next: NextView::Done(ReadResultView::Quit) }
}

/// What a byte does outside an escape sequence.
pub open spec fn key(state: EditorState, byte: u8) -> Step {
    let calm = EditorState { bell_rang: false, ..state };
    if byte == END_OF_TRANSMISSION {
        quit(state)
    } else if byte == CARRIAGE_RETURN || byte == LINE_FEED {
        Step {
            state,
            output: seq![CARRIAGE_RETURN, LINE_FEED],
            next: NextView::Done(
                if state.line.len() == 0 {
                    ReadResultView::Empty
                } else {
                    ReadResultView::Content(state.line)
                },
            ),
        }
    } else if byte == TAB {
        Step { state, output: Seq::empty(), next: NextView::Complete }
    } else if byte == ESCAPE {
        Step {
            state: EditorState { escape: Escape::Started, ..calm },
            output: Seq::empty(),
            next: NextView::Continue,
        }
    } else if byte == DELETE {
        if state.line.len() > 0 {
            Step {
                state: EditorState { line: state.line.drop_last(), ..calm },
                output: seq![BACKSPACE, SPACE, BACKSPACE],
                next: NextView::Continue,
            }
        } else {
            Step { state: calm, output: Seq::empty(), next: NextView::Continue }
        }
    } else {
        Step {
            state: EditorState { line: state.line.push(byte as char), ..calm },
            output: seq![byte],
            next: NextView::Continue,
        }
    }
}

/// What the last byte of an escape sequence does. The sequence of the
/// cursor-up key recalls the history entry before the one shown, if there is
/// one; every other sequence does nothing.
pub open spec fn arrow(
    state: EditorState,
    history: Seq<Seq<char>>,
    bracket: bool,
    byte: u8,
) -> Step {
    let idle = EditorState { escape: Escape::Idle, ..state };
    if bracket && byte == UP && 0 < state.history_position <= history.len() {
        let position = (state.history_position - 1) as nat;
        Step {
            state: EditorState {
                line: history[position as int],
                history_position: position,
                ..idle
            },
            output: replacement(state.line, history[position as int]),
            next: NextView::Continue,
        }
    } else {
        Step { state: idle, output: Seq::empty(), next: NextView::Continue }
    }
}

/// What an input does.
pub open spec fn react(state: EditorState, history: Seq<Seq<char>>, input: Input) -> Step {
    match input {
        Input::Closed => quit(state),
        Input::Byte(byte) => match state.escape {
            Escape::Idle => key(state, byte),
            Escape::Started => Step {
                state: EditorState { escape: Escape::Introduced(byte == BRACKET), ..state },
                output: Seq::empty(),
                next: NextView::Continue,
            },
            Escape::Introduced(bracket) => arrow(state, history, bracket, byte),
        },
    }
}

/// What a completion request with the given listing of candidates does to
/// the editor.
pub open spec fn completion(state: EditorState, candidates: Seq<Seq<char>>) -> Step {
    completed(state, decide(candidates, state.line, state.bell_rang))
}

/// What the outcome of a completion request does to the editor: the line is
/// what the completion made of it; the bell rings unless the line was
/// extended; and the editor remembers whether it rang because the candidates
/// had nothing in common.
pub open spec fn completed(state: EditorState, outcome: Outcome) -> Step {
    Step {
        state: EditorState {
            line: outcome.line,
            bell_rang: outcome.result == AutocompleteResult::More,
            ..state
        },
        output: if outcome.result == AutocompleteResult::Found {
            encode_utf8(outcome.output)
        } else {
            encode_utf8(outcome.output).push(BELL)
        },
        next: NextView::Continue,
    }
}

/// What typing the bytes one after the other does: the state after the
/// last, all that is written on the way, and what comes next after the last.
pub open spec fn typing(state: EditorState, history: Seq<Seq<char>>, bytes: Seq<u8>) -> Step
    decreases bytes.len(),
{
    if bytes.len() == 0 {
        Step { state, output: Seq::empty(), next: NextView::Continue }
    } else {
        let before = typing(state, history, bytes.drop_last());
        let last = react(before.state, history, Input::Byte(bytes.last()));
        Step { state: last.state, output: before.output + last.output, next: last.next }
    }
}

/// Whether the byte is one that the editor takes as text.
pub open spec fn is_text(byte: u8) -> bool {
    &&& byte != END_OF_TRANSMISSION
    &&& byte != CARRIAGE_RETURN
    &&& byte != LINE_FEED
    &&& byte != TAB
    &&& byte != ESCAPE
    &&& byte != DELETE
}

/// The characters that the bytes are taken for.
pub open spec fn characters(bytes: Seq<u8>) -> Seq<char> {
    Seq::new(bytes.len(), |i: int| bytes[i] as char)
}

/// Text that is typed is echoed as it is and joins the line.
pub proof fn lemma_typing_text(state: EditorState, history: Seq<Seq<char>>, bytes: Seq<u8>)
    requires
        state.escape == Escape::Idle,
        forall|i: int| 0 <= i < bytes.len() ==> is_text(#[trigger] bytes[i]),
    ensures
        typing(state, history, bytes) == (Step {
            state: EditorState {
                line: state.line + characters(bytes),
                bell_rang: state.bell_rang && bytes.len() == 0,
                ..state
            },
            output: bytes,
            next: NextView::Continue,
        }),
    decreases bytes.len(),
{
    if bytes.len() == 0 {
        assert(state.line + characters(bytes) =~= state.line);
        assert(typing(state, history, bytes).output =~= bytes);
    } else {
        let shorter = bytes.drop_last();
        lemma_typing_text(state, history, shorter);
        assert(is_text(bytes.last()));
        assert((state.line + characters(shorter)).push(bytes.last() as char) =~= state.line
            + characters(bytes));
        assert(shorter + seq![bytes.last()] =~= bytes);
    }
}

/// A line that is typed and committed is read as it was typed.
pub proof fn lemma_typed_line_is_read(history: Seq<Seq<char>>, bytes: Seq<u8>, position: nat)
    requires
        bytes.len() > 0,
        forall|i: int| 0 <= i < bytes.len() ==> is_text(#[trigger] bytes[i]),
    ensures
        typing(
            EditorState {
                line: Seq::empty(),
                history_position: position,
                bell_rang: false,
                escape: Escape::Idle,
            },
            history,
            bytes.push(CARRIAGE_RETURN),
        ).next == NextView::Done(ReadResultView::Content(characters(bytes))),
{
    let fresh = EditorState {
        line: Seq::empty(),
        history_position: position,
        bell_rang: false,
        escape: Escape::Idle,
    };
    lemma_typing_text(fresh, history, bytes);
    assert(bytes.push(CARRIAGE_RETURN).drop_last() =~= bytes);
    assert(fresh.line + characters(bytes) =~= characters(bytes));
}

fn push_repeated(output: &mut Vec<u8>, byte: u8, count: usize)
    ensures
        final(output)@ == old(output)@ + repeated(byte, count as nat),
{
    let mut i: usize = 0;
    while i < count
        invariant
            i <= count,
            output@ == old(output)@ + repeated(byte, i as nat),
        decreases count - i,
    {
        output.push(byte);
        assert(output@ =~= old(output)@ + repeated(byte, (i + 1) as nat));
        i += 1;
    }
}

/// The bytes that put `new_content` in the place of `line` on the terminal;
/// `line` becomes `new_content`.
pub fn change_line(line: &mut Vec<char>, new_content: &String) -> (output: Vec<u8>)
    ensures
        final(line)@ == new_content@,
        output@ == replacement(old(line)@, new_content@),
{
    let width = bytes_of(line).len();
    let mut output: Vec<u8> = Vec::new();
    push_repeated(&mut output, BACKSPACE, width);
    push_repeated(&mut output, SPACE, width);
    push_repeated(&mut output, BACKSPACE, width);
    let mut content = new_content.as_str().as_bytes_vec();
    output.append(&mut content);
    *line = chars_of(new_content.as_str());
    assert(output@ =~= replacement(old(line)@, new_content@));
    output
}

impl LineEditor {
    /// The editor at the start of a line, with the whole history behind it.
    pub fn new(shell: &Shell) -> (editor: LineEditor)
        ensures
            editor@ == (EditorState {
                line: Seq::empty(),
                history_position: shell.history@.len(),
                bell_rang: false,
                escape: Escape::Idle,
            }),
    {
        LineEditor {
            line: Vec::new(),
            history_position: shell.history.len(),
            bell_rang: false,
            escape: Escape::Idle,
        }
    }

    fn key(&mut self, byte: u8) -> (reaction: Reaction)
        ensures
            key(old(self)@, byte) == (Step {
                state: final(self)@,
                output: reaction.output@,
                next: reaction.next@,
            }),
    {
        let mut output: Vec<u8> = Vec::new();
        if byte == END_OF_TRANSMISSION {
            return Reaction { output, next: Next::Done(ReadResult::Quit) };
        }
        if byte == CARRIAGE_RETURN || byte == LINE_FEED {
            output.push(CARRIAGE_RETURN);
            output.push(LINE_FEED);
            assert(output@ =~= seq![CARRIAGE_RETURN, LINE_FEED]);
            let result = if self.line.len() == 0 {
                ReadResult::Empty
            } else {
                ReadResult::Content(string_of(&self.line))
            };
            return Reaction { output, next: Next::Done(result) };
        }
        if byte == TAB {
            return Reaction { output, next: Next::Complete };
        }
        self.bell_rang = false;
        if byte == ESCAPE {
            self.escape = Escape::Started;
        } else if byte == DELETE {
            if self.line.len() > 0 {
                self.line.pop();
                output.push(BACKSPACE);
                output.push(SPACE);
                output.push(BACKSPACE);
                assert(output@ =~= seq![BACKSPACE, SPACE, BACKSPACE]);
            }
        } else {
            output.push(byte);
            self.line.push(byte as char);
            assert(output@ =~= seq![byte]);
        }
        Reaction { output, next: Next::Continue }
    }

    /// Takes one input: changes the line, and says what to write to the
    /// terminal and what comes next.
    pub fn feed(&mut self, shell: &Shell, input: Input) -> (reaction: Reaction)
        ensures
            react(old(self)@, shell.entries(), input) == (Step {
                state: final(self)@,
                output: reaction.output@,
                next: reaction.next@,
            }),
    {
        let byte = match input {
            Input::Closed => {
                return Reaction { output: Vec::new(), next: Next::Done(ReadResult::Quit) };
            },
            Input::Byte(byte) => byte,
        };
        match self.escape {
            Escape::Idle => self.key(byte),
            Escape::Started => {
                self.escape = Escape::Introduced(byte == BRACKET);
                Reaction { output: Vec::new(), next: Next::Continue }
            },
            Escape::Introduced(bracket) => {
                self.escape = Escape::Idle;
                let position = self.history_position;
                if bracket && byte == UP && 0 < position && position <= shell.history.len() {
                    self.history_position = position - 1;
                    let output = change_line(&mut self.line, &shell.history[position - 1]);
                    Reaction { output, next: Next::Continue }
                } else {
                    Reaction { output: Vec::new(), next: Next::Continue }
                }
            },
        }
    }

    /// Answers a completion request with the entries of the search path's
    /// directories.
    pub fn complete(&mut self, shell: &Shell, entries: &Vec<PathEntry>) -> (reaction: Reaction)
        ensures
            completion(
                old(self)@,
                listing(shell.builtins@, entry_views(entries@), old(self)@.line),
            ) == (Step { state: final(self)@, output: reaction.output@, next: reaction.next@ }),
    {
        let completion = complete(shell, entries, &mut self.line, self.bell_rang);
        let mut output = completion.output.as_str().as_bytes_vec();
        match completion.result {
            AutocompleteResult::NoMatch => {
                self.bell_rang = false;
                output.push(BELL);
            },
            AutocompleteResult::Found => {
                self.bell_rang = false;
            },
            AutocompleteResult::More => {
                self.bell_rang = true;
                output.push(BELL);
            },
        }
        let reaction = Reaction { output, next: Next::Continue };
        reaction
    }
}

} // verus!

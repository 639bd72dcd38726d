//! The streams of a command after its redirects.
//!
//! Every redirect of a command names a file that is opened, in the order in
//! which the redirects were written, until one cannot be opened: that
//! failure ends the command before it runs. Of several redirects of one
//! stream the last one wins: its file takes the place of the stream that the
//! command would have inherited.

use crate::parser::{redirect_views, Redirect, RedirectView, StandardNamedStream};
use crate::text::{chars_of, string_of};
use vstd::prelude::*;

verus! {

/// `std::io::Error`, the error of an input or output operation, declared so
/// that values of it can be handed through. Nothing is claimed of what one
/// holds: the library looks into none, and hands on the one that it was
/// handed.
#[verifier::external_type_specification]
#[verifier::external_body]
pub struct ExIoError(std::io::Error);

/// How opening the file of one redirect ended.
pub type Opening = Result<(), std::io::Error>;

/// The position of the first opening at or after `from` that failed.
pub open spec fn first_failure(outcomes: Seq<Opening>, from: int) -> Option<int>
    decreases outcomes.len() - from,
{
    if from >= outcomes.len() {
        None
    } else if outcomes[from] is Err {
        Some(from)
    } else {
        first_failure(outcomes, from + 1)
    }
}

/// [`first_failure`] finds an opening that failed and that none that failed
/// comes before, and finds none only if none failed.
pub proof fn lemma_first_failure(outcomes: Seq<Opening>, from: int)
    requires
        0 <= from,
    ensures
        match first_failure(outcomes, from) {
            Some(at) => from <= at < outcomes.len() && outcomes[at] is Err && forall|k: int|
                from <= k < at ==> (#[trigger] outcomes[k]) is Ok,
            None => forall|k: int| from <= k < outcomes.len() ==> (#[trigger] outcomes[k]) is Ok,
        },
    decreases outcomes.len() - from,
{
    if from < outcomes.len() && outcomes[from] is Ok {
        lemma_first_failure(outcomes, from + 1);
    }
}

/// The redirect whose file is to be opened next, given how the openings so
/// far ended: the one after them, in the order of the list, as long as none
/// has failed and one is left.
pub open spec fn next_opening(count: nat, outcomes: Seq<Opening>) -> Option<usize> {
    if first_failure(outcomes, 0) is None && outcomes.len() < count {
        Some(outcomes.len() as usize)
    } else {
        None
    }
}

/// The position of the first opening that failed.
pub fn find_failure(outcomes: &Vec<Opening>) -> (found: Option<usize>)
    ensures
        match found {
            Some(at) => first_failure(outcomes@, 0) == Some(at as int),
            None => first_failure(outcomes@, 0) is None,
        },
{
    let mut i: usize = 0;
    while i < outcomes.len()
        invariant
            i <= outcomes.len(),
            first_failure(outcomes@, 0) == first_failure(outcomes@, i as int),
        decreases outcomes.len() - i,
    {
        match &outcomes[i] {
            Ok(_) => {},
            Err(_) => {
                return Some(i);
            },
        }
        i += 1;
    }
    None
}

/// Says which redirect's file to open next, if any. The files are opened in
/// the order of the redirects, and after a failure none is.
pub fn next_to_open(redirects: &Vec<Redirect>, outcomes: &Vec<Opening>) -> (next: Option<usize>)
    ensures
        next == next_opening(redirects@.len(), outcomes@),
{
    match find_failure(outcomes) {
        Some(_) => None,
        None => {
            if outcomes.len() < redirects.len() {
                Some(outcomes.len())
            } else {
                None
            }
        },
    }
}

/// How the file of a redirect is opened.
#[derive(Debug, Clone, Copy, PartialEq, Eq, Structural)]
pub struct OpenMode {
    pub create: bool,
    pub truncate: bool,
    pub append: bool,
    pub write: bool,
}

/// How the file of a redirect is opened: for writing, created if it is
/// missing, and either appended to or emptied first.
pub fn open_mode(redirect: &Redirect) -> (mode: OpenMode)
    ensures
        mode == (OpenMode {
            create: true,
            truncate: !redirect.append,
            append: redirect.append,
            write: true,
        }),
{
    OpenMode { create: true, truncate: !redirect.append, append: redirect.append, write: true }
}

/// The position of the last redirect of the given stream.
pub open spec fn last_of(
    redirects: Seq<RedirectView>,
    stream: StandardNamedStream,
) -> Option<usize>
    decreases redirects.len(),
{
    if redirects.len() == 0 {
        None
    } else if redirects.last().stream_name == stream {
        Some((redirects.len() - 1) as usize)
    } else {
        last_of(redirects.drop_last(), stream)
    }
}

/// [`last_of`] finds a redirect of the stream that none of the same stream
/// follows, and finds none only if the stream has no redirect.
pub proof fn lemma_last_of(redirects: Seq<RedirectView>, stream: StandardNamedStream)
    requires
        redirects.len() <= usize::MAX,
    ensures
        match last_of(redirects, stream) {
            Some(at) => at < redirects.len() && redirects[at as int].stream_name == stream
                && forall|k: int|
                at < k < redirects.len() ==> (#[trigger] redirects[k]).stream_name != stream,
            None => forall|k: int|
                0 <= k < redirects.len() ==> (#[trigger] redirects[k]).stream_name != stream,
        },
    decreases redirects.len(),
{
    if redirects.len() > 0 && redirects.last().stream_name != stream {
        lemma_last_of(redirects.drop_last(), stream);
        assert forall|k: int| 0 <= k < redirects.len() - 1 implies redirects.drop_last()[k]
            == redirects[k] by {}
    }
}

/// Where a stream of a command goes.
#[derive(Debug, Clone, Copy, PartialEq, Eq, Structural)]
pub enum Target {
    /// Where the shell's own stream goes.
    Inherited,
    /// To the file of the redirect at the given position.
    File(usize),
}

/// A line of text for one of the streams.
pub struct Written {
    pub target: Target,
    pub text: String,
}

/// A [`Written`] as a mathematical value.
pub struct WrittenView {
    pub target: Target,
    pub text: Seq<char>,
}

impl View for Written {
    type V = WrittenView;

    open spec fn view(&self) -> WrittenView {
        WrittenView { target: self.target, text: self.text@ }
    }
}

/// The redirected streams of a command: for the output and the error stream
/// the position of the redirect whose file replaces it, if there is one.
#[derive(Debug, Clone, Copy, PartialEq, Eq, Structural)]
pub struct RedirectStreams {
    pub output: Option<usize>,
    pub error: Option<usize>,
}

/// Where a stream goes that the redirect at the given position replaces, if
/// one does.
pub open spec fn target_of(file: Option<usize>) -> Target {
    match file {
        Some(at) => Target::File(at),
        None => Target::Inherited,
    }
}

/// The streams of a command with the given redirects: for each stream the
/// last redirect that names it.
pub open spec fn streams_of(redirects: Seq<RedirectView>) -> RedirectStreams {
    RedirectStreams {
        output: last_of(redirects, StandardNamedStream::Output),
        error: last_of(redirects, StandardNamedStream::Error),
    }
}

/// The streams of a command whose redirects were opened with the given
/// outcomes: the first failure, in the order of the redirects, if an opening
/// failed, and else the streams that the redirects make.
pub open spec fn opened(
    redirects: Seq<RedirectView>,
    outcomes: Seq<Opening>,
) -> Result<RedirectStreams, std::io::Error> {
    match first_failure(outcomes, 0) {
        Some(at) => Err(outcomes[at]->Err_0),
        None => Ok(streams_of(redirects)),
    }
}

impl RedirectStreams {
    /// The streams of a command without redirects.
    pub fn standard() -> (streams: RedirectStreams)
        ensures
            streams == (RedirectStreams { output: None, error: None }),
    {
        RedirectStreams { output: None, error: None }
    }

    /// The streams of a command whose redirects were opened with the given
    /// outcomes. It fails if and only if an opening failed, with the error of
    /// the first that did.
    pub fn new(redirects: &Vec<Redirect>, outcomes: Vec<Opening>) -> (streams: Result<
        RedirectStreams,
        std::io::Error,
    >)
        ensures
            streams == opened(redirect_views(redirects@), outcomes@),
            streams is Err <==> exists|k: int|
                0 <= k < outcomes.len() && (#[trigger] outcomes[k]) is Err,
    {
        proof {
            lemma_first_failure(outcomes@, 0);
        }
        let mut outcomes = outcomes;
        match find_failure(&outcomes) {
            Some(at) => {
                match outcomes.remove(at) {
                    Err(error) => {
                        return Err(error);
                    },
                    Ok(_) => {},
                }
            },
            None => {},
        }
        Ok(RedirectStreams::of(redirects))
    }

    /// The streams that the redirects make once their files are open.
    pub fn of(redirects: &Vec<Redirect>) -> (streams: RedirectStreams)
        ensures
            streams == streams_of(redirect_views(redirects@)),
    {
        let ghost all = redirect_views(redirects@);
        let mut output: Option<usize> = None;
        let mut error: Option<usize> = None;
        let mut i: usize = 0;
        while i < redirects.len()
            invariant
                i <= redirects.len(),
                all == redirect_views(redirects@),
                output == last_of(all.take(i as int), StandardNamedStream::Output),
                error == last_of(all.take(i as int), StandardNamedStream::Error),
            decreases redirects.len() - i,
        {
            proof {
                assert(all.take(i + 1).drop_last() =~= all.take(i as int));
                assert(all.take(i + 1).last() == redirects[i as int]@);
            }
            match redirects[i].stream_name {
                StandardNamedStream::Output => {
                    output = Some(i);
                },
                StandardNamedStream::Error => {
                    error = Some(i);
                },
                StandardNamedStream::Unknown => {},
            }
            i += 1;
        }
        assert(all.take(i as int) =~= all);
        RedirectStreams { output, error }
    }

    /// Where the output stream goes.
    pub fn output_target(&self) -> (target: Target)
        ensures
            target == target_of(self.output),
    {
        match self.output {
            Some(at) => Target::File(at),
            None => Target::Inherited,
        }
    }

    /// Where the error stream goes.
    pub fn error_target(&self) -> (target: Target)
        ensures
            target == target_of(self.error),
    {
        match self.error {
            Some(at) => Target::File(at),
            None => Target::Inherited,
        }
    }

    /// A line for the output stream: the message and a line feed, for the
    /// file that replaces the stream or else for the stream itself.
    pub fn println(&self, message: &str) -> (written: Written)
        ensures
            written@ == (WrittenView {
                target: target_of(self.output),
                text: message@.push('\n'),
            }),
    {
        let mut text = chars_of(message);
        text.push('\n');
        Written { target: self.output_target(), text: string_of(&text) }
    }

    /// A line for the error stream: the message and a line feed, for the
    /// file that replaces the stream or else for the stream itself.
    pub fn println_error(&self, message: &str) -> (written: Written)
        ensures
            written@ == (WrittenView {
                target: target_of(self.error),
                text: message@.push('\n'),
            }),
    {
        let mut text = chars_of(message);
        text.push('\n');
        Written { target: self.error_target(), text: string_of(&text) }
    }
}

} // verus!

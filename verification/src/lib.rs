//! The core of an interactive command shell: the line tokenizer, command
//! resolution, the wiring of pipelines, completion, and the line editor,
//! each stated over plain values so that the surrounding program only has
//! to perform the reads, writes and process launches that they ask for.

pub mod text;
pub mod words;
pub mod autocomplete;
pub mod builtins;
pub mod editor;
pub mod history;
pub mod order;
pub mod parser;
pub mod pipeline;
pub mod shell;
pub mod stream;
pub mod terminal;

pub use autocomplete::{autocomplete, bell, find_shared_prefix, prompt};
pub use autocomplete::{AutocompleteResult, Completion, PathEntry};
pub use builtins::{builtin_cd, builtin_echo, builtin_exit, builtin_history};
pub use builtins::{builtin_pwd, builtin_type, cd_outcome, Base, Effect};
pub use editor::{change_line, Input, LineEditor, Next, Reaction, ReadResult};
pub use parser::{parse_argv, parse_pipeline, ParsedLine, Redirect, StandardNamedStream};
pub use pipeline::{eval, next_redirect, run_pipeline, run_single, Job, Launch, Pipeline};
pub use pipeline::Program;
pub use pipeline::{Sink, Source, Stage, Step};
pub use shell::{search_directories, Builtin, PathCandidate, Shell, ShellCommand};
pub use stream::{next_to_open, open_mode, OpenMode, Opening, RedirectStreams, Target, Written};
pub use terminal::{raw_mode, ModeFlags, TerminalMode};

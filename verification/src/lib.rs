//! The command side of the Reckless chess engine: the commands of the UCI protocol, the sessions in
//! which they come, the listeners that let them through during a search, and the choice among the
//! results of search threads.
//!
//! Everything here decides and nothing acts. A session, a listener and the functions on single
//! commands say what is to be done; whoever runs them owns the threads, the channels, the board and
//! the search, does it, and reports back.

use std::collections::VecDeque;

use vstd::prelude::*;

use crate::session::{hosted_session, stdin_session, Session, Source, Stage};
use crate::text::owned_contents;

pub mod command;
pub mod lifecycle;
pub mod limits;
pub mod listener;
pub mod listener_laws;
pub mod notice;
pub mod number;
pub mod options;
pub mod output_laws;
pub mod position;
pub mod search;
pub mod search_laws;
pub mod session;
pub mod session_laws;
pub mod text;
pub mod uci;
pub mod vote;

verus! {

/// Where protocol lines go.
///
/// One value serves all threads of an engine, since search threads print too. Without a sink,
/// lines go to standard output.
pub struct OutputSink<F> {
    pub sink: Option<F>,
}

impl<F> OutputSink<F> {
    /// An output without a sink.
    pub fn new() -> (res: Self)
        ensures
            res.sink is None,
    {
        OutputSink { sink: None }
    }
}

/// Sets the output sink, in place of the one that was set before. `None` sends lines to standard
/// output again.
pub fn set_output_sink<F>(output: &mut OutputSink<F>, f: Option<F>)
    ensures
        final(output).sink == f,
{
    output.sink = f;
}

/// What becomes of a protocol line: with a sink, the sink is called with the line, and without one
/// the line is not taken.
pub open spec fn emits<F: Fn(&str)>(output: OutputSink<F>, line: &str, taken: bool) -> bool {
    &&& taken == output.sink is Some
    &&& output.sink matches Some(f) ==> f.ensures((line,), ())
}

/// Hands a protocol line to the sink. Without a sink the line is left to the caller, who prints it,
/// and the result is `false`.
pub fn _uci_emit<F: Fn(&str)>(output: &OutputSink<F>, line: &str) -> (taken: bool)
    requires
        output.sink matches Some(f) ==> f.requires((line,)),
    ensures
        emits(*output, line, taken),
{
    match &output.sink {
        Some(f) => {
            f(line);
            true
        },
        None => false,
    }
}

/// Runs the engine on standard input and output.
///
/// The lookup tables and the evaluation network come first, then the message loop on `buffer` and
/// standard input. No output sink is installed. If `buffer` holds commands and none of them is
/// `uci`, the session leaves after them without reading from standard input.
pub fn run(buffer: VecDeque<String>) -> (res: Session)
    ensures
        res@ == stdin_session(owned_contents(buffer@)),
{
    Session::starting_at(Source::Stdin, false, Stage::Lookup, buffer)
}

/// Runs the engine for a host that has a command channel and an output sink.
///
/// The lookup tables and the evaluation network come first. Then the sink is installed, the message
/// loop runs on `initial` and the channel, and the sink is cleared. If `initial` holds commands and
/// none of them is `uci`, the session leaves after them without receiving from the channel.
pub fn run_io(initial: VecDeque<String>) -> (res: Session)
    ensures
        res@ == hosted_session(owned_contents(initial@)),
{
    Session::starting_at(Source::Channel, true, Stage::Lookup, initial)
}

} // verus!

//! A session: one run of the engine, from its first action to its last.
//!
//! A session decides what happens next, and whoever runs it does it: `advance` names the next
//! action once the last one is done, and `receive` takes the command that a `Receive` brought.

use std::collections::VecDeque;

use vstd::prelude::*;

use crate::command::{notice, notice_of, verb, verb_of, Mode, Verb};
use crate::notice::Notice;
use crate::text::{owned_contents, split_whitespace, words};

verus! {

/// Where commands come from after the initial ones.
#[derive(Copy, Clone, Debug, PartialEq, Eq, Structural)]
pub enum Source {
    /// Standard input.
    Stdin,
    /// A channel of the host.
    Channel,
}

/// What a session has to do next.
#[derive(Copy, Clone, Debug, PartialEq, Eq, Structural)]
pub enum Stage {
    Lookup,
    Network,
    Install,
    Build,
    Listen,
    /// Pick the next command.
    Pick,
    /// Wait for a command to be received.
    Wait,
    /// A command was carried out.
    Settle,
    /// The output sink is to be cleared.
    Clear,
    Over,
}

/// Something that a session asks for.
#[derive(Copy, Clone, Debug, PartialEq, Eq, Structural)]
pub enum Action {
    /// Fill the lookup tables.
    InitializeLookup,
    /// Load the evaluation network.
    InitializeNetwork,
    /// Install the output sink of the host.
    InstallSink,
    /// Set up the shared search state, the default settings and the search threads.
    BuildEngine,
    /// Start the listener on the session's source.
    StartListener,
    /// Receive a command from the listener.
    Receive,
    /// Carry out the session's order.
    Execute,
    /// Tell the listener to shut down and wait until it has ended.
    StopListener,
    /// Clear the output sink.
    ClearSink,
    /// Return: the session is over.
    Exit,
}

/// A command to carry out.
#[derive(Debug)]
pub struct Order {
    pub verb: Verb,
    /// The mode before the command.
    pub mode: Mode,
    /// The words behind the first.
    pub args: Vec<String>,
    /// The command as it was given.
    pub text: String,
    /// What is printed for it.
    pub notice: Notice<String>,
}

/// What an order holds.
#[verifier::ext_equal]
pub struct OrderView {
    pub verb: Verb,
    pub mode: Mode,
    pub args: Seq<Seq<char>>,
    pub text: Seq<char>,
    pub notice: Notice<Seq<char>>,
}

impl View for Order {
    type V = OrderView;

    open spec fn view(&self) -> OrderView {
        OrderView {
            verb: self.verb,
            mode: self.mode,
            args: owned_contents(self.args@),
            text: self.text@,
            notice: self.notice@,
        }
    }
}

/// One run of the engine.
#[derive(Debug)]
pub struct Session {
    pub source: Source,
    /// The host has an output sink that is installed for the session.
    pub hosted: bool,
    pub stage: Stage,
    /// The initial commands that are left.
    pub buffer: VecDeque<String>,
    pub mode: Mode,
    /// The command that `Execute` speaks of.
    pub order: Option<Order>,
}

/// What a session holds.
#[verifier::ext_equal]
pub struct SessionView {
    pub source: Source,
    pub hosted: bool,
    pub stage: Stage,
    pub buffer: Seq<Seq<char>>,
    pub mode: Mode,
    pub order: Option<OrderView>,
}

impl View for Session {
    type V = SessionView;

    open spec fn view(&self) -> SessionView {
        SessionView {
            source: self.source,
            hosted: self.hosted,
            stage: self.stage,
            buffer: owned_contents(self.buffer@),
            mode: self.mode,
            order: match self.order {
                Some(order) => Some(order@),
                None => None,
            },
        }
    }
}

/// The mode a session starts in: with initial commands it runs those, without it listens.
pub open spec fn initial_mode(buffer: Seq<Seq<char>>) -> Mode {
    if buffer.len() == 0 {
        Mode::Uci
    } else {
        Mode::Cli
    }
}

/// A session that starts at `stage`.
pub open spec fn session_at(
    source: Source,
    hosted: bool,
    stage: Stage,
    buffer: Seq<Seq<char>>,
) -> SessionView {
    SessionView { source, hosted, stage, buffer, mode: initial_mode(buffer), order: None }
}

/// The session that `run` begins.
pub open spec fn stdin_session(buffer: Seq<Seq<char>>) -> SessionView {
    session_at(Source::Stdin, false, Stage::Lookup, buffer)
}

/// The session that `run_io` begins.
pub open spec fn hosted_session(buffer: Seq<Seq<char>>) -> SessionView {
    session_at(Source::Channel, true, Stage::Lookup, buffer)
}

/// The order that a command gives in a mode.
pub open spec fn order_of(text: Seq<char>, mode: Mode) -> OrderView {
    let tokens = words(text);
    OrderView {
        verb: verb_of(tokens),
        mode,
        args: if tokens.len() == 0 {
            seq![]
        } else {
            tokens.skip(1)
        },
        text,
        notice: notice_of(verb_of(tokens), text),
    }
}

/// Leaving the message loop: a channel listener is shut down first, and a host's sink is cleared.
pub open spec fn leaving(s: SessionView) -> (SessionView, Action) {
    match s.source {
        Source::Stdin => (SessionView { stage: Stage::Over, ..s }, Action::Exit),
        Source::Channel => (
            SessionView {
                stage: if s.hosted {
                    Stage::Clear
                } else {
                    Stage::Over
                },
                ..s
            },
            Action::StopListener,
        ),
    }
}

/// Taking up a command: `quit` leaves the loop, and `uci` makes the session listen from then on.
pub open spec fn taking(s: SessionView, text: Seq<char>) -> (SessionView, Action) {
    let order = order_of(text, s.mode);
    if order.verb == Verb::Quit {
        leaving(s)
    } else {
        (
            SessionView {
                stage: Stage::Settle,
                mode: if order.verb == Verb::Uci {
                    Mode::Uci
                } else {
                    s.mode
                },
                order: Some(order),
                ..s
            },
            Action::Execute,
        )
    }
}

/// Picking the next command: the initial ones first, then what is received, if the session listens.
pub open spec fn picking(s: SessionView) -> (SessionView, Action) {
    if s.buffer.len() > 0 {
        taking(SessionView { buffer: s.buffer.skip(1), ..s }, s.buffer[0])
    } else if s.mode == Mode::Uci {
        (SessionView { stage: Stage::Wait, ..s }, Action::Receive)
    } else {
        leaving(s)
    }
}

/// The next action of a session whose last action is done.
pub open spec fn session_next(s: SessionView) -> (SessionView, Action) {
    match s.stage {
        Stage::Lookup => (
            SessionView { stage: Stage::Network, ..s },
            Action::InitializeLookup,
        ),
        Stage::Network => (
            SessionView {
                stage: if s.hosted {
                    Stage::Install
                } else {
                    Stage::Build
                },
                ..s
            },
            Action::InitializeNetwork,
        ),
        Stage::Install => (SessionView { stage: Stage::Build, ..s }, Action::InstallSink),
        Stage::Build => (SessionView { stage: Stage::Listen, ..s }, Action::BuildEngine),
        Stage::Listen => (SessionView { stage: Stage::Pick, ..s }, Action::StartListener),
        Stage::Pick => picking(s),
        Stage::Wait => (s, Action::Receive),
        Stage::Settle => if s.mode == Mode::Cli && s.buffer.len() == 0 {
            leaving(s)
        } else {
            picking(s)
        },
        Stage::Clear => (SessionView { stage: Stage::Over, ..s }, Action::ClearSink),
        Stage::Over => (s, Action::Exit),
    }
}

/// The next action of a session that waits for a command: `None` stands for a closed queue.
pub open spec fn session_receive(s: SessionView, message: Option<Seq<char>>) -> (
    SessionView,
    Action,
) {
    match message {
        Some(text) => taking(s, text),
        None => leaving(s),
    }
}

impl Order {
    /// The order that a command gives.
    fn of(text: String, mode: Mode) -> (res: Order)
        ensures
            res@ == order_of(text@, mode),
    {
        let tokens = split_whitespace(text.as_str());
        let verb = verb(tokens.as_slice());
        let notice = notice(verb, text.as_str());
        let mut args: Vec<String> = Vec::new();
        let mut i: usize = 1;
        while i < tokens.len()
            invariant
                1 <= i,
                tokens.len() > 0 ==> i <= tokens.len(),
                crate::text::contents(tokens@) == words(text@),
                owned_contents(args@) == if tokens.len() == 0 {
                    seq![]
                } else {
                    words(text@).subrange(1, i as int)
                },
            decreases tokens.len() - i,
        {
            let ghost held = args@;
            args.push(tokens[i].to_owned());
            proof {
                assert(words(text@)[i as int] == tokens@[i as int]@);
                assert(owned_contents(args@) == owned_contents(held).push(words(text@)[i as int]));
                assert(words(text@).subrange(1, i + 1) == words(text@).subrange(1, i as int).push(
                    words(text@)[i as int],
                ));
            }
            i = i + 1;
        }
        proof {
            if tokens.len() > 0 {
                assert(words(text@).skip(1) == words(text@).subrange(1, i as int));
            }
            assert(words(text@).len() == tokens.len());
        }
        Order { verb, mode, args, text, notice }
    }
}

impl Session {
    /// A session that starts at `stage`.
    pub(crate) fn starting_at(
        source: Source,
        hosted: bool,
        stage: Stage,
        buffer: VecDeque<String>,
    ) -> (res: Session)
        ensures
            res@ == session_at(source, hosted, stage, owned_contents(buffer@)),
    {
        let mode = if buffer.len() == 0 {
            Mode::Uci
        } else {
            Mode::Cli
        };
        Session { source, hosted, stage, buffer, mode, order: None }
    }

    /// Names the next action, the last one being done.
    pub fn advance(&mut self) -> (res: Action)
        ensures
            (final(self)@, res) == session_next(old(self)@),
    {
        match self.stage {
            Stage::Lookup => {
                self.stage = Stage::Network;
                Action::InitializeLookup
            },
            Stage::Network => {
                self.stage = if self.hosted {
                    Stage::Install
                } else {
                    Stage::Build
                };
                Action::InitializeNetwork
            },
            Stage::Install => {
                self.stage = Stage::Build;
                Action::InstallSink
            },
            Stage::Build => {
                self.stage = Stage::Listen;
                Action::BuildEngine
            },
            Stage::Listen => {
                self.stage = Stage::Pick;
                Action::StartListener
            },
            Stage::Pick => self.pick(),
            Stage::Wait => Action::Receive,
            Stage::Settle => {
                if self.mode == Mode::Cli && self.buffer.len() == 0 {
                    self.leave()
                } else {
                    self.pick()
                }
            },
            Stage::Clear => {
                self.stage = Stage::Over;
                Action::ClearSink
            },
            Stage::Over => Action::Exit,
        }
    }

    /// Takes the command that was received, or learns that no more will come.
    pub fn receive(&mut self, message: Option<String>) -> (res: Action)
        requires
            old(self)@.stage == Stage::Wait,
        ensures
            (final(self)@, res) == session_receive(
                old(self)@,
                match message {
                    Some(text) => Some(text@),
                    None => None,
                },
            ),
    {
        match message {
            Some(text) => self.take(text),
            None => self.leave(),
        }
    }

    /// Picks the next command.
    fn pick(&mut self) -> (res: Action)
        ensures
            (final(self)@, res) == picking(old(self)@),
    {
        let ghost held = self.buffer@;
        match self.buffer.pop_front() {
            Some(text) => {
                assert(owned_contents(self.buffer@) == owned_contents(held).skip(1));
                self.take(text)
            },
            None => {
                if self.mode == Mode::Uci {
                    self.stage = Stage::Wait;
                    Action::Receive
                } else {
                    self.leave()
                }
            },
        }
    }

    /// Takes up a command.
    fn take(&mut self, text: String) -> (res: Action)
        ensures
            (final(self)@, res) == taking(old(self)@, text@),
    {
        let order = Order::of(text, self.mode);
        if order.verb == Verb::Quit {
            return self.leave();
        }
        if order.verb == Verb::Uci {
            self.mode = Mode::Uci;
        }
        self.order = Some(order);
        self.stage = Stage::Settle;
        Action::Execute
    }

    /// Leaves the message loop.
    fn leave(&mut self) -> (res: Action)
        ensures
            (final(self)@, res) == leaving(old(self)@),
    {
        match self.source {
            Source::Stdin => {
                self.stage = Stage::Over;
                Action::Exit
            },
            Source::Channel => {
                self.stage = if self.hosted {
                    Stage::Clear
                } else {
                    Stage::Over
                };
                Action::StopListener
            },
        }
    }
}

} // verus!

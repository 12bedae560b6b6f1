//! The listeners: they take commands from the host while the message loop may be deep in a search.
//!
//! A listener runs on a thread of its own, so that `stop`, `quit` and `isready` get through at any
//! time. It decides here what becomes of each command; its thread does what is decided.

use vstd::prelude::*;

use crate::command::{verb, verb_of, Verb};
use crate::text::{
    law_lone_word, law_trimming_keeps_words, same, split_whitespace, trim_end, trimmed, words,
};

verus! {

/// A command queued for the message loop.
///
/// The `go` of a channel host carries a lifecycle: the means to acknowledge that its search is
/// running, and that it has ended. The channel listener takes no further command before the first
/// acknowledgement, so that a `stop` sent right behind a `go` cannot be undone by the search that
/// is only starting.
#[derive(Debug)]
pub struct QueuedMessage<L> {
    pub text: String,
    pub search_lifecycle: Option<L>,
}

impl<L> QueuedMessage<L> {
    /// A command without a lifecycle.
    pub fn plain(text: String) -> (res: Self)
        ensures
            res.text == text,
            res.search_lifecycle is None,
    {
        QueuedMessage { text, search_lifecycle: None }
    }
}

/// What the listener on standard input does with a line.
#[derive(Copy, Clone, Debug, PartialEq, Eq, Structural)]
pub enum StdinAction {
    /// Answer `readyok` at once.
    Ready,
    /// Set the search status to stopped.
    Stop,
    /// Set the search status to stopped, queue `quit` for the message loop and end.
    Quit,
    /// Queue the line for the message loop.
    Forward,
    /// Drop the line.
    Ignore,
}

/// What becomes of a line from standard input, given whether a search is running. Only white space
/// at the end of a control line is overlooked. Other lines are dropped while a search is running.
pub open spec fn stdin_action(line: Seq<char>, running: bool) -> StdinAction {
    let command = trimmed(line);
    if command == "isready"@ {
        StdinAction::Ready
    } else if command == "stop"@ {
        StdinAction::Stop
    } else if command == "quit"@ {
        StdinAction::Quit
    } else if running {
        StdinAction::Ignore
    } else {
        StdinAction::Forward
    }
}

/// Decides what becomes of a line from standard input.
pub fn on_stdin_line(line: &str, running: bool) -> (res: StdinAction)
    ensures
        res == stdin_action(line@, running),
{
    let command = trim_end(line);
    if same(command, "isready") {
        StdinAction::Ready
    } else if same(command, "stop") {
        StdinAction::Stop
    } else if same(command, "quit") {
        StdinAction::Quit
    } else if running {
        StdinAction::Ignore
    } else {
        StdinAction::Forward
    }
}

/// Whether `quit` is queued for the message loop when standard input has ended: not while a search
/// is running. The empty line that was read then goes through `on_stdin_line` like any other.
pub fn on_stdin_end(running: bool) -> (quit: bool)
    ensures
        quit == !running,
{
    !running
}

/// What the channel listener is waiting for.
#[derive(Copy, Clone, Debug, PartialEq, Eq, Structural)]
pub enum Phase {
    /// A command from the host.
    Receiving,
    /// The outcome of queueing a command.
    Forwarding,
    /// The outcome of queueing a `go`.
    Launching,
    /// The acknowledgement that the search of a queued `go` is running.
    AwaitingStart,
    /// Nothing: the listener has ended.
    Closed,
}

/// Something the channel listener is told.
#[derive(Debug)]
pub enum ListenerEvent<T> {
    /// The shutdown flag was found set before receiving.
    Shutdown,
    /// No command came within the polling interval.
    Timeout,
    /// The host has closed its channel.
    Disconnected,
    /// A command came. The flag tells whether the search that the listener knows of, if any, was
    /// found to be over.
    Message(T, bool),
    /// A command was queued, or the message loop is gone.
    Sent(bool),
    /// The search of the queued `go` is running.
    Started,
    /// No acknowledgement came within the polling interval. The flag is the shutdown flag.
    StartTimeout(bool),
    /// The message loop dropped the `go` without starting a search.
    StartLost,
}

impl<'a> ListenerEvent<&'a str> {
    /// The event with the text it holds.
    pub open spec fn view(&self) -> ListenerEvent<Seq<char>> {
        match self {
            ListenerEvent::Shutdown => ListenerEvent::Shutdown,
            ListenerEvent::Timeout => ListenerEvent::Timeout,
            ListenerEvent::Disconnected => ListenerEvent::Disconnected,
            ListenerEvent::Message(text, over) => ListenerEvent::Message(text@, *over),
            ListenerEvent::Sent(ok) => ListenerEvent::Sent(*ok),
            ListenerEvent::Started => ListenerEvent::Started,
            ListenerEvent::StartTimeout(shutdown) => ListenerEvent::StartTimeout(*shutdown),
            ListenerEvent::StartLost => ListenerEvent::StartLost,
        }
    }
}

/// What the channel listener does next.
#[derive(Copy, Clone, Debug, PartialEq, Eq, Structural)]
pub enum ListenerAction {
    /// Look at the shutdown flag, then receive.
    Receive,
    /// Answer `readyok` at once, then receive.
    Ready,
    /// Set the search status to stopped, then receive.
    Stop,
    /// Drop the command, then receive.
    Ignore,
    /// Queue the command for the message loop.
    Forward,
    /// Queue the command for the message loop, with acknowledgements for the start and the end of
    /// its search.
    Launch,
    /// Wait for the acknowledgement that the search is running.
    AwaitStart,
    /// Set the search status to stopped, queue `quit` for the message loop and end.
    Quit,
    /// End.
    Leave,
}

/// The listener on a host channel.
#[derive(Copy, Clone, Debug, PartialEq, Eq, Structural)]
pub struct ChannelListener {
    pub phase: Phase,
    /// A search was started for the host and has not been seen to end.
    pub searching: bool,
    /// `stop` came during that search.
    pub stop_requested: bool,
}

/// Which events can come in a phase.
pub open spec fn event_fits<T>(phase: Phase, event: ListenerEvent<T>) -> bool {
    match phase {
        Phase::Receiving => event is Shutdown || event is Timeout || event is Disconnected
            || event is Message,
        Phase::Forwarding | Phase::Launching => event is Sent,
        Phase::AwaitingStart => event is Started || event is StartTimeout || event is StartLost,
        Phase::Closed => false,
    }
}

/// The listener once it has taken note that its search is over, if it is.
pub open spec fn refreshed(l: ChannelListener, over: bool) -> ChannelListener {
    if l.searching && over {
        ChannelListener { searching: false, stop_requested: false, ..l }
    } else {
        l
    }
}

/// What becomes of a command from the host.
///
/// While a search runs that nobody has asked to stop, `isready` is answered at once and whatever is
/// no control command is dropped. Otherwise commands are queued, so that their replies keep their
/// order: behind a stopped search its `bestmove` comes before `readyok`.
pub open spec fn on_message(l: ChannelListener, text: Seq<char>) -> (
    ChannelListener,
    ListenerAction,
) {
    let busy = l.searching && !l.stop_requested;
    match verb_of(words(text)) {
        Verb::IsReady => if busy {
            (l, ListenerAction::Ready)
        } else {
            (ChannelListener { phase: Phase::Forwarding, ..l }, ListenerAction::Forward)
        },
        Verb::Stop => (
            ChannelListener { stop_requested: l.stop_requested || l.searching, ..l },
            ListenerAction::Stop,
        ),
        Verb::Quit => (ChannelListener { phase: Phase::Closed, ..l }, ListenerAction::Quit),
        verb => if busy {
            (l, ListenerAction::Ignore)
        } else if verb == Verb::Go {
            (ChannelListener { phase: Phase::Launching, ..l }, ListenerAction::Launch)
        } else {
            (ChannelListener { phase: Phase::Forwarding, ..l }, ListenerAction::Forward)
        },
    }
}

/// What the listener does on an event.
pub open spec fn listener_next(l: ChannelListener, event: ListenerEvent<Seq<char>>) -> (
    ChannelListener,
    ListenerAction,
) {
    let closed = ChannelListener { phase: Phase::Closed, ..l };
    match event {
        ListenerEvent::Shutdown => (closed, ListenerAction::Leave),
        ListenerEvent::Timeout => (l, ListenerAction::Receive),
        ListenerEvent::Disconnected => (closed, ListenerAction::Quit),
        ListenerEvent::Message(text, over) => on_message(refreshed(l, over), text),
        ListenerEvent::Sent(ok) => if !ok {
            (closed, ListenerAction::Leave)
        } else if l.phase == Phase::Launching {
            (ChannelListener { phase: Phase::AwaitingStart, ..l }, ListenerAction::AwaitStart)
        } else {
            (ChannelListener { phase: Phase::Receiving, ..l }, ListenerAction::Receive)
        },
        ListenerEvent::Started => (
            ChannelListener { phase: Phase::Receiving, searching: true, stop_requested: false },
            ListenerAction::Receive,
        ),
        ListenerEvent::StartTimeout(shutdown) => if shutdown {
            (closed, ListenerAction::Leave)
        } else {
            (l, ListenerAction::AwaitStart)
        },
        ListenerEvent::StartLost => (closed, ListenerAction::Leave),
    }
}

impl ChannelListener {
    /// A stop is remembered only during a search.
    pub open spec fn well_formed(self) -> bool {
        self.stop_requested ==> self.searching
    }

    /// A listener that has yet to hear from the host.
    pub fn new() -> (res: ChannelListener)
        ensures
            res == (ChannelListener {
                phase: Phase::Receiving,
                searching: false,
                stop_requested: false,
            }),
            res.well_formed(),
    {
        ChannelListener { phase: Phase::Receiving, searching: false, stop_requested: false }
    }

    /// Tells the listener what happened and learns what to do next.
    pub fn step(&mut self, event: ListenerEvent<&str>) -> (res: ListenerAction)
        requires
            event_fits(old(self).phase, event@),
            old(self).well_formed(),
        ensures
            (*final(self), res) == listener_next(*old(self), event@),
            final(self).well_formed(),
    {
        match event {
            ListenerEvent::Shutdown => {
                self.phase = Phase::Closed;
                ListenerAction::Leave
            },
            ListenerEvent::Timeout => ListenerAction::Receive,
            ListenerEvent::Disconnected => {
                self.phase = Phase::Closed;
                ListenerAction::Quit
            },
            ListenerEvent::Message(text, over) => {
                if self.searching && over {
                    self.searching = false;
                    self.stop_requested = false;
                }
                self.message(text)
            },
            ListenerEvent::Sent(ok) => {
                if !ok {
                    self.phase = Phase::Closed;
                    ListenerAction::Leave
                } else if self.phase == Phase::Launching {
                    self.phase = Phase::AwaitingStart;
                    ListenerAction::AwaitStart
                } else {
                    self.phase = Phase::Receiving;
                    ListenerAction::Receive
                }
            },
            ListenerEvent::Started => {
                self.phase = Phase::Receiving;
                self.searching = true;
                self.stop_requested = false;
                ListenerAction::Receive
            },
            ListenerEvent::StartTimeout(shutdown) => {
                if shutdown {
                    self.phase = Phase::Closed;
                    ListenerAction::Leave
                } else {
                    ListenerAction::AwaitStart
                }
            },
            ListenerEvent::StartLost => {
                self.phase = Phase::Closed;
                ListenerAction::Leave
            },
        }
    }

    /// Decides what becomes of a command from the host.
    fn message(&mut self, text: &str) -> (res: ListenerAction)
        requires
            old(self).well_formed(),
        ensures
            (*final(self), res) == on_message(*old(self), text@),
            final(self).well_formed(),
    {
        let busy = self.searching && !self.stop_requested;
        let tokens = split_whitespace(text);
        let verb = verb(tokens.as_slice());
        match verb {
            Verb::IsReady => {
                if busy {
                    ListenerAction::Ready
                } else {
                    self.phase = Phase::Forwarding;
                    ListenerAction::Forward
                }
            },
            Verb::Stop => {
                if self.searching {
                    self.stop_requested = true;
                }
                ListenerAction::Stop
            },
            Verb::Quit => {
                self.phase = Phase::Closed;
                ListenerAction::Quit
            },
            _ => {
                if busy {
                    ListenerAction::Ignore
                } else if verb == Verb::Go {
                    self.phase = Phase::Launching;
                    ListenerAction::Launch
                } else {
                    self.phase = Phase::Forwarding;
                    ListenerAction::Forward
                }
            },
        }
    }
}

/// `isready` is answered at once during a search that nobody has asked to stop, and the listener is
/// then ready for the next command.
pub proof fn law_isready_is_answered_during_a_search(l: ChannelListener, text: Seq<char>)
    requires
        l.phase == Phase::Receiving,
        l.searching,
        !l.stop_requested,
        verb_of(words(text)) == Verb::IsReady,
    ensures
        listener_next(l, ListenerEvent::Message(text, false)) == (l, ListenerAction::Ready),
{
}

/// `stop` and `quit` always get through, whatever the listener knows of a search: they set the
/// search status to stopped without waiting for the message loop.
pub proof fn law_controls_always_get_through(l: ChannelListener, text: Seq<char>, over: bool)
    requires
        l.phase == Phase::Receiving,
    ensures
        verb_of(words(text)) == Verb::Stop ==> {
            let (next, action) = listener_next(l, ListenerEvent::Message(text, over));
            action == ListenerAction::Stop && next.phase == Phase::Receiving
        },
        verb_of(words(text)) == Verb::Quit ==> {
            let (next, action) = listener_next(l, ListenerEvent::Message(text, over));
            action == ListenerAction::Quit && next.phase == Phase::Closed
        },
{
}

/// A channel that the host has closed is as good as a `quit`.
pub proof fn law_closed_channel_is_quit(l: ChannelListener, text: Seq<char>)
    requires
        l.phase == Phase::Receiving,
        verb_of(words(text)) == Verb::Quit,
    ensures
        listener_next(l, ListenerEvent::Disconnected) == listener_next(
            l,
            ListenerEvent::Message(text, false),
        ),
{
}

/// The control lines of standard input are the commands they look like: a line that makes the
/// listener answer, stop or quit is `isready`, `stop` or `quit` for the message loop too.
pub proof fn law_stdin_control_lines_are_commands(line: Seq<char>, running: bool)
    ensures
        match stdin_action(line, running) {
            StdinAction::Ready => verb_of(words(line)) == Verb::IsReady,
            StdinAction::Stop => verb_of(words(line)) == Verb::Stop,
            StdinAction::Quit => verb_of(words(line)) == Verb::Quit,
            _ => true,
        },
{
    law_trimming_keeps_words(line);
    control_words_are_commands();
}

/// The control commands, standing alone.
pub proof fn control_words_are_commands()
    ensures
        verb_of(words("isready"@)) == Verb::IsReady,
        verb_of(words("stop"@)) == Verb::Stop,
        verb_of(words("quit"@)) == Verb::Quit,
{
    reveal_strlit("quit");
    reveal_strlit("stop");
    reveal_strlit("isready");
    reveal_strlit("go");
    reveal_strlit("position");
    reveal_strlit("setoption");
    reveal_strlit("bench");
    reveal_strlit("perft");
    reveal_strlit("uci");
    reveal_strlit("ucinewgame");
    assert("quit"@ =~= seq!['q', 'u', 'i', 't']);
    assert("stop"@ =~= seq!['s', 't', 'o', 'p']);
    assert("isready"@ =~= seq!['i', 's', 'r', 'e', 'a', 'd', 'y']);
    law_lone_word("quit"@);
    law_lone_word("stop"@);
    law_lone_word("isready"@);
    assert("uci"@[0] == 'u');
    assert("ucinewgame"@[0] == 'u');
    assert("go"@[0] == 'g');
    assert("position"@[0] == 'p');
    assert("setoption"@.len() == 9);
    assert("bench"@[0] == 'b');
    assert("quit"@[0] == 'q');
    assert("stop"@[0] == 's');
    assert("isready"@[0] == 'i');
}

/// What an event is seen to hold is all it holds.
pub proof fn law_event_is_seen_whole(event: ListenerEvent<&str>)
    ensures
        match event {
            ListenerEvent::Message(text, over) => event@ == ListenerEvent::Message(text@, over),
            ListenerEvent::Sent(ok) => event@ == ListenerEvent::<Seq<char>>::Sent(ok),
            ListenerEvent::StartTimeout(shutdown) => event@
                == ListenerEvent::<Seq<char>>::StartTimeout(shutdown),
            ListenerEvent::Shutdown => event@ is Shutdown,
            ListenerEvent::Timeout => event@ is Timeout,
            ListenerEvent::Disconnected => event@ is Disconnected,
            ListenerEvent::Started => event@ is Started,
            ListenerEvent::StartLost => event@ is StartLost,
        },
{
}

} // verus!

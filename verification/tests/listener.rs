use std::collections::VecDeque;

use reckless::command::{verb, Verb};
use reckless::listener::{
    on_stdin_end, on_stdin_line, ChannelListener, ListenerAction, ListenerEvent, Phase, QueuedMessage, StdinAction,
};
use reckless::notice::Notice;
use reckless::session::{Action, Session};
use reckless::run_io;
use reckless::text::split_whitespace;
use reckless::vote::bestmove;

#[derive(Clone, Copy, Debug, PartialEq, Eq)]
enum Status {
    Stopped,
    Running,
}

/// The listener, its queue and the search status, with a host and a message loop to be played by
/// the test.
struct Bridge {
    listener: ChannelListener,
    status: Status,
    queue: VecDeque<QueuedMessage<usize>>,
    printed: Vec<String>,
    launched: usize,
    known: Option<usize>,
    finished: Vec<usize>,
}

impl Bridge {
    fn new() -> Bridge {
        Bridge {
            listener: ChannelListener::new(),
            status: Status::Stopped,
            queue: VecDeque::new(),
            printed: Vec::new(),
            launched: 0,
            known: None,
            finished: Vec::new(),
        }
    }

    fn can_receive(&self) -> bool {
        self.listener.phase == Phase::Receiving
    }

    fn host(&mut self, text: &str) -> ListenerAction {
        assert!(self.can_receive());
        let over = self.known.map_or(false, |k| self.finished.contains(&k));
        let action = self.listener.step(ListenerEvent::Message(text, over));
        match action {
            ListenerAction::Ready => self.printed.push("readyok".to_string()),
            ListenerAction::Stop => self.status = Status::Stopped,
            ListenerAction::Quit => {
                self.status = Status::Stopped;
                self.queue.push_back(QueuedMessage::plain("quit".to_string()));
            }
            ListenerAction::Forward => {
                self.queue.push_back(QueuedMessage::plain(text.to_string()));
                assert_eq!(self.listener.step(ListenerEvent::Sent(true)), ListenerAction::Receive);
            }
            ListenerAction::Launch => {
                self.launched += 1;
                self.queue.push_back(QueuedMessage {
                    text: text.to_string(),
                    search_lifecycle: Some(self.launched),
                });
                assert_eq!(self.listener.step(ListenerEvent::Sent(true)), ListenerAction::AwaitStart);
            }
            ListenerAction::Ignore => {}
            other => panic!("unexpected action {:?}", other),
        }
        action
    }

    fn acknowledge_start(&mut self, search: usize) {
        assert_eq!(self.listener.step(ListenerEvent::Started), ListenerAction::Receive);
        self.known = Some(search);
    }
}

#[test]
fn injected_channel_controls_stop_search_and_order_ready_barrier() {
    let mut bridge = Bridge::new();

    // Queue stop immediately behind go. The listener does not take it until the search has
    // published its status and acknowledged its start.
    bridge.host("go infinite");
    let QueuedMessage { text, search_lifecycle } = bridge.queue.pop_front().unwrap();
    assert_eq!(text, "go infinite");
    let search = search_lifecycle.expect("injected go must carry lifecycle acknowledgements");
    assert!(!bridge.can_receive());

    bridge.status = Status::Running;
    bridge.acknowledge_start(search);
    assert!(bridge.can_receive());
    bridge.host("stop");
    assert_eq!(bridge.status, Status::Stopped);

    // Once stop is accepted, isready is queued behind the search and not answered at once.
    bridge.host("isready");
    let QueuedMessage { text, search_lifecycle } = bridge.queue.pop_front().unwrap();
    assert_eq!(text, "isready");
    assert!(search_lifecycle.is_none());
    assert!(bridge.printed.is_empty());

    bridge.printed.push(bestmove(Some("e2e4")));
    bridge.finished.push(search);
    bridge.printed.push("readyok".to_string());
    assert_eq!(bridge.printed[0], "bestmove e2e4");
    assert_eq!(bridge.printed[1], "readyok");
    assert_eq!(bridge.status, Status::Stopped);

    // A command that comes after the end of the search is queued and not dropped.
    bridge.host("position startpos");
    let QueuedMessage { text, search_lifecycle } = bridge.queue.pop_front().unwrap();
    assert_eq!(text, "position startpos");
    assert!(search_lifecycle.is_none());

    // Quit stops a running search and queues the end without waiting for it.
    bridge.status = Status::Running;
    bridge.host("quit");
    let QueuedMessage { text, search_lifecycle } = bridge.queue.pop_front().unwrap();
    assert_eq!(text, "quit");
    assert!(search_lifecycle.is_none());
    assert_eq!(bridge.status, Status::Stopped);
    assert_eq!(bridge.listener.phase, Phase::Closed);
}

/// A host, a listener and a message loop that take turns. A search to a fixed depth ends by itself,
/// any other one when its status is set to stopped.
struct Engine {
    bridge: Bridge,
    session: Session,
    inbox: VecDeque<String>,
    active: Option<(usize, bool)>,
    left: bool,
}

impl Engine {
    fn new() -> Engine {
        let mut session = run_io(VecDeque::new());
        let mut action = session.advance();
        while action != Action::Receive {
            action = session.advance();
        }
        Engine { bridge: Bridge::new(), session, inbox: VecDeque::new(), active: None, left: false }
    }

    fn send(&mut self, text: &str) {
        self.inbox.push_back(text.to_string());
    }

    /// Lets the message loop do what it can, and then the listener, until both have to wait.
    fn settle(&mut self) {
        let mut moved = true;
        while moved && !self.left {
            moved = self.turn_of_the_loop() || self.turn_of_the_listener();
        }
    }

    fn turn_of_the_listener(&mut self) -> bool {
        if !self.bridge.can_receive() {
            return false;
        }
        match self.inbox.pop_front() {
            Some(text) => {
                self.bridge.host(&text);
                true
            }
            None => false,
        }
    }

    fn turn_of_the_loop(&mut self) -> bool {
        if let Some((search, fixed)) = self.active {
            if !fixed && self.bridge.status == Status::Running {
                return false;
            }
            self.bridge.printed.push(bestmove(Some("e2e4")));
            self.bridge.status = Status::Stopped;
            self.bridge.finished.push(search);
            self.active = None;
            assert_eq!(self.session.advance(), Action::Receive);
            return true;
        }
        let queued = match self.bridge.queue.pop_front() {
            Some(queued) => queued,
            None => return false,
        };
        match self.session.receive(Some(queued.text)) {
            Action::Execute => {}
            Action::StopListener => {
                assert_eq!(self.session.advance(), Action::ClearSink);
                assert_eq!(self.session.advance(), Action::Exit);
                self.left = true;
                return true;
            }
            other => panic!("unexpected action {:?}", other),
        }
        let order = self.session.order.as_ref().unwrap();
        if let Notice::Line(line) = &order.notice {
            self.bridge.printed.push(line.clone());
        }
        if order.verb == Verb::Go {
            let search = queued.search_lifecycle.unwrap();
            self.active = Some((search, order.args.first().map(String::as_str) == Some("depth")));
            self.bridge.status = Status::Running;
            self.bridge.acknowledge_start(search);
        } else {
            assert_eq!(self.session.advance(), Action::Receive);
        }
        true
    }
}

#[test]
fn infinite_search_stops_and_reaches_ready_barrier() {
    let mut engine = Engine::new();
    engine.send("isready");
    engine.settle();
    assert_eq!(engine.bridge.printed, vec!["readyok"]);
    let old_search_start = engine.bridge.printed.len();

    engine.send("position startpos");
    engine.send("go infinite");
    engine.send("stop");
    engine.send("isready");
    engine.settle();
    engine.send("ucinewgame");
    engine.send("isready");
    engine.settle();
    engine.send("position startpos");
    engine.send("go depth 1");
    engine.settle();

    let ordered = &engine.bridge.printed[old_search_start..];
    assert_eq!(ordered, ["bestmove e2e4", "readyok", "readyok", "bestmove e2e4"]);

    engine.send("quit");
    engine.settle();
    assert!(engine.left);
}

#[test]
fn ready_at_once_during_a_search() {
    let mut engine = Engine::new();
    engine.send("go infinite");
    engine.send("isready");
    engine.send("position startpos");
    engine.send("go depth 9");
    engine.settle();
    // The search goes on: isready was answered, and the other commands were dropped.
    assert_eq!(engine.bridge.printed, vec!["readyok"]);
    assert!(engine.bridge.queue.is_empty());
    assert!(engine.active.is_some());
    engine.send("quit");
    engine.settle();
    assert_eq!(engine.bridge.printed, vec!["readyok", "bestmove e2e4"]);
    assert!(engine.left);
}

#[test]
fn a_go_behind_a_stop_is_queued() {
    let mut bridge = Bridge::new();
    bridge.host("go infinite");
    bridge.acknowledge_start(1);
    bridge.host("stop");
    assert!(bridge.listener.stop_requested);
    assert_eq!(bridge.host("go depth 4"), ListenerAction::Launch);
    assert_eq!(bridge.listener.phase, Phase::AwaitingStart);
    bridge.acknowledge_start(2);
    assert!(!bridge.listener.stop_requested);
    assert_eq!(bridge.host("d"), ListenerAction::Ignore);
}

#[test]
fn idle_commands_are_queued_in_order() {
    let mut bridge = Bridge::new();
    for line in ["setoption name Hash value 8", "isready", " ", "nonsense"] {
        assert_eq!(bridge.host(line), ListenerAction::Forward);
    }
    let texts: Vec<String> = bridge.queue.into_iter().map(|m| m.text).collect();
    assert_eq!(texts, vec!["setoption name Hash value 8", "isready", " ", "nonsense"]);
}

#[test]
fn stop_without_a_search_is_not_remembered() {
    let mut bridge = Bridge::new();
    assert_eq!(bridge.host("  stop "), ListenerAction::Stop);
    assert!(!bridge.listener.stop_requested);
    assert!(bridge.can_receive());
}

#[test]
fn a_closed_channel_is_quit() {
    let mut by_channel = ChannelListener::new();
    let mut by_command = ChannelListener::new();
    assert_eq!(by_channel.step(ListenerEvent::Disconnected), ListenerAction::Quit);
    assert_eq!(by_command.step(ListenerEvent::Message("quit", false)), ListenerAction::Quit);
    assert_eq!(by_channel, by_command);
}

#[test]
fn the_listener_ends_when_told_or_alone() {
    let mut l = ChannelListener::new();
    assert_eq!(l.step(ListenerEvent::Timeout), ListenerAction::Receive);
    assert_eq!(l.step(ListenerEvent::Shutdown), ListenerAction::Leave);
    assert_eq!(l.phase, Phase::Closed);

    let mut l = ChannelListener::new();
    assert_eq!(l.step(ListenerEvent::Message("d", false)), ListenerAction::Forward);
    assert_eq!(l.step(ListenerEvent::Sent(false)), ListenerAction::Leave);

    let mut l = ChannelListener::new();
    assert_eq!(l.step(ListenerEvent::Message("go", false)), ListenerAction::Launch);
    assert_eq!(l.step(ListenerEvent::Sent(true)), ListenerAction::AwaitStart);
    assert_eq!(l.step(ListenerEvent::StartTimeout(false)), ListenerAction::AwaitStart);
    assert_eq!(l.step(ListenerEvent::StartTimeout(true)), ListenerAction::Leave);

    let mut l = ChannelListener::new();
    l.step(ListenerEvent::Message("go", false));
    l.step(ListenerEvent::Sent(true));
    assert_eq!(l.step(ListenerEvent::StartLost), ListenerAction::Leave);
    assert_eq!(l.phase, Phase::Closed);
}

#[test]
fn lines_of_standard_input() {
    assert_eq!(on_stdin_line("isready\n", true), StdinAction::Ready);
    assert_eq!(on_stdin_line("isready\r\n", false), StdinAction::Ready);
    assert_eq!(on_stdin_line("stop\n", true), StdinAction::Stop);
    assert_eq!(on_stdin_line("quit", true), StdinAction::Quit);
    assert_eq!(on_stdin_line("position startpos\n", true), StdinAction::Ignore);
    assert_eq!(on_stdin_line("position startpos\n", false), StdinAction::Forward);
    assert_eq!(on_stdin_line(" isready\n", true), StdinAction::Ignore);
    assert_eq!(on_stdin_line(" isready\n", false), StdinAction::Forward);
    assert_eq!(on_stdin_line("", false), StdinAction::Forward);
    assert!(on_stdin_end(false));
    assert!(!on_stdin_end(true));
}

#[test]
fn control_lines_are_commands() {
    for (line, action, command) in [
        ("isready \r\n", StdinAction::Ready, Verb::IsReady),
        ("stop\n", StdinAction::Stop, Verb::Stop),
        ("quit\t\n", StdinAction::Quit, Verb::Quit),
    ] {
        assert_eq!(on_stdin_line(line, true), action);
        assert_eq!(verb(&split_whitespace(line)), command);
    }
}

#[test]
fn the_queue_keeps_the_order_of_the_host() {
    let mut bridge = Bridge::new();
    bridge.host("position startpos");
    bridge.host("go infinite");
    bridge.acknowledge_start(1);
    bridge.host("d");
    bridge.host("isready");
    bridge.host("stop");
    bridge.host("ucinewgame");
    bridge.host("isready");
    bridge.host(" quit ");
    let queued: Vec<(String, bool)> =
        bridge.queue.into_iter().map(|m| (m.text, m.search_lifecycle.is_some())).collect();
    let expected = [
        ("position startpos", false),
        ("go infinite", true),
        ("ucinewgame", false),
        ("isready", false),
        ("quit", false),
    ];
    assert_eq!(queued, expected.map(|(text, followed)| (text.to_string(), followed)).to_vec());
    assert_eq!(bridge.listener.phase, Phase::Closed);
}

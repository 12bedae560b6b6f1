use std::cell::RefCell;
use std::collections::VecDeque;
use std::rc::Rc;

use reckless::command::{verb, Mode, Verb};
use reckless::notice::Notice;
use reckless::options::Features;
use reckless::session::{Action, Session, Source, Stage};
use reckless::limits::Color;
use reckless::uci::{
    compiler, eval, message_loop, message_loop_with_channel, reset, uci, Identity, ResetStep,
};
use reckless::{run, run_io, set_output_sink, OutputSink, _uci_emit};

fn commands(lines: &[&str]) -> VecDeque<String> {
    lines.iter().map(|l| l.to_string()).collect()
}

fn text(session: &Session) -> String {
    session.order.as_ref().unwrap().text.clone()
}

#[test]
fn verbs() {
    let cases: [(&[&str], Verb); 24] = [
        (&["uci"], Verb::Uci),
        (&["isready"], Verb::IsReady),
        (&["go"], Verb::Go),
        (&["go", "infinite"], Verb::Go),
        (&["position", "startpos"], Verb::Position),
        (&["setoption", "name", "Hash", "value", "1"], Verb::SetOption),
        (&["ucinewgame"], Verb::UciNewGame),
        (&["stop"], Verb::Stop),
        (&["quit"], Verb::Quit),
        (&["compiler"], Verb::Compiler),
        (&["eval"], Verb::Eval),
        (&["d"], Verb::Display),
        (&["bench"], Verb::Bench),
        (&["bench", "8", "1"], Verb::Bench),
        (&["perft", "6"], Verb::Perft),
        (&["perft"], Verb::PerftUsage),
        (&["perft", "6", "7"], Verb::Unknown),
        (&["stop", "now"], Verb::Unknown),
        (&["quit", "now"], Verb::Unknown),
        (&["uci", "1"], Verb::Unknown),
        (&["UCI"], Verb::Unknown),
        (&["isready", "?"], Verb::Unknown),
        (&["hello"], Verb::Unknown),
        (&[], Verb::Blank),
    ];
    for (words, expected) in cases {
        assert_eq!(verb(words), expected, "{:?}", words);
    }
}

#[test]
fn a_session_on_standard_input() {
    let mut s = run(VecDeque::new());
    assert_eq!(s.source, Source::Stdin);
    assert_eq!(s.mode, Mode::Uci);
    assert_eq!(s.advance(), Action::InitializeLookup);
    assert_eq!(s.advance(), Action::InitializeNetwork);
    assert_eq!(s.advance(), Action::BuildEngine);
    assert_eq!(s.advance(), Action::StartListener);
    assert_eq!(s.advance(), Action::Receive);
    assert_eq!(s.stage, Stage::Wait);
    assert_eq!(s.receive(Some("isready\n".to_string())), Action::Execute);
    let order = s.order.as_ref().unwrap();
    assert_eq!(order.verb, Verb::IsReady);
    assert_eq!(order.notice, Notice::Line("readyok".to_string()));
    assert_eq!(s.advance(), Action::Receive);
    assert_eq!(s.receive(Some("quit".to_string())), Action::Exit);
    assert_eq!(s.advance(), Action::Exit);
}

#[test]
fn a_hosted_session_clears_its_sink() {
    let mut s = run_io(commands(&["uci"]));
    let mut actions = Vec::new();
    for _ in 0..6 {
        actions.push(s.advance());
    }
    assert_eq!(
        actions,
        vec![
            Action::InitializeLookup,
            Action::InitializeNetwork,
            Action::InstallSink,
            Action::BuildEngine,
            Action::StartListener,
            Action::Execute,
        ]
    );
    // The command made the session listen, so it does not leave after its last initial command.
    assert_eq!(s.mode, Mode::Uci);
    assert_eq!(s.order.as_ref().unwrap().mode, Mode::Cli);
    assert_eq!(s.advance(), Action::Receive);
    assert_eq!(s.receive(None), Action::StopListener);
    assert_eq!(s.advance(), Action::ClearSink);
    assert_eq!(s.advance(), Action::Exit);
}

#[test]
fn a_batch_runs_and_leaves() {
    let mut s = message_loop_with_channel(commands(&["position startpos", "", "go depth 3"]));
    assert_eq!(s.mode, Mode::Cli);
    assert_eq!(s.advance(), Action::BuildEngine);
    assert_eq!(s.advance(), Action::StartListener);
    assert_eq!(s.advance(), Action::Execute);
    assert_eq!(text(&s), "position startpos");
    assert_eq!(s.order.as_ref().unwrap().args, vec!["startpos"]);
    assert_eq!(s.advance(), Action::Execute);
    assert_eq!(s.order.as_ref().unwrap().verb, Verb::Blank);
    assert_eq!(s.advance(), Action::Execute);
    assert_eq!(s.order.as_ref().unwrap().args, vec!["depth", "3"]);
    assert_eq!(s.advance(), Action::StopListener);
    assert_eq!(s.advance(), Action::Exit);
}

#[test]
fn quit_leaves_the_rest_of_a_batch() {
    let mut s = message_loop(commands(&["quit", "bench"]));
    s.advance();
    s.advance();
    assert_eq!(s.advance(), Action::Exit);
    assert_eq!(s.buffer, commands(&["bench"]));
}

#[test]
fn initial_commands_come_first() {
    let mut s = message_loop(commands(&["uci", "isready"]));
    s.advance();
    s.advance();
    assert_eq!(s.advance(), Action::Execute);
    assert_eq!(text(&s), "uci");
    assert_eq!(s.advance(), Action::Execute);
    assert_eq!(text(&s), "isready");
    assert_eq!(s.advance(), Action::Receive);
    assert_eq!(s.advance(), Action::Receive);
}

#[test]
fn remarks_on_commands() {
    let mut s = message_loop(commands(&["perft", "go-away  \r\n"]));
    s.advance();
    s.advance();
    s.advance();
    assert_eq!(s.order.as_ref().unwrap().notice, Notice::Diagnostic("Usage: perft <depth>".to_string()));
    s.advance();
    assert_eq!(s.order.as_ref().unwrap().notice, Notice::Diagnostic("Unknown command: 'go-away'".to_string()));
    assert_eq!(s.advance(), Action::Exit);
}

#[test]
fn the_sink_takes_lines_until_it_is_cleared() {
    let seen: Rc<RefCell<Vec<String>>> = Rc::new(RefCell::new(Vec::new()));
    let mut output: OutputSink<Box<dyn Fn(&str)>> = OutputSink::new();
    assert!(!_uci_emit(&output, "uciok"));
    let first = seen.clone();
    set_output_sink(&mut output, Some(Box::new(move |line: &str| first.borrow_mut().push(format!("1 {}", line)))));
    assert!(_uci_emit(&output, "readyok"));
    let second = seen.clone();
    set_output_sink(&mut output, Some(Box::new(move |line: &str| second.borrow_mut().push(format!("2 {}", line)))));
    assert!(_uci_emit(&output, "bestmove e2e4"));
    set_output_sink(&mut output, None);
    assert!(!_uci_emit(&output, "uciok"));
    assert_eq!(*seen.borrow(), vec!["1 readyok", "2 bestmove e2e4"]);
}

#[test]
fn reply_to_uci() {
    let id = Identity {
        version: "0.9.0".to_string(),
        default_hash: 16,
        max_threads: 512,
        max_moves: 256,
        tunables: vec!["option name lmr type string".to_string()],
    };
    let plain = [
        "id name Reckless 0.9.0",
        "id author Arseniy Surkov, Shahin M. Shahin, and Styx",
        "option name Hash type spin default 16 min 1 max 262144",
        "option name Threads type spin default 1 min 1 max 512",
        "option name MoveOverhead type spin default 100 min 0 max 2000",
        "option name Minimal type check default false",
        "option name Clear Hash type button",
        "option name UCI_Chess960 type check default false",
        "option name MultiPV type spin default 1 min 1 max 256",
        "uciok",
    ];
    assert_eq!(uci(&id, Features { syzygy: false, spsa: false }), plain.to_vec());
    let rich = uci(&id, Features { syzygy: true, spsa: true });
    assert_eq!(rich[..9], plain[..9]);
    assert_eq!(
        rich[9..],
        ["option name SyzygyPath type string default", "option name lmr type string", "uciok"]
    );
}

#[test]
fn replies_to_compiler_and_eval() {
    assert_eq!(
        compiler("1.90.0", "x86_64", "avx2"),
        vec!["Compiler Version: 1.90.0", "Compiler Target: x86_64", "Compiler Features: avx2"]
    );
    assert_eq!(eval(Color::White, 35), "35");
    assert_eq!(eval(Color::Black, 35), "-35");
    assert_eq!(eval(Color::Black, -120), "120");
    assert_eq!(eval(Color::White, i32::MIN), "-2147483648");
}

/// What a session carries out on these initial and received commands.
fn carried_out(initial: &[&str], received: &[&str]) -> Vec<(String, Mode)> {
    let mut s = message_loop_with_channel(commands(initial));
    let mut left: VecDeque<String> = commands(received);
    let mut seen = Vec::new();
    let mut action = s.advance();
    loop {
        action = match action {
            Action::Execute => {
                let order = s.order.as_ref().unwrap();
                seen.push((order.text.clone(), order.mode));
                s.advance()
            }
            Action::Receive => s.receive(left.pop_front()),
            Action::Exit => return seen,
            _ => s.advance(),
        };
    }
}

#[test]
fn initial_commands_are_like_received_ones() {
    let all = carried_out(&["uci"], &["isready", "position startpos", "go depth 1", "d"]);
    assert_eq!(all.len(), 5);
    assert_eq!(carried_out(&["uci", "isready", "position startpos"], &["go depth 1", "d"]), all);
    assert_eq!(carried_out(&["uci", "isready", "position startpos", "go depth 1", "d"], &[]), all);
    let cut = carried_out(&["uci"], &["isready", "quit", "d"]);
    assert_eq!(cut.len(), 2);
    assert_eq!(carried_out(&["uci", "isready", "quit"], &["d"]), cut);
}

#[test]
fn initial_commands_without_uci_leave_the_channel_alone() {
    assert_eq!(carried_out(&["isready"], &["d"]), vec![("isready".to_string(), Mode::Cli)]);
}

#[test]
fn a_new_game_clears_every_replica() {
    assert_eq!(reset(0), vec![ResetStep::Threads, ResetStep::Table]);
    assert_eq!(
        reset(2),
        vec![
            ResetStep::Threads,
            ResetStep::Table,
            ResetStep::Pawn(0),
            ResetStep::Minor(0),
            ResetStep::NonPawn(0, Color::White),
            ResetStep::NonPawn(0, Color::Black),
            ResetStep::Pawn(1),
            ResetStep::Minor(1),
            ResetStep::NonPawn(1, Color::White),
            ResetStep::NonPawn(1, Color::Black),
        ]
    );
}

#[test]
fn the_host_gets_every_line() {
    let stale = Rc::new(RefCell::new(Vec::<String>::new()));
    let seen = Rc::new(RefCell::new(Vec::<String>::new()));
    let (old, host) = (stale.clone(), seen.clone());
    let mut output: OutputSink<Box<dyn Fn(&str)>> = OutputSink::new();
    set_output_sink(&mut output, Some(Box::new(move |line: &str| old.borrow_mut().push(line.to_string()))));
    let mut out: Option<Box<dyn Fn(&str)>> =
        Some(Box::new(move |line: &str| host.borrow_mut().push(line.to_string())));

    let mut s = run_io(commands(&["isready", "isready"]));
    let mut action = s.advance();
    while action != Action::Exit {
        match action {
            Action::InstallSink => set_output_sink(&mut output, out.take()),
            Action::ClearSink => set_output_sink(&mut output, None),
            Action::BuildEngine | Action::StartListener | Action::StopListener => {
                assert!(_uci_emit(&output, "info string at work"));
            }
            Action::Execute => match &s.order.as_ref().unwrap().notice {
                Notice::Line(line) => {
                    assert!(!line.contains('\n'));
                    assert!(_uci_emit(&output, line));
                }
                other => panic!("unexpected notice {:?}", other),
            },
            _ => {}
        }
        action = s.advance();
    }
    let work = "info string at work";
    assert_eq!(*seen.borrow(), vec![work, work, "readyok", "readyok", work]);
    assert!(stale.borrow().is_empty());
    assert!(!_uci_emit(&output, "readyok"));
}

use reckless::limits::{Color, Limits};
use reckless::options::Settings;
use reckless::search::{GoAction, GoRun, GoStage};
use reckless::vote::{Outcome, RootResult};

const UNSCORED: i32 = -32000;

fn root(mv: u32, score: i32, completed_depth: i32) -> Option<RootResult> {
    let win = score >= 30000;
    let loss = score <= -30000;
    Some(RootResult { mv, score, completed_depth, win, loss, decisive: win || loss })
}

/// Plays a whole `go` and writes down what it asks for. The status is set by the launch.
fn play(followed: bool, roots: Vec<Option<RootResult>>, moves: &[&str]) -> (Vec<GoAction>, Vec<String>, GoRun) {
    let mut run = GoRun::new(&Settings::default(), Color::White, &["movetime", "50"], followed);
    let mut actions = Vec::new();
    let mut printed = Vec::new();
    let mut running = false;
    let mut action = run.advance();
    loop {
        actions.push(action);
        action = match action {
            GoAction::Launch => {
                running = true;
                run.running()
            }
            GoAction::AcknowledgeStart => {
                assert!(running);
                run.advance()
            }
            GoAction::Search => run.ended(&roots, UNSCORED),
            GoAction::Report => {
                printed.push(format!("info depth {}", run.depth));
                run.advance()
            }
            GoAction::Name => match run.outcome {
                Some(Outcome::Play { thread, .. }) => run.named(moves[thread]),
                _ => panic!("there is no move to name"),
            },
            GoAction::Print => {
                printed.push(run.line.clone().unwrap());
                run.advance()
            }
            GoAction::PrintCounters | GoAction::AcknowledgeEnd => run.advance(),
            GoAction::Return => return (actions, printed, run),
        };
    }
}

#[test]
fn a_plain_go() {
    let (actions, printed, run) = play(false, vec![root(1, 20, 10)], &["e2e4"]);
    assert_eq!(
        actions,
        vec![
            GoAction::Launch,
            GoAction::Search,
            GoAction::Name,
            GoAction::Print,
            GoAction::PrintCounters,
            GoAction::Return,
        ]
    );
    assert_eq!(printed, vec!["bestmove e2e4"]);
    assert_eq!(run.plan.limits, Limits::Time(50));
    assert_eq!(run.stage, GoStage::Over);
}

#[test]
fn a_followed_go_acknowledges_its_start_and_its_end() {
    let (actions, printed, _) = play(true, vec![root(1, 20, 10)], &["e2e4"]);
    assert_eq!(
        actions,
        vec![
            GoAction::Launch,
            GoAction::AcknowledgeStart,
            GoAction::Search,
            GoAction::Name,
            GoAction::Print,
            GoAction::PrintCounters,
            GoAction::AcknowledgeEnd,
            GoAction::Return,
        ]
    );
    assert_eq!(printed, vec!["bestmove e2e4"]);
}

#[test]
fn a_go_without_moves_acknowledges_its_end_too() {
    let (actions, printed, run) = play(true, vec![None, None], &[]);
    assert_eq!(
        actions,
        vec![
            GoAction::Launch,
            GoAction::AcknowledgeStart,
            GoAction::Search,
            GoAction::Print,
            GoAction::PrintCounters,
            GoAction::AcknowledgeEnd,
            GoAction::Return,
        ]
    );
    assert_eq!(printed, vec!["bestmove (none)"]);
    assert_eq!(run.outcome, Some(Outcome::NoMove));
}

#[test]
fn another_thread_is_reported_right_before_its_move() {
    let (actions, printed, run) = play(false, vec![root(1, 10, 5), root(2, 30, 9)], &["e2e4", "d2d4"]);
    assert_eq!(
        actions,
        vec![
            GoAction::Launch,
            GoAction::Search,
            GoAction::Report,
            GoAction::Name,
            GoAction::Print,
            GoAction::PrintCounters,
            GoAction::Return,
        ]
    );
    assert_eq!(printed, vec!["info depth 9", "bestmove d2d4"]);
    assert_eq!(run.outcome, Some(Outcome::Play { thread: 1, report: true }));
}

#[test]
fn a_go_that_is_broken_off_acknowledges_its_end_once() {
    let settings = Settings::default();
    let mut run = GoRun::new(&settings, Color::White, &["infinite"], true);
    run.advance();
    run.running();
    assert_eq!(run.stage, GoStage::Started);
    assert_eq!(run.break_off(), GoAction::AcknowledgeEnd);
    assert_eq!(run.break_off(), GoAction::Return);

    let (_, _, mut done) = play(true, vec![root(1, 20, 10)], &["e2e4"]);
    assert_eq!(done.break_off(), GoAction::Return);

    let mut alone = GoRun::new(&settings, Color::White, &["infinite"], false);
    alone.advance();
    assert_eq!(alone.break_off(), GoAction::Return);
}

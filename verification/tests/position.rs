use reckless::options::Settings;
use reckless::position::{make_uci_move, PositionStep};

fn position(tokens: &[&str]) -> Vec<PositionStep<String>> {
    reckless::position::position(&Settings::default(), tokens)
}

fn fen(record: &str) -> PositionStep<String> {
    PositionStep::Fen(record.to_string(), false)
}

fn play(mv: &str) -> PositionStep<String> {
    PositionStep::Move(mv.to_string())
}

#[test]
fn starting_position_and_moves() {
    assert_eq!(position(&["startpos"]), vec![PositionStep::StartPos]);
    assert_eq!(
        position(&["startpos", "moves", "e2e4", "e7e5"]),
        vec![PositionStep::StartPos, play("e2e4"), play("e7e5")]
    );
}

#[test]
fn record_and_moves() {
    let tokens = ["fen", "8/8/8/8/8/8/8/8", "w", "-", "-", "0", "1", "moves", "a1a2"];
    assert_eq!(position(&tokens), vec![fen("8/8/8/8/8/8/8/8 w - - 0 1 moves a1a2"), play("a1a2")]);
}

#[test]
fn later_keywords_are_seen() {
    assert_eq!(position(&["fen", "x", "startpos"]), vec![fen("x startpos"), PositionStep::StartPos]);
    assert_eq!(position(&["fen"]), vec![fen("")]);
}

#[test]
fn everything_behind_moves_is_a_move() {
    assert_eq!(position(&["moves", "startpos", "fen"]), vec![play("startpos"), play("fen")]);
}

#[test]
fn other_words_are_passed_over() {
    assert_eq!(position(&["please", "startpos", "now"]), vec![PositionStep::StartPos]);
    assert_eq!(position(&[]), Vec::new());
}

#[test]
fn the_first_move_written_the_same_is_played() {
    let legal: Vec<String> = ["e2e4", "d2d4", "e7e8q", "d2d4"].iter().map(|m| m.to_string()).collect();
    assert_eq!(make_uci_move(&legal, "d2d4"), Some(1));
    assert_eq!(make_uci_move(&legal, "e7e8q"), Some(2));
    assert_eq!(make_uci_move(&legal, "e7e8"), None);
    assert_eq!(make_uci_move(&Vec::new(), "e2e4"), None);
}

#[test]
fn records_follow_the_setting() {
    let settings = Settings { frc: true, ..Settings::default() };
    assert_eq!(
        reckless::position::position(&settings, &["fen", "x"]),
        vec![PositionStep::Fen("x".to_string(), true)]
    );
}

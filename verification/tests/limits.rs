use reckless::limits::{parse_limits, Color, Limits};
use reckless::options::{Report, Settings};
use reckless::search::{search_plan, SearchPlan};

fn white(tokens: &[&str]) -> Limits {
    parse_limits(Color::White, tokens)
}

#[test]
fn unbounded_searches() {
    assert_eq!(white(&["infinite"]), Limits::Infinite);
    assert_eq!(white(&[]), Limits::Infinite);
    assert_eq!(white(&["ponder"]), Limits::Infinite);
    assert_eq!(white(&["movestogo", "40"]), Limits::Infinite);
    assert_eq!(white(&["btime", "1000", "binc", "10"]), Limits::Infinite);
}

#[test]
fn fixed_limits() {
    assert_eq!(white(&["depth", "12"]), Limits::Depth(12));
    assert_eq!(white(&["movetime", "250"]), Limits::Time(250));
    assert_eq!(white(&["nodes", "100000"]), Limits::Nodes(100000));
    assert_eq!(white(&["wtime", "1000", "depth", "3", "nodes", "9"]), Limits::Depth(3));
}

#[test]
fn fixed_limits_are_above_zero() {
    assert_eq!(white(&["depth", "0"]), Limits::Infinite);
    assert_eq!(white(&["depth", "-4", "nodes", "7"]), Limits::Nodes(7));
    assert_eq!(white(&["movetime", "0", "wtime", "5"]), Limits::Fischer(5, 0));
}

#[test]
fn values_that_are_no_numbers_are_passed_over() {
    assert_eq!(white(&["depth", "ten", "wtime", "60000", "winc", "x"]), Limits::Fischer(60000, 0));
    assert_eq!(white(&["depth", "2147483648"]), Limits::Infinite);
    assert_eq!(white(&["depth", "+8"]), Limits::Depth(8));
}

#[test]
fn clocks() {
    let both = ["wtime", "60000", "btime", "50000", "winc", "600", "binc", "500"];
    assert_eq!(parse_limits(Color::White, &both), Limits::Fischer(60000, 600));
    assert_eq!(parse_limits(Color::Black, &both), Limits::Fischer(50000, 500));
    assert_eq!(white(&["winc", "600"]), Limits::Fischer(0, 600));
    assert_eq!(white(&["wtime", "-5"]), Limits::Fischer(0, 0));
    assert_eq!(white(&["wtime", "1", "wtime", "2"]), Limits::Fischer(2, 0));
    assert_eq!(white(&["wtime", "60000", "winc"]), Limits::Fischer(60000, 0));
}

#[test]
fn time_controls() {
    assert_eq!(white(&["wtime", "60000", "winc", "0", "movestogo", "40"]), Limits::Cyclic(60000, 0, 40));
    assert_eq!(white(&["movestogo", "-1", "wtime", "1"]), Limits::Cyclic(1, 0, u64::MAX));
}

#[test]
fn opponent_clock_is_ignored() {
    let one = ["wtime", "1000", "btime", "1", "binc", "2"];
    let other = ["wtime", "1000", "btime", "999999", "binc", "never"];
    assert_eq!(white(&one), white(&other));
    assert_eq!(white(&one), Limits::Fischer(1000, 0));
}

#[test]
fn an_odd_name_shifts_the_pairs() {
    assert_eq!(white(&["infinite", "depth", "5"]), Limits::Infinite);
}

#[test]
fn a_plan_follows_the_settings() {
    let settings = Settings { frc: false, multi_pv: 3, move_overhead: 40, report: Report::Minimal };
    assert_eq!(
        search_plan(&settings, Color::Black, &["btime", "9000"]),
        SearchPlan { limits: Limits::Fischer(9000, 0), move_overhead: 40, multi_pv: 3, report: Report::Minimal }
    );
}

#[test]
fn the_sides_are_treated_alike() {
    let one = ["wtime", "60000", "btime", "50000", "winc", "600", "binc", "500", "movestogo", "wtime"];
    let other = ["btime", "60000", "wtime", "50000", "binc", "600", "winc", "500", "movestogo", "wtime"];
    assert_eq!(parse_limits(Color::White, &one), Limits::Fischer(60000, 600));
    assert_eq!(parse_limits(Color::Black, &other), Limits::Fischer(60000, 600));
    assert_eq!(parse_limits(Color::Black, &one), parse_limits(Color::White, &other));
}

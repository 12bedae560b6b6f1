use reckless::limits::Limits;
use reckless::vote::{accepts, bestmove, go, Outcome, RootResult};

const UNSCORED: i32 = -32000;

fn root(mv: u32, score: i32, completed_depth: i32) -> Option<RootResult> {
    let win = score >= 30000;
    let loss = score <= -30000;
    Some(RootResult { mv, score, completed_depth, win, loss, decisive: win || loss })
}

fn thread_of(roots: &Vec<Option<RootResult>>) -> usize {
    assert!(accepts(roots));
    match go(roots, Limits::Infinite, 1, UNSCORED) {
        Outcome::Play { thread, report } => {
            assert_eq!(report, thread != 0);
            thread
        }
        Outcome::NoMove => panic!("a move was expected"),
    }
}

#[test]
fn no_legal_move() {
    assert_eq!(go(&vec![None, None], Limits::Infinite, 1, UNSCORED), Outcome::NoMove);
    assert_eq!(bestmove(None), "bestmove (none)");
    assert_eq!(bestmove(Some("e2e4")), "bestmove e2e4");
}

#[test]
fn a_lone_thread_is_chosen() {
    assert_eq!(thread_of(&vec![root(1, 20, 10)]), 0);
}

#[test]
fn the_move_with_most_support_is_played() {
    // Weights: (20 - 10 + 10) * 10 = 200, (15 - 10 + 10) * 8 = 120, (10 - 10 + 10) * 9 = 90.
    assert_eq!(thread_of(&vec![root(1, 20, 10), root(2, 15, 8), root(2, 10, 9)]), 1);
    assert_eq!(thread_of(&vec![root(1, 20, 10), root(2, 15, 8), root(3, 10, 9)]), 0);
}

#[test]
fn equal_support_goes_by_weight_and_then_by_order() {
    // Both moves the same: the heavier vote is preferred.
    assert_eq!(thread_of(&vec![root(1, 10, 5), root(1, 30, 5)]), 1);
    assert_eq!(thread_of(&vec![root(1, 10, 5), root(1, 10, 5)]), 0);
}

#[test]
fn fixed_depth_and_several_variations_are_left_to_the_main_thread() {
    let roots = vec![root(1, 10, 5), root(2, 30, 9)];
    assert_eq!(thread_of(&roots), 1);
    assert_eq!(go(&roots, Limits::Depth(9), 1, UNSCORED), Outcome::Play { thread: 0, report: false });
    assert_eq!(go(&roots, Limits::Infinite, 2, UNSCORED), Outcome::Play { thread: 0, report: false });
    assert_eq!(go(&roots, Limits::Time(9), 1, UNSCORED), Outcome::Play { thread: 1, report: true });
}

#[test]
fn decided_scores_take_precedence() {
    assert_eq!(thread_of(&vec![root(1, 31000, 5), root(2, 30500, 9), root(3, 31500, 1)]), 2);
    assert_eq!(thread_of(&vec![root(1, 100, 20), root(2, 30500, 1)]), 1);
    assert_eq!(thread_of(&vec![root(1, 100, 20), root(2, -30500, 1)]), 1);
    assert_eq!(thread_of(&vec![root(1, -30100, 5), root(2, -30500, 5)]), 1);
    assert_eq!(thread_of(&vec![root(1, -30100, 5), root(2, 0, 50)]), 0);
}

#[test]
fn moves_that_were_not_searched() {
    // The main thread has no score: a decided score of another still counts.
    assert_eq!(thread_of(&vec![root(1, UNSCORED, 1), root(2, -31000, 1)]), 1);
    assert_eq!(thread_of(&vec![root(1, 5, 4), root(2, UNSCORED, 9)]), 0);
}

#[test]
fn results_that_cannot_be_counted() {
    assert!(!accepts(&vec![]));
    assert!(!accepts(&vec![root(1, 0, 1), None]));
    assert!(accepts(&vec![None, root(1, 0, 1)]));
    assert!(!accepts(&vec![root(1, i32::MIN, 1), root(1, i32::MAX, 1)]));
    assert!(!accepts(&vec![root(1, 0, 1), root(1, 1_000_000, 1_000_000)]));
    assert!(!accepts(&vec![root(1, 0, 200_000_000), root(1, 0, 200_000_000)]));
    assert!(accepts(&vec![root(1, 0, 200_000_000), root(2, 0, 200_000_000)]));
}

#[test]
fn the_lowest_searched_loss_is_played() {
    assert_eq!(thread_of(&vec![root(1, -30100, 5), root(2, -30700, 5), root(3, -30400, 5)]), 1);
    assert_eq!(thread_of(&vec![root(1, -30100, 5), root(2, UNSCORED, 50), root(3, -30400, 5)]), 2);
}

#[test]
fn ties_go_to_the_first_thread() {
    assert_eq!(thread_of(&vec![root(1, 30500, 1), root(2, 31000, 5), root(3, 31000, 9)]), 1);
    assert_eq!(thread_of(&vec![root(1, -30500, 1), root(2, -31000, 5), root(3, -31000, 9)]), 1);
    assert_eq!(thread_of(&vec![root(1, 10, 1), root(2, 10, 5), root(3, 10, 5)]), 1);
}

#[test]
fn a_decided_score_of_any_thread_is_played() {
    assert_eq!(thread_of(&vec![root(1, 100, 20), root(2, 90, 30), root(3, -30500, 1), root(2, 95, 40)]), 2);
    assert_eq!(thread_of(&vec![root(1, UNSCORED, 1), root(2, 90, 30), root(3, 30500, 1), root(2, 95, 40)]), 2);
    // The first decided score may itself give way to a better win or a lower loss, and to nothing else.
    assert_eq!(thread_of(&vec![root(1, 0, 9), root(2, 30500, 1), root(3, -30500, 9), root(4, 30600, 1)]), 3);
    assert_eq!(thread_of(&vec![root(1, 0, 9), root(2, -30500, 1), root(3, 30500, 9), root(4, -30600, 1)]), 3);
}

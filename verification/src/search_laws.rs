//! What holds of every `go`, however its search ends.

use vstd::prelude::*;

use crate::search::{
    awaits, go_advance, go_begin, go_broken_off, go_ended, go_named, go_running, GoAction, GoRun,
    GoStage, GoView, SearchPlan,
};
use crate::vote::{
    bestmove_line, is_countable, law_outcome_names_a_thread, outcome_of, Outcome, RootResult,
};

verus! {

/// Whether a `go` may get from `a` to `b` by asking for `action`.
pub open spec fn go_step(a: GoView, b: GoView, action: GoAction) -> bool {
    ||| !awaits(a.stage) && (b, action) == go_advance(a)
    ||| a.stage == GoStage::Launching && (b, action) == go_running(a)
    ||| a.stage == GoStage::Searching && exists|roots: Seq<Option<RootResult>>, unscored: i32|
        is_countable(roots) && roots.len() <= usize::MAX && (b, action) == #[trigger] go_ended(
            a,
            roots,
            unscored,
        )
    ||| a.stage == GoStage::Naming && exists|mv: Seq<char>| (b, action) == #[trigger] go_named(a, mv)
}

/// Whether `states` are the states that a `go` goes through with these `actions`, from its begin on.
pub open spec fn is_go_run(
    plan: SearchPlan,
    followed: bool,
    states: Seq<GoView>,
    actions: Seq<GoAction>,
) -> bool {
    &&& states.len() == actions.len() + 1
    &&& states[0] == go_begin(plan, followed)
    &&& forall|i: int|
        0 <= i < actions.len() ==> #[trigger] go_step(states[i], states[i + 1], actions[i])
    &&& forall|i: int| 0 <= i < actions.len() - 1 ==> #[trigger] actions[i] != GoAction::Return
}

/// Whether `states` are the states that a `go` goes through with these `actions`, from its begin to
/// its return.
pub open spec fn is_complete_go(
    plan: SearchPlan,
    followed: bool,
    states: Seq<GoView>,
    actions: Seq<GoAction>,
) -> bool {
    &&& is_go_run(plan, followed, states, actions)
    &&& actions.len() > 0
    &&& actions.last() == GoAction::Return
}

/// `action`, if the condition holds.
pub open spec fn if_so(condition: bool, action: GoAction) -> Seq<GoAction> {
    if condition {
        seq![action]
    } else {
        seq![]
    }
}

/// What was done up to the wait for results.
pub open spec fn launch_actions(followed: bool) -> Seq<GoAction> {
    seq![GoAction::Launch] + if_so(followed, GoAction::AcknowledgeStart) + seq![GoAction::Search]
}

/// What is done with an outcome, up to its line.
pub open spec fn closing_actions(outcome: Outcome) -> Seq<GoAction> {
    match outcome {
        Outcome::NoMove => seq![GoAction::Print],
        Outcome::Play { report, .. } => if_so(report, GoAction::Report) + seq![
            GoAction::Name,
            GoAction::Print,
        ],
    }
}

/// All actions of a `go` that ends with this outcome.
pub open spec fn all_actions(followed: bool, outcome: Outcome) -> Seq<GoAction> {
    launch_actions(followed) + closing_actions(outcome) + seq![GoAction::PrintCounters] + if_so(
        followed,
        GoAction::AcknowledgeEnd,
    ) + seq![GoAction::Return]
}

/// What a `go` in this state has done.
spec fn done_by(g: GoView) -> Seq<GoAction> {
    let printed = launch_actions(g.followed) + closing_actions(g.outcome->0);
    match g.stage {
        GoStage::Ready => seq![],
        GoStage::Launching => seq![GoAction::Launch],
        GoStage::Started => seq![GoAction::Launch, GoAction::AcknowledgeStart],
        GoStage::Searching => launch_actions(g.followed),
        GoStage::Reported => launch_actions(g.followed).push(GoAction::Report),
        GoStage::Naming => printed.drop_last(),
        GoStage::Printed => printed,
        GoStage::Counted => printed.push(GoAction::PrintCounters),
        GoStage::Ended => printed.push(GoAction::PrintCounters).push(GoAction::AcknowledgeEnd),
        GoStage::Over => all_actions(g.followed, g.outcome->0),
    }
}

/// What the stage of a `go` says of the rest.
spec fn is_sound(g: GoView) -> bool {
    &&& g.stage == GoStage::Started || g.stage == GoStage::Ended ==> g.followed
    &&& g.stage == GoStage::Reported ==> (g.outcome matches Some(Outcome::Play { report, .. })
        && report)
    &&& g.stage == GoStage::Naming ==> (g.outcome matches Some(Outcome::Play { .. }))
    &&& g.stage == GoStage::Printed || g.stage == GoStage::Counted || g.stage == GoStage::Ended
        || g.stage == GoStage::Over ==> g.outcome is Some && g.line is Some
}

proof fn step_adds_its_action(a: GoView, b: GoView, action: GoAction)
    requires
        is_sound(a),
        a.stage != GoStage::Over,
        go_step(a, b, action),
    ensures
        is_sound(b),
        b.followed == a.followed,
        b.plan == a.plan,
        done_by(b) == done_by(a).push(action),
        action == GoAction::Return <==> b.stage == GoStage::Over,
{
    assert(done_by(b) =~= done_by(a).push(action));
}

proof fn run_adds_up(
    plan: SearchPlan,
    followed: bool,
    states: Seq<GoView>,
    actions: Seq<GoAction>,
    n: int,
)
    requires
        is_go_run(plan, followed, states, actions),
        0 <= n <= actions.len(),
    ensures
        is_sound(states[n]),
        states[n].followed == followed,
        states[n].plan == plan,
        done_by(states[n]) == actions.take(n),
        states[n].stage == GoStage::Over <==> n > 0 && actions[n - 1] == GoAction::Return,
    decreases n,
{
    if n > 0 {
        run_adds_up(plan, followed, states, actions, n - 1);
        assert(go_step(states[n - 1], states[n - 1 + 1], actions[n - 1]));
        step_adds_its_action(states[n - 1], states[n], actions[n - 1]);
        assert(actions.take(n) =~= actions.take(n - 1).push(actions[n - 1]));
    } else {
        assert(done_by(states[0]) =~= actions.take(0));
    }
}

/// What a `go` does, and in which order, follows from its outcome and from whether it is followed.
pub proof fn law_course_of_a_go(
    plan: SearchPlan,
    followed: bool,
    states: Seq<GoView>,
    actions: Seq<GoAction>,
)
    requires
        is_complete_go(plan, followed, states, actions),
    ensures
        states.last().outcome is Some,
        actions == all_actions(followed, states.last().outcome->0),
{
    run_adds_up(plan, followed, states, actions, actions.len() as int);
    assert(actions.take(actions.len() as int) =~= actions);
}

/// Whether the action makes a protocol line come out.
pub open spec fn prints(action: GoAction) -> bool {
    action == GoAction::Report || action == GoAction::Print
}

/// Every `go` prints one `bestmove` line, and no protocol line after it. The line names the move
/// that was written for the chosen thread, or says that there is none. The result of the chosen
/// thread is reported right before it if that is not the main thread, and not at all otherwise.
pub proof fn law_one_bestmove_comes_last(
    plan: SearchPlan,
    followed: bool,
    states: Seq<GoView>,
    actions: Seq<GoAction>,
) -> (p: int)
    requires
        is_complete_go(plan, followed, states, actions),
    ensures
        0 <= p < actions.len(),
        actions[p] == GoAction::Print,
        forall|i: int| 0 <= i < actions.len() && #[trigger] actions[i] == GoAction::Print ==> i == p,
        forall|i: int| p < i < actions.len() ==> !prints(#[trigger] actions[i]),
        match states[p + 1].outcome {
            Some(Outcome::NoMove) => {
                &&& states[p + 1].line == Some(bestmove_line(None))
                &&& forall|i: int|
                    0 <= i < actions.len() ==> #[trigger] actions[i] != GoAction::Report
            },
            Some(Outcome::Play { thread, report }) => {
                &&& exists|mv: Seq<char>|
                    (states[p + 1], actions[p]) == #[trigger] go_named(states[p], mv)
                        && states[p + 1].line == Some(bestmove_line(Some(mv)))
                &&& report == (thread != 0)
                &&& forall|i: int|
                    0 <= i < actions.len() ==> (#[trigger] actions[i] == GoAction::Report <==> (
                    report && i == p - 2))
                &&& actions[p - 1] == GoAction::Name
            },
            None => false,
        },
{
    law_course_of_a_go(plan, followed, states, actions);
    let outcome = states.last().outcome->0;
    let p = launch_actions(followed).len() + closing_actions(outcome).len() - 1;
    let all = all_actions(followed, outcome);
    let opening = launch_actions(followed);
    let closing = closing_actions(outcome);
    assert(all[p] == closing.last());
    run_adds_up(plan, followed, states, actions, p);
    run_adds_up(plan, followed, states, actions, p + 1);
    assert(actions[p] == GoAction::Print);
    assert(go_step(states[p], states[p + 1], actions[p]));
    outcome_is_kept(plan, followed, states, actions, p + 1, actions.len() as int);
    outcome_is_of_the_vote(plan, followed, states, actions, p + 1);
    p
}

/// Whether a `go` in this stage has the results of its threads.
spec fn has_results(stage: GoStage) -> bool {
    match stage {
        GoStage::Ready | GoStage::Launching | GoStage::Started | GoStage::Searching => false,
        _ => true,
    }
}

proof fn outcome_is_kept(
    plan: SearchPlan,
    followed: bool,
    states: Seq<GoView>,
    actions: Seq<GoAction>,
    i: int,
    j: int,
)
    requires
        is_complete_go(plan, followed, states, actions),
        0 <= i <= j <= actions.len(),
        has_results(states[i].stage),
    ensures
        states[j].outcome == states[i].outcome,
        has_results(states[j].stage),
    decreases j - i,
{
    if i < j {
        outcome_is_kept(plan, followed, states, actions, i, j - 1);
        assert(go_step(states[j - 1], states[j - 1 + 1], actions[j - 1]));
    }
}

proof fn outcome_is_of_the_vote(
    plan: SearchPlan,
    followed: bool,
    states: Seq<GoView>,
    actions: Seq<GoAction>,
    n: int,
)
    requires
        is_complete_go(plan, followed, states, actions),
        0 <= n <= actions.len(),
    ensures
        states[n].outcome matches Some(Outcome::Play { thread, report }) ==> report == (thread
            != 0),
    decreases n,
{
    if n > 0 {
        outcome_is_of_the_vote(plan, followed, states, actions, n - 1);
        let (a, b, action) = (states[n - 1], states[n - 1 + 1], actions[n - 1]);
        assert(go_step(a, b, action));
        if a.stage == GoStage::Searching {
            let (roots, unscored) = choose|roots: Seq<Option<RootResult>>, unscored: i32|
                is_countable(roots) && roots.len() <= usize::MAX && (b, action)
                    == #[trigger] go_ended(a, roots, unscored);
            law_outcome_names_a_thread(roots, a.plan.limits, a.plan.multi_pv, unscored);
        }
    }
}

/// A `go` that is followed acknowledges its start once, and does so only when it was told that the
/// search status is set to running. It acknowledges its end once, after `bestmove`, whether there
/// was a move or not. A `go` that nobody follows acknowledges nothing.
pub proof fn law_acknowledgements(
    plan: SearchPlan,
    followed: bool,
    states: Seq<GoView>,
    actions: Seq<GoAction>,
    i: int,
    p: int,
)
    requires
        is_complete_go(plan, followed, states, actions),
        0 <= i < actions.len(),
        0 <= p < actions.len(),
        actions[p] == GoAction::Print,
    ensures
        actions[0] == GoAction::Launch,
        actions[i] == GoAction::AcknowledgeStart <==> followed && i == 1,
        actions[i] == GoAction::AcknowledgeStart ==> (states[i + 1], actions[i]) == go_running(
            states[i],
        ),
        actions[i] == GoAction::AcknowledgeEnd <==> followed && i == actions.len() - 2,
        actions[i] == GoAction::AcknowledgeEnd ==> p < i,
        actions.len() >= 3,
{
    law_course_of_a_go(plan, followed, states, actions);
    let outcome = states.last().outcome->0;
    let all = all_actions(followed, outcome);
    let n = launch_actions(followed).len() + closing_actions(outcome).len();
    assert(all[n as int] == GoAction::PrintCounters);
    run_adds_up(plan, followed, states, actions, i);
    assert(go_step(states[i], states[i + 1], actions[i]));
}

/// The outcome of a `go` is that of the vote on the results it was given: if the main thread has a
/// move, the move of a thread is played, and if not, none is.
pub proof fn law_results_decide_the_outcome(
    plan: SearchPlan,
    followed: bool,
    states: Seq<GoView>,
    actions: Seq<GoAction>,
    i: int,
    roots: Seq<Option<RootResult>>,
    unscored: i32,
)
    requires
        is_complete_go(plan, followed, states, actions),
        0 <= i < actions.len(),
        states[i].stage == GoStage::Searching,
        is_countable(roots),
        roots.len() <= usize::MAX,
        (states[i + 1], actions[i]) == go_ended(states[i], roots, unscored),
    ensures
        states.last().outcome == Some(outcome_of(roots, plan.limits, plan.multi_pv, unscored)),
        match states.last().outcome {
            Some(Outcome::NoMove) => roots[0] is None,
            Some(Outcome::Play { thread, .. }) => roots[0] is Some && thread < roots.len(),
            None => false,
        },
{
    run_adds_up(plan, followed, states, actions, i);
    law_outcome_names_a_thread(roots, plan.limits, plan.multi_pv, unscored);
    outcome_is_kept(plan, followed, states, actions, i + 1, actions.len() as int);
}

/// The end of a `go` that is followed is acknowledged once on every way out: wherever the `go` is
/// broken off, the acknowledgement comes then exactly if it has not come before. A `go` that nobody
/// follows acknowledges nothing.
pub proof fn law_end_is_acknowledged_on_every_way_out(
    plan: SearchPlan,
    followed: bool,
    states: Seq<GoView>,
    actions: Seq<GoAction>,
)
    requires
        is_go_run(plan, followed, states, actions),
    ensures
        go_broken_off(states.last()).1 == GoAction::AcknowledgeEnd <==> followed && !actions.contains(
            GoAction::AcknowledgeEnd,
        ),
        forall|i: int, j: int|
            0 <= i < actions.len() && 0 <= j < actions.len() && actions[i]
                == GoAction::AcknowledgeEnd && actions[j] == GoAction::AcknowledgeEnd ==> i == j,
        !followed ==> !actions.contains(GoAction::AcknowledgeEnd),
{
    let n = actions.len() as int;
    run_adds_up(plan, followed, states, actions, n);
    assert(actions.take(n) =~= actions);
    let g = states.last();
    end_is_acknowledged_late(g);
    if g.stage == GoStage::Ended {
        assert(actions[n - 1] == GoAction::AcknowledgeEnd);
        assert forall|i: int| 0 <= i < n - 1 implies #[trigger] actions[i]
            != GoAction::AcknowledgeEnd by {
            assert(actions.drop_last()[i] == actions[i]);
        }
    } else if g.stage == GoStage::Over && followed {
        assert(actions[n - 2] == GoAction::AcknowledgeEnd);
        assert forall|i: int| 0 <= i < n && i != n - 2 implies #[trigger] actions[i]
            != GoAction::AcknowledgeEnd by {
            if i < n - 2 {
                assert(actions.take(n - 2)[i] == actions[i]);
            }
        }
    }
}

/// Whether the end is not acknowledged by any of the actions.
spec fn never_ends(actions: Seq<GoAction>) -> bool {
    forall|i: int| 0 <= i < actions.len() ==> #[trigger] actions[i] != GoAction::AcknowledgeEnd
}

proof fn opening_never_ends(followed: bool, outcome: Outcome)
    ensures
        never_ends(launch_actions(followed)),
        never_ends(closing_actions(outcome)),
        never_ends(launch_actions(followed) + closing_actions(outcome)),
        closing_actions(outcome).len() > 0,
{
    assert(never_ends(if_so(followed, GoAction::AcknowledgeStart)));
    assert(never_ends(launch_actions(followed)));
    if let Outcome::Play { report, .. } = outcome {
        assert(never_ends(if_so(report, GoAction::Report)));
    }
    assert(never_ends(closing_actions(outcome)));
    let both = launch_actions(followed) + closing_actions(outcome);
    assert forall|i: int| 0 <= i < both.len() implies #[trigger] both[i]
        != GoAction::AcknowledgeEnd by {
        let n = launch_actions(followed).len();
        if i < n {
            assert(both[i] == launch_actions(followed)[i]);
        } else {
            assert(both[i] == closing_actions(outcome)[i - n]);
        }
    }
}

/// The place of the end's acknowledgement among what a `go` has done: the last, or the last but the
/// return.
proof fn end_is_acknowledged_late(g: GoView)
    requires
        is_sound(g),
    ensures
        g.stage != GoStage::Ended && !(g.stage == GoStage::Over && g.followed) ==> never_ends(
            done_by(g),
        ),
        g.stage == GoStage::Ended ==> done_by(g).len() > 0 && done_by(g).last()
            == GoAction::AcknowledgeEnd && never_ends(done_by(g).drop_last()),
        g.stage == GoStage::Over && g.followed ==> {
            let n = done_by(g).len() as int;
            &&& n > 1
            &&& done_by(g)[n - 2] == GoAction::AcknowledgeEnd
            &&& done_by(g)[n - 1] == GoAction::Return
            &&& never_ends(done_by(g).take(n - 2))
        },
{
    opening_never_ends(g.followed, g.outcome->0);
    let printed = launch_actions(g.followed) + closing_actions(g.outcome->0);
    let counted = printed.push(GoAction::PrintCounters);
    assert(never_ends(counted));
    if g.stage == GoStage::Ended {
        assert(done_by(g).drop_last() =~= counted);
    } else if g.stage == GoStage::Over {
        let all = all_actions(g.followed, g.outcome->0);
        if g.followed {
            assert(all =~= counted.push(GoAction::AcknowledgeEnd).push(GoAction::Return));
            assert(all.take(all.len() - 2) =~= counted);
        } else {
            assert(all =~= counted.push(GoAction::Return));
            assert(never_ends(all));
        }
    }
}

/// A `go` begins with its plan and nothing else, keeps the plan to its end, and reports the chosen
/// thread at the depth which that thread completed.
pub proof fn law_go_keeps_its_plan_and_reports_its_depth(
    plan: SearchPlan,
    followed: bool,
    states: Seq<GoView>,
    actions: Seq<GoAction>,
    i: int,
    roots: Seq<Option<RootResult>>,
    unscored: i32,
)
    requires
        is_go_run(plan, followed, states, actions),
        0 <= i < actions.len(),
    ensures
        states[0].stage == GoStage::Ready,
        states[0].outcome is None,
        states[0].line is None,
        states[i].plan == plan,
        states[i].followed == followed,
        states[i].stage == GoStage::Searching && is_countable(roots) && roots.len() <= usize::MAX && (
        states[i + 1], actions[i]) == go_ended(states[i], roots, unscored) ==> (
        states[i + 1].outcome matches Some(Outcome::Play { thread, .. }) ==> states[i + 1].depth
            == roots[thread as int]->0.completed_depth),
        actions[i] == GoAction::Report ==> states[i + 1].stage == GoStage::Reported,
        states[i].stage == GoStage::Reported ==> states[i + 1].depth == states[i].depth,
{
    run_adds_up(plan, followed, states, actions, i);
    assert(go_step(states[i], states[i + 1], actions[i]));
    if states[i].stage == GoStage::Searching && is_countable(roots) && roots.len() <= usize::MAX {
        law_outcome_names_a_thread(roots, plan.limits, plan.multi_pv, unscored);
    }
}

/// What a `go` is seen to hold is all it holds, and the stages in which it waits to be told something
/// are three: the launch, the search and the naming of the move.
pub proof fn law_go_is_seen_whole(run: GoRun)
    ensures
        run@.stage == run.stage,
        run@.plan == run.plan,
        run@.followed == run.followed,
        run@.outcome == run.outcome,
        run@.depth == run.depth,
        run@.line is Some <==> run.line is Some,
        run.line matches Some(line) ==> run@.line == Some(line@),
        awaits(run.stage) <==> run.stage == GoStage::Launching || run.stage == GoStage::Searching
            || run.stage == GoStage::Naming,
{
}

/// Every `go` in full, action by action: whether it is followed, whether there is a move, and whether
/// the chosen thread is to be reported decide among six courses.
pub proof fn law_courses_in_full(
    plan: SearchPlan,
    followed: bool,
    states: Seq<GoView>,
    actions: Seq<GoAction>,
)
    requires
        is_complete_go(plan, followed, states, actions),
    ensures
        ({
            let opening = if followed {
                seq![GoAction::Launch, GoAction::AcknowledgeStart, GoAction::Search]
            } else {
                seq![GoAction::Launch, GoAction::Search]
            };
            let middle = match states.last().outcome {
                Some(Outcome::Play { report: true, .. }) => seq![
                    GoAction::Report,
                    GoAction::Name,
                    GoAction::Print,
                ],
                Some(Outcome::Play { report: false, .. }) => seq![GoAction::Name, GoAction::Print],
                _ => seq![GoAction::Print],
            };
            let ending = if followed {
                seq![GoAction::PrintCounters, GoAction::AcknowledgeEnd, GoAction::Return]
            } else {
                seq![GoAction::PrintCounters, GoAction::Return]
            };
            actions == opening + middle + ending
        }),
{
    law_course_of_a_go(plan, followed, states, actions);
    let outcome = states.last().outcome->0;
    let opening = if followed {
        seq![GoAction::Launch, GoAction::AcknowledgeStart, GoAction::Search]
    } else {
        seq![GoAction::Launch, GoAction::Search]
    };
    assert(launch_actions(followed) =~= opening);
    let middle = match outcome {
        Outcome::Play { report: true, .. } => seq![
            GoAction::Report,
            GoAction::Name,
            GoAction::Print,
        ],
        Outcome::Play { report: false, .. } => seq![GoAction::Name, GoAction::Print],
        _ => seq![GoAction::Print],
    };
    assert(closing_actions(outcome) =~= middle);
    let ending = if followed {
        seq![GoAction::PrintCounters, GoAction::AcknowledgeEnd, GoAction::Return]
    } else {
        seq![GoAction::PrintCounters, GoAction::Return]
    };
    assert(seq![GoAction::PrintCounters] + if_so(followed, GoAction::AcknowledgeEnd) + seq![
        GoAction::Return,
    ] =~= ending);
    assert(actions =~= launch_actions(followed) + closing_actions(outcome) + (seq![
        GoAction::PrintCounters,
    ] + if_so(followed, GoAction::AcknowledgeEnd) + seq![GoAction::Return]));
}

} // verus!

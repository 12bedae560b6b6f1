//! The course of a search: what `go` does, from its arguments to its last acknowledgement.
//!
//! A `GoRun` says what to do next, and whoever runs it does it and reports back.

use vstd::prelude::*;

use crate::limits::{limits_of, parse_limits, Color, Limits};
use crate::options::{Report, Settings};
use crate::text::contents;
use crate::vote::{
    bestmove, bestmove_line, go, is_countable, law_outcome_names_a_thread, outcome_of, results,
    Outcome, RootResult,
};

verus! {

/// How a search is to be run.
#[derive(Copy, Clone, Debug, PartialEq, Eq, Structural)]
pub struct SearchPlan {
    /// What bounds it.
    pub limits: Limits,
    /// How many milliseconds its time manager sets aside for the move.
    pub move_overhead: u64,
    /// How many principal variations the main thread searches.
    pub multi_pv: usize,
    /// How much it tells of its progress.
    pub report: Report,
}

/// The plan that the settings and the arguments of `go` make, with `color` to move.
pub open spec fn plan_of(settings: Settings, color: Color, tokens: Seq<Seq<char>>) -> SearchPlan {
    SearchPlan {
        limits: limits_of(color, tokens),
        move_overhead: settings.move_overhead,
        multi_pv: settings.multi_pv,
        report: settings.report,
    }
}

/// Plans the search that the arguments of `go` ask for, with `color` to move.
pub fn search_plan(settings: &Settings, color: Color, tokens: &[&str]) -> (res: SearchPlan)
    ensures
        res == plan_of(*settings, color, contents(tokens@)),
{
    SearchPlan {
        limits: parse_limits(color, tokens),
        move_overhead: settings.move_overhead,
        multi_pv: settings.multi_pv,
        report: settings.report,
    }
}

/// How far a `go` has got.
#[derive(Copy, Clone, Debug, PartialEq, Eq, Structural)]
pub enum GoStage {
    /// Nothing was done yet.
    Ready,
    /// The search is being launched: it is to be told when its status is set to running.
    Launching,
    /// The start was acknowledged.
    Started,
    /// The search is on: its results are awaited.
    Searching,
    /// The result of the chosen thread was reported.
    Reported,
    /// The move of the chosen thread is awaited.
    Naming,
    /// `bestmove` was printed.
    Printed,
    /// The debug counters were printed.
    Counted,
    /// The end was acknowledged.
    Ended,
    /// All is done.
    Over,
}

/// Something that a `go` asks for.
#[derive(Copy, Clone, Debug, PartialEq, Eq, Structural)]
pub enum GoAction {
    /// Set the search status to running and start the threads on the plan, then call `running`.
    Launch,
    /// Acknowledge that the search is running. Nobody need be there to hear it.
    AcknowledgeStart,
    /// Wait for the threads, then call `ended`.
    Search,
    /// Report the result of the chosen thread, at the depth it completed.
    Report,
    /// Write the best move of the chosen thread in UCI notation, and call `named`.
    Name,
    /// Print the line.
    Print,
    /// Print the debug counters.
    PrintCounters,
    /// Acknowledge that the search is over. Nobody need be there to hear it.
    AcknowledgeEnd,
    /// Return.
    Return,
}

/// A `go` on its way.
#[derive(Debug)]
pub struct GoRun {
    pub stage: GoStage,
    pub plan: SearchPlan,
    /// Somebody wants the start and the end to be acknowledged.
    pub followed: bool,
    /// How the search ended.
    pub outcome: Option<Outcome>,
    /// The depth that the chosen thread completed.
    pub depth: i32,
    /// The line to print.
    pub line: Option<String>,
}

/// What a `go` on its way holds.
#[verifier::ext_equal]
pub struct GoView {
    pub stage: GoStage,
    pub plan: SearchPlan,
    pub followed: bool,
    pub outcome: Option<Outcome>,
    pub depth: i32,
    pub line: Option<Seq<char>>,
}

impl View for GoRun {
    type V = GoView;

    open spec fn view(&self) -> GoView {
        GoView {
            stage: self.stage,
            plan: self.plan,
            followed: self.followed,
            outcome: self.outcome,
            depth: self.depth,
            line: match self.line {
                Some(line) => Some(line@),
                None => None,
            },
        }
    }
}

/// A `go` that is about to begin.
pub open spec fn go_begin(plan: SearchPlan, followed: bool) -> GoView {
    GoView { stage: GoStage::Ready, plan, followed, outcome: None, depth: 0, line: None }
}

/// Whether a `go` in this stage waits to be told something.
pub open spec fn awaits(stage: GoStage) -> bool {
    stage == GoStage::Launching || stage == GoStage::Searching || stage == GoStage::Naming
}

/// The next action of a `go` whose last action is done.
pub open spec fn go_advance(g: GoView) -> (GoView, GoAction) {
    match g.stage {
        GoStage::Ready => (GoView { stage: GoStage::Launching, ..g }, GoAction::Launch),
        GoStage::Started => (GoView { stage: GoStage::Searching, ..g }, GoAction::Search),
        GoStage::Reported => (GoView { stage: GoStage::Naming, ..g }, GoAction::Name),
        GoStage::Printed => (GoView { stage: GoStage::Counted, ..g }, GoAction::PrintCounters),
        GoStage::Counted => if g.followed {
            (GoView { stage: GoStage::Ended, ..g }, GoAction::AcknowledgeEnd)
        } else {
            (GoView { stage: GoStage::Over, ..g }, GoAction::Return)
        },
        _ => (GoView { stage: GoStage::Over, ..g }, GoAction::Return),
    }
}

/// The next action once the search status is set to running.
pub open spec fn go_running(g: GoView) -> (GoView, GoAction) {
    if g.followed {
        (GoView { stage: GoStage::Started, ..g }, GoAction::AcknowledgeStart)
    } else {
        (GoView { stage: GoStage::Searching, ..g }, GoAction::Search)
    }
}

/// The next action once the threads have their results.
pub open spec fn go_ended(g: GoView, roots: Seq<Option<RootResult>>, unscored: i32) -> (
    GoView,
    GoAction,
) {
    let outcome = outcome_of(roots, g.plan.limits, g.plan.multi_pv, unscored);
    match outcome {
        Outcome::NoMove => (
            GoView {
                stage: GoStage::Printed,
                outcome: Some(outcome),
                line: Some(bestmove_line(None)),
                ..g
            },
            GoAction::Print,
        ),
        Outcome::Play { thread, report } => {
            let depth = results(roots)[thread as int].completed_depth;
            if report {
                (
                    GoView { stage: GoStage::Reported, outcome: Some(outcome), depth, ..g },
                    GoAction::Report,
                )
            } else {
                (
                    GoView { stage: GoStage::Naming, outcome: Some(outcome), depth, ..g },
                    GoAction::Name,
                )
            }
        },
    }
}

/// The next action once the move of the chosen thread is written.
pub open spec fn go_named(g: GoView, mv: Seq<char>) -> (GoView, GoAction) {
    (
        GoView { stage: GoStage::Printed, line: Some(bestmove_line(Some(mv))), ..g },
        GoAction::Print,
    )
}

/// What is left to do for a `go` that is broken off: its end is acknowledged if that is still owed.
pub open spec fn go_broken_off(g: GoView) -> (GoView, GoAction) {
    (
        GoView { stage: GoStage::Over, ..g },
        if g.followed && g.stage != GoStage::Ended && g.stage != GoStage::Over {
            GoAction::AcknowledgeEnd
        } else {
            GoAction::Return
        },
    )
}

impl GoRun {
    /// A `go` with these arguments, for the side to move.
    pub fn new(settings: &Settings, color: Color, tokens: &[&str], followed: bool) -> (res: GoRun)
        ensures
            res@ == go_begin(plan_of(*settings, color, contents(tokens@)), followed),
    {
        GoRun {
            stage: GoStage::Ready,
            plan: search_plan(settings, color, tokens),
            followed,
            outcome: None,
            depth: 0,
            line: None,
        }
    }

    /// Names the next action, the last one being done.
    pub fn advance(&mut self) -> (res: GoAction)
        requires
            !awaits(old(self)@.stage),
        ensures
            (final(self)@, res) == go_advance(old(self)@),
    {
        match self.stage {
            GoStage::Ready => {
                self.stage = GoStage::Launching;
                GoAction::Launch
            },
            GoStage::Started => {
                self.stage = GoStage::Searching;
                GoAction::Search
            },
            GoStage::Reported => {
                self.stage = GoStage::Naming;
                GoAction::Name
            },
            GoStage::Printed => {
                self.stage = GoStage::Counted;
                GoAction::PrintCounters
            },
            GoStage::Counted => {
                if self.followed {
                    self.stage = GoStage::Ended;
                    GoAction::AcknowledgeEnd
                } else {
                    self.stage = GoStage::Over;
                    GoAction::Return
                }
            },
            _ => {
                self.stage = GoStage::Over;
                GoAction::Return
            },
        }
    }

    /// Takes note that the search status is set to running.
    pub fn running(&mut self) -> (res: GoAction)
        requires
            old(self)@.stage == GoStage::Launching,
        ensures
            (final(self)@, res) == go_running(old(self)@),
    {
        if self.followed {
            self.stage = GoStage::Started;
            GoAction::AcknowledgeStart
        } else {
            self.stage = GoStage::Searching;
            GoAction::Search
        }
    }

    /// Takes the results of the threads, the main thread first. `unscored` is the score of a move
    /// that was not searched.
    pub fn ended(&mut self, roots: &Vec<Option<RootResult>>, unscored: i32) -> (res: GoAction)
        requires
            old(self)@.stage == GoStage::Searching,
            is_countable(roots@),
        ensures
            (final(self)@, res) == go_ended(old(self)@, roots@, unscored),
    {
        let outcome = go(roots, self.plan.limits, self.plan.multi_pv, unscored);
        proof {
            assert(roots@.len() == roots.len());
            law_outcome_names_a_thread(roots@, self.plan.limits, self.plan.multi_pv, unscored);
        }
        self.outcome = Some(outcome);
        match outcome {
            Outcome::NoMove => {
                self.line = Some(bestmove(None));
                self.stage = GoStage::Printed;
                GoAction::Print
            },
            Outcome::Play { thread, report } => {
                if let Some(result) = roots[thread] {
                    self.depth = result.completed_depth;
                }
                if report {
                    self.stage = GoStage::Reported;
                    GoAction::Report
                } else {
                    self.stage = GoStage::Naming;
                    GoAction::Name
                }
            },
        }
    }

    /// Takes the move of the chosen thread, in UCI notation.
    pub fn named(&mut self, mv: &str) -> (res: GoAction)
        requires
            old(self)@.stage == GoStage::Naming,
        ensures
            (final(self)@, res) == go_named(old(self)@, mv@),
    {
        self.line = Some(bestmove(Some(mv)));
        self.stage = GoStage::Printed;
        GoAction::Print
    }

    /// Breaks the `go` off, wherever it is: a search that fails is over too for whoever follows it.
    pub fn break_off(&mut self) -> (res: GoAction)
        ensures
            (final(self)@, res) == go_broken_off(old(self)@),
    {
        let owed = self.followed && self.stage != GoStage::Ended && self.stage != GoStage::Over;
        self.stage = GoStage::Over;
        if owed {
            GoAction::AcknowledgeEnd
        } else {
            GoAction::Return
        }
    }
}

/// The plan of a search takes its limits from the arguments of `go` and everything else from the
/// settings: two searches with the same arguments differ only in what was set.
pub proof fn law_plan_follows_settings(
    settings: Settings,
    other: Settings,
    color: Color,
    tokens: Seq<Seq<char>>,
)
    ensures
        plan_of(settings, color, tokens).limits == limits_of(color, tokens),
        plan_of(settings, color, tokens).multi_pv == settings.multi_pv,
        plan_of(settings, color, tokens).move_overhead == settings.move_overhead,
        plan_of(settings, color, tokens).report == settings.report,
        plan_of(settings, color, tokens).limits == plan_of(other, color, tokens).limits,
{
}

} // verus!

//! The channel listener and the message loop side by side.
//!
//! The two run on threads of their own and share the search status and the queue between them.
//! Here a `World` holds both, and a step is a step of either. What is proved of every run of such
//! worlds holds however the two threads interleave.

use vstd::prelude::*;

use crate::command::{verb_of, Verb};
use crate::listener::{
    control_words_are_commands, event_fits, listener_next, refreshed, ChannelListener,
    ListenerAction, ListenerEvent, Phase,
};
use crate::notice::Notice;
use crate::search::{go_begin, GoAction, GoStage, GoView, SearchPlan};
use crate::search_laws::go_step;
use crate::session::{session_receive, Action, SessionView, Stage};
use crate::text::words;

verus! {

/// What the message loop is doing.
pub enum Worker {
    /// Between two commands.
    Idle,
    /// Busy with a `go`. It carries the place of its command in the queue, and none if that was one
    /// of the initial commands.
    Busy(GoView, Option<nat>),
    /// The message loop was left.
    Gone,
}

/// A printed line.
pub enum Printed {
    /// `readyok`, from the listener.
    ReadyNow,
    /// `readyok`, from the message loop for the queued command at this place.
    Ready(nat),
    /// `bestmove` of a search.
    Best(Option<nat>),
}

/// The listener, the message loop, and what they share.
pub struct World {
    pub listener: ChannelListener,
    /// The search that the listener takes to be going on: the place of its `go`.
    pub known: Option<nat>,
    /// The command that the listener is about to queue.
    pub pending: Seq<char>,
    /// All commands that were ever queued, in order.
    pub queued: Seq<Seq<char>>,
    /// How many of them the message loop has taken.
    pub taken: nat,
    /// Initial commands are left. They come before the queued ones.
    pub batch: bool,
    pub worker: Worker,
    /// The search status is `running`.
    pub running: bool,
    /// The searches whose start was acknowledged.
    pub started: Set<nat>,
    /// The searches whose end was acknowledged.
    pub finished: Set<nat>,
    /// What was printed, in order.
    pub log: Seq<Printed>,
}

/// Whether a command starts a search.
pub open spec fn is_search(text: Seq<char>) -> bool {
    verb_of(words(text)) == Verb::Go
}

/// Whether the event can have happened to the listener.
pub open spec fn can_happen(w: World, event: ListenerEvent<Seq<char>>) -> bool {
    &&& event_fits(w.listener.phase, event)
    &&& match event {
        ListenerEvent::Message(_, over) => w.known matches Some(k) ==> over == w.finished.contains(
            k,
        ),
        ListenerEvent::Sent(ok) => ok == !(w.worker is Gone),
        ListenerEvent::Started => w.queued.len() > 0 && w.started.contains(
            (w.queued.len() - 1) as nat,
        ),
        ListenerEvent::StartLost => w.worker is Gone,
        _ => true,
    }
}

/// The queue with one more command, unless nobody is left to take it.
pub open spec fn enqueued(w: World, text: Seq<char>) -> Seq<Seq<char>> {
    if w.worker is Gone {
        w.queued
    } else {
        w.queued.push(text)
    }
}

/// A step of the listener: it is told of an event and does what it then decides.
pub open spec fn listener_step(w: World, event: ListenerEvent<Seq<char>>, next: World) -> bool {
    let (listener, action) = listener_next(w.listener, event);
    &&& can_happen(w, event)
    &&& next == World {
        listener,
        known: if event is Started {
            Some((w.queued.len() - 1) as nat)
        } else if listener.searching {
            w.known
        } else {
            None
        },
        pending: match event {
            ListenerEvent::Message(text, _) => text,
            _ => w.pending,
        },
        queued: if action is Quit {
            enqueued(w, "quit"@)
        } else if event is Sent {
            enqueued(w, w.pending)
        } else {
            w.queued
        },
        running: w.running && !(action is Stop || action is Quit),
        log: if action is Ready {
            w.log.push(Printed::ReadyNow)
        } else {
            w.log
        },
        ..w
    }
}

/// The message loop takes up a queued command; `plan` is that of its search, if it starts one.
pub open spec fn takes(w: World, plan: SearchPlan, next: World) -> bool {
    let verb = verb_of(words(w.queued[w.taken as int]));
    &&& w.worker is Idle
    &&& !w.batch
    &&& w.taken < w.queued.len()
    &&& next == World {
        taken: w.taken + 1,
        worker: match verb {
            Verb::Go => Worker::Busy(go_begin(plan, true), Some(w.taken)),
            Verb::Quit => Worker::Gone,
            _ => Worker::Idle,
        },
        running: w.running && verb != Verb::Stop,
        log: if verb == Verb::IsReady {
            w.log.push(Printed::Ready(w.taken))
        } else {
            w.log
        },
        ..w
    }
}

/// The set with the search that was acknowledged, if it has a place in the queue.
pub open spec fn acknowledged(set: Set<nat>, search: Option<nat>) -> Set<nat> {
    match search {
        Some(k) => set.insert(k),
        None => set,
    }
}

/// The world once a `go` has got on to `g` and what it asked for was done.
pub open spec fn gone_on(w: World, g: GoView, place: Option<nat>, action: GoAction) -> World {
    World {
        worker: if action == GoAction::Return {
            Worker::Idle
        } else {
            Worker::Busy(g, place)
        },
        running: w.running || action == GoAction::Launch,
        started: if action == GoAction::AcknowledgeStart {
            acknowledged(w.started, place)
        } else {
            w.started
        },
        finished: if action == GoAction::AcknowledgeEnd {
            acknowledged(w.finished, place)
        } else {
            w.finished
        },
        log: if action == GoAction::Print {
            w.log.push(Printed::Best(place))
        } else {
            w.log
        },
        ..w
    }
}

/// A step of a `go`: it asks for an action, and that is done.
pub open spec fn goes(w: World, g: GoView, action: GoAction, next: World) -> bool {
    w.worker matches Worker::Busy(before, place) && go_step(before, g, action) && next == gone_on(
        w,
        g,
        place,
        action,
    )
}

/// A step of the message loop.
pub open spec fn worker_step(w: World, next: World) -> bool {
    // An initial command starts a search, sets the status to stopped, or is the last.
    ||| w.worker is Idle && w.batch && exists|plan: SearchPlan|
        next == (World { worker: Worker::Busy(#[trigger] go_begin(plan, false), None), ..w })
    ||| w.worker is Idle && w.batch && next == (World { running: false, ..w })
    ||| w.worker is Idle && w.batch && next == (World { batch: false, ..w })
    // A queued command is taken up.
    ||| exists|plan: SearchPlan| takes(w, plan, next)
    // The message loop is left.
    ||| w.worker is Idle && next == (World { worker: Worker::Gone, ..w })
    // A search goes on, or ends by itself.
    ||| exists|g: GoView, action: GoAction| goes(w, g, action, next)
    ||| w.worker is Busy && next == (World { running: false, ..w })
}

/// A step of either.
pub open spec fn world_step(w: World, next: World) -> bool {
    ||| worker_step(w, next)
    ||| exists|event: ListenerEvent<Seq<char>>| listener_step(w, event, next)
}

/// A world in which nothing has happened yet.
pub open spec fn is_initial(w: World) -> bool {
    &&& w.listener == ChannelListener {
        phase: Phase::Receiving,
        searching: false,
        stop_requested: false,
    }
    &&& w.known is None
    &&& w.queued.len() == 0
    &&& w.taken == 0
    &&& w.worker is Idle
    &&& !w.running
    &&& w.started =~= Set::empty()
    &&& w.finished =~= Set::empty()
    &&& w.log.len() == 0
}

/// Whether the worlds follow one another, from an initial one.
pub open spec fn is_run(ws: Seq<World>) -> bool {
    &&& ws.len() > 0
    &&& is_initial(ws[0])
    &&& forall|i: int| 0 <= i < ws.len() - 1 ==> world_step(#[trigger] ws[i], ws[i + 1])
}

/// Whether the message loop is busy with the search whose `go` stands at place `k`.
pub open spec fn busy_with(w: World, k: nat) -> bool {
    w.worker matches Worker::Busy(_, Some(place)) && place == k
}

/// How far the `go` of the message loop has got.
pub open spec fn stage(w: World) -> GoStage {
    w.worker->Busy_0.stage
}

/// Whether the start was acknowledged in this stage of a `go` that is followed.
pub open spec fn is_started(stage: GoStage) -> bool {
    stage != GoStage::Ready && stage != GoStage::Launching
}

/// Whether `bestmove` was printed in this stage.
pub open spec fn is_printed(stage: GoStage) -> bool {
    stage == GoStage::Printed || stage == GoStage::Counted || is_ended(stage)
}

/// Whether the end was acknowledged in this stage of a `go` that is followed.
pub open spec fn is_ended(stage: GoStage) -> bool {
    stage == GoStage::Ended || stage == GoStage::Over
}

/// Whether the search with its `go` at place `k` is going on: acknowledged, and not ended.
pub open spec fn goes_on(w: World, k: nat) -> bool {
    busy_with(w, k) && is_started(stage(w)) && !is_ended(stage(w))
}

/// Whether the search was over or is bound to end: its end was acknowledged, or it is going on with
/// the status set to stopped.
pub open spec fn is_stopped(w: World, k: nat) -> bool {
    w.finished.contains(k) || goes_on(w, k) && !w.running
}

/// How the stage of each queued search shows in the rest of the world.
pub open spec fn searches_consistent(w: World) -> bool {
    &&& w.taken <= w.queued.len()
    &&& w.batch ==> w.taken == 0
    &&& w.worker matches Worker::Busy(g, place) ==> {
        &&& g.followed == place is Some
        &&& g.stage != GoStage::Over
        &&& place is None ==> w.batch
        &&& place matches Some(k) ==> k + 1 == w.taken && is_search(w.queued[k as int])
    }
    &&& forall|k: nat| #[trigger]
        w.started.contains(k) <==> k < w.taken && is_search(w.queued[k as int]) && !(busy_with(w, k)
            && !is_started(stage(w)))
    &&& forall|k: nat| #[trigger]
        w.finished.contains(k) <==> k < w.taken && is_search(w.queued[k as int]) && !(busy_with(
            w,
            k,
        ) && !is_ended(stage(w)))
}

/// The `bestmove` of a search stands in the log before place `p`.
pub open spec fn best_before(log: Seq<Printed>, k: nat, p: int) -> bool {
    exists|q: int| 0 <= q < p && #[trigger] log[q] == Printed::Best(Some(k))
}

/// What the log says of searches that are over, and of replies to `isready`.
pub open spec fn log_consistent(w: World) -> bool {
    &&& forall|k: nat|
        k < w.taken && is_search(#[trigger] w.queued[k as int]) && !(busy_with(w, k)
            && !is_printed(stage(w))) ==> best_before(w.log, k, w.log.len() as int)
    &&& forall|p: int, i: nat, k: nat| #[trigger]
        is_ready_entry(w.log, p, i) && k < i && is_search(#[trigger] w.queued[k as int])
            ==> best_before(w.log, k, p)
    &&& forall|p: int, i: nat| #[trigger] is_ready_entry(w.log, p, i) ==> i < w.taken
}

/// The reply to the queued `isready` at place `i` stands at place `p` of the log.
pub open spec fn is_ready_entry(log: Seq<Printed>, p: int, i: nat) -> bool {
    0 <= p < log.len() && log[p] == Printed::Ready(i)
}

/// What the listener knows.
pub open spec fn listener_consistent(w: World) -> bool {
    &&& w.listener.well_formed()
    &&& w.listener.searching <==> w.known is Some
    &&& w.known matches Some(k) ==> w.started.contains(k)
    &&& w.listener.phase == Phase::Launching ==> is_search(w.pending)
    &&& w.listener.phase == Phase::Forwarding ==> !is_search(w.pending)
    &&& w.listener.phase != Phase::Closed ==> forall|k: nat|
        k < w.queued.len() && is_search(#[trigger] w.queued[k as int]) ==> w.started.contains(k) || (
        w.listener.phase == Phase::AwaitingStart && k + 1 == w.queued.len())
}

/// What holds of every world that a run reaches.
pub open spec fn consistent(w: World) -> bool {
    &&& searches_consistent(w)
    &&& log_consistent(w)
    &&& listener_consistent(w)
}

proof fn log_grows(log: Seq<Printed>, entry: Printed)
    ensures
        forall|k: nat, p: int|
            p <= log.len() && #[trigger] best_before(log, k, p) ==> best_before(
                log.push(entry),
                k,
                p,
            ),
        forall|k: nat|
            best_before(log, k, log.len() as int) ==> #[trigger] best_before(
                log.push(entry),
                k,
                log.len() as int + 1,
            ),
        forall|k: nat|
            entry == Printed::Best(Some(k)) ==> #[trigger] best_before(
                log.push(entry),
                k,
                log.len() as int + 1,
            ),
        forall|p: int, i: nat|
            p < log.len() && #[trigger] is_ready_entry(log.push(entry), p, i) ==> is_ready_entry(
                log,
                p,
                i,
            ),
{
    let longer = log.push(entry);
    assert forall|k: nat, p: int| p <= log.len() && #[trigger] best_before(log, k, p) implies best_before(
        longer,
        k,
        p,
    ) by {
        let q = choose|q: int| 0 <= q < p && #[trigger] log[q] == Printed::Best(Some(k));
        assert(longer[q] == log[q]);
    }
    assert forall|k: nat| best_before(log, k, log.len() as int) implies #[trigger] best_before(
        longer,
        k,
        log.len() as int + 1,
    ) by {
        let q = choose|q: int|
            0 <= q < log.len() && #[trigger] log[q] == Printed::Best(Some(k));
        assert(longer[q] == log[q]);
    }
    assert forall|k: nat| entry == Printed::Best(Some(k)) implies #[trigger] best_before(
        longer,
        k,
        log.len() as int + 1,
    ) by {
        assert(longer[log.len() as int] == entry);
    }
}

proof fn worker_step_keeps_consistent(w: World, next: World)
    requires
        consistent(w),
        worker_step(w, next),
    ensures
        consistent(next),
{
    if next.log != w.log {
        log_grows(w.log, next.log.last());
        assert(next.log == w.log.push(next.log.last()));
    }
}

proof fn listener_step_keeps_consistent(
    w: World,
    event: ListenerEvent<Seq<char>>,
    next: World,
)
    requires
        consistent(w),
        listener_step(w, event, next),
    ensures
        consistent(next),
{
    if next.log != w.log {
        log_grows(w.log, next.log.last());
        assert(next.log == w.log.push(next.log.last()));
    }
}

/// Every world of a run is consistent.
pub proof fn run_is_consistent(ws: Seq<World>, n: int)
    requires
        is_run(ws),
        0 <= n < ws.len(),
    ensures
        consistent(ws[n]),
    decreases n,
{
    if n > 0 {
        run_is_consistent(ws, n - 1);
        let (w, next) = (ws[n - 1], ws[n - 1 + 1]);
        assert(world_step(w, next));
        if worker_step(w, next) {
            worker_step_keeps_consistent(w, next);
        } else {
            let event = choose|event: ListenerEvent<Seq<char>>| listener_step(w, event, next);
            listener_step_keeps_consistent(w, event, next);
        }
    }
}

proof fn queue_only_grows(ws: Seq<World>, i: int, j: int)
    requires
        is_run(ws),
        0 <= i <= j < ws.len(),
    ensures
        ws[i].queued.len() <= ws[j].queued.len(),
        forall|k: int|
            0 <= k < ws[i].queued.len() ==> #[trigger] ws[j].queued[k] == ws[i].queued[k],
    decreases j - i,
{
    if i < j {
        queue_only_grows(ws, i, j - 1);
        assert(world_step(ws[j - 1], ws[j - 1 + 1]));
    }
}

/// The listener takes no further command before a queued search is running: whenever it is ready to
/// take one, the start of every search that it has queued was acknowledged.
pub proof fn law_searches_run_before_the_next_command(ws: Seq<World>, n: int, k: nat)
    requires
        is_run(ws),
        0 <= n < ws.len(),
        ws[n].listener.phase == Phase::Receiving,
        k < ws[n].queued.len(),
        is_search(ws[n].queued[k as int]),
    ensures
        ws[n].started.contains(k),
{
    run_is_consistent(ws, n);
    let text = ws[n].queued[k as int];
}

proof fn step_keeps_search_stopped(w: World, next: World, k: nat)
    requires
        consistent(w),
        world_step(w, next),
        is_stopped(w, k),
    ensures
        is_stopped(next, k),
{
    if worker_step(w, next) {
        if exists|g: GoView, action: GoAction| goes(w, g, action, next) {
            let (g, action) = choose|g: GoView, action: GoAction| goes(w, g, action, next);
            let (before, place) = (w.worker->Busy_0, w.worker->Busy_1);
            assert(go_step(before, g, action));
        }
    } else {
        let event = choose|event: ListenerEvent<Seq<char>>| listener_step(w, event, next);
        assert(next.worker == w.worker && next.finished == w.finished);
    }
}

proof fn stopped_search_stays_stopped(ws: Seq<World>, i: int, j: int, k: nat)
    requires
        is_run(ws),
        0 <= i <= j < ws.len(),
        is_stopped(ws[i], k),
    ensures
        is_stopped(ws[j], k),
    decreases j - i,
{
    if i < j {
        stopped_search_stays_stopped(ws, i, j - 1, k);
        run_is_consistent(ws, j - 1);
        assert(world_step(ws[j - 1], ws[j - 1 + 1]));
        step_keeps_search_stopped(ws[j - 1], ws[j - 1 + 1], k);
    }
}

/// Whether the listener stops the search on this event: on `stop`, on `quit`, or because the host
/// has closed its channel.
pub open spec fn halts(w: World, event: ListenerEvent<Seq<char>>) -> bool {
    let action = listener_next(w.listener, event).1;
    action == ListenerAction::Stop || action == ListenerAction::Quit
}

/// No stop is lost. Once the listener has taken `stop` or `quit`, or found the channel closed,
/// every search queued before is stopped for good: until it has ended, the search status stays
/// stopped. In particular the start of a search cannot undo a `stop` sent right behind its `go`.
pub proof fn law_stop_reaches_every_queued_search(
    ws: Seq<World>,
    i: int,
    event: ListenerEvent<Seq<char>>,
    j: int,
    k: nat,
)
    requires
        is_run(ws),
        0 <= i < j < ws.len(),
        listener_step(ws[i], event, ws[i + 1]),
        halts(ws[i], event),
        k < ws[i].queued.len(),
        is_search(ws[i].queued[k as int]),
    ensures
        is_stopped(ws[j], k),
{
    run_is_consistent(ws, i);
    law_searches_run_before_the_next_command(ws, i, k);
    assert(ws[i].started.contains(k));
    assert(ws[i].finished.contains(k) || goes_on(ws[i], k));
    stopped_search_stays_stopped(ws, i + 1, j, k);
}

/// Whether no search can come any more: the listener has ended, the initial commands are used up,
/// and every queued search was started.
pub open spec fn no_search_to_come(w: World) -> bool {
    &&& w.listener.phase == Phase::Closed
    &&& !w.batch
    &&& forall|k: nat|
        k < w.queued.len() && is_search(#[trigger] w.queued[k as int]) ==> w.started.contains(k)
}

proof fn silence_lasts(ws: Seq<World>, i: int, j: int)
    requires
        is_run(ws),
        0 <= i <= j < ws.len(),
        no_search_to_come(ws[i]),
        !ws[i].running,
    ensures
        no_search_to_come(ws[j]),
        !ws[j].running,
    decreases j - i,
{
    if i < j {
        silence_lasts(ws, i, j - 1);
        run_is_consistent(ws, j - 1);
        let (w, next) = (ws[j - 1], ws[j - 1 + 1]);
        assert(world_step(w, next));
        if exists|plan: SearchPlan| takes(w, plan, next) {
            assert(w.started.contains(w.taken) ==> w.taken < w.taken);
            assert(!is_search(w.queued[w.taken as int]));
        }
    }
}

/// `quit` is final, and so is a closed channel: once the listener has taken it, with no initial
/// command left, the search status stays stopped for good, and `quit` is the last command queued
/// for the message loop.
pub proof fn law_quit_is_final(
    ws: Seq<World>,
    i: int,
    event: ListenerEvent<Seq<char>>,
    j: int,
)
    requires
        is_run(ws),
        0 <= i < j < ws.len(),
        listener_step(ws[i], event, ws[i + 1]),
        listener_next(ws[i].listener, event).1 == ListenerAction::Quit,
        !ws[i].batch,
    ensures
        !ws[j].running,
        ws[j].listener.phase == Phase::Closed,
        ws[j].queued == enqueued(ws[i], "quit"@),
{
    run_is_consistent(ws, i);
    control_words_are_commands();
    assert(no_search_to_come(ws[i + 1]));
    silence_lasts(ws, i + 1, j);
    queue_stays(ws, i + 1, j);
}

proof fn queue_stays(ws: Seq<World>, i: int, j: int)
    requires
        is_run(ws),
        0 <= i <= j < ws.len(),
        ws[i].listener.phase == Phase::Closed,
    ensures
        ws[j].listener.phase == Phase::Closed,
        ws[j].queued == ws[i].queued,
    decreases j - i,
{
    if i < j {
        queue_stays(ws, i, j - 1);
        assert(world_step(ws[j - 1], ws[j - 1 + 1]));
    }
}

/// Commands are dropped, and `isready` is answered out of order, only while a search is going on
/// that nobody has asked to stop. A command that comes after the end of a search was acknowledged
/// is never mistaken for one that came during the search.
pub proof fn law_shortcuts_only_during_a_search(
    ws: Seq<World>,
    i: int,
    text: Seq<char>,
    over: bool,
)
    requires
        is_run(ws),
        0 <= i < ws.len() - 1,
        listener_step(ws[i], ListenerEvent::Message(text, over), ws[i + 1]),
        ({
            let action = listener_next(ws[i].listener, ListenerEvent::Message(text, over)).1;
            action == ListenerAction::Ready || action == ListenerAction::Ignore
        }),
    ensures
        ws[i].known is Some,
        goes_on(ws[i], ws[i].known->0),
        !ws[i].listener.stop_requested,
{
    run_is_consistent(ws, i);
    let k = ws[i].known->0;
    assert(ws[i].started.contains(k));
    assert(!ws[i].finished.contains(k));
}

/// The message loop answers a queued `isready` only after it has printed the `bestmove` of every
/// search that was queued before.
pub proof fn law_ready_follows_every_bestmove(ws: Seq<World>, n: int, p: int, i: nat, k: nat)
    requires
        is_run(ws),
        0 <= n < ws.len(),
        is_ready_entry(ws[n].log, p, i),
        k < i,
        is_search(ws[n].queued[k as int]),
    ensures
        best_before(ws[n].log, k, p),
{
    run_is_consistent(ws, n);
    let text = ws[n].queued[k as int];
}

/// Once a search was asked to stop, `isready` is a barrier: the listener does not answer it but
/// queues it, in the next place of the queue, and the answer comes after the `bestmove` of the
/// search.
pub proof fn law_ready_is_a_barrier_once_stopped(
    ws: Seq<World>,
    i: int,
    text: Seq<char>,
    over: bool,
    j: int,
    p: int,
)
    requires
        is_run(ws),
        0 <= i < j < ws.len(),
        listener_step(ws[i], ListenerEvent::Message(text, over), ws[i + 1]),
        verb_of(words(text)) == Verb::IsReady,
        refreshed(ws[i].listener, over).stop_requested,
    ensures
        ws[i + 1].log == ws[i].log,
        ws[i + 1].listener.phase == Phase::Forwarding,
        ws[i + 1].pending == text,
        ws[i + 1].queued == ws[i].queued,
        ws[i].known is Some,
        is_ready_entry(ws[j].log, p, ws[i].queued.len()) ==> best_before(
            ws[j].log,
            ws[i].known->0,
            p,
        ),
{
    run_is_consistent(ws, i);
    let k = ws[i].known->0;
    assert(ws[i].started.contains(k));
    queue_only_grows(ws, i, j);
    assert(ws[j].queued[k as int] == ws[i].queued[k as int]);
    if is_ready_entry(ws[j].log, p, ws[i].queued.len()) {
        law_ready_follows_every_bestmove(ws, j, p, ws[i].queued.len(), k);
    }
}

/// Whether the log keeps the order of the queue: `bestmove` lines stand in the order of their
/// searches, and replies to queued `isready` commands in the order of these.
pub open spec fn log_in_order(w: World) -> bool {
    &&& forall|p: int, k: nat| #[trigger]
        is_best_entry(w.log, p, k) ==> k < w.taken && !(busy_with(w, k) && !is_printed(stage(w)))
    &&& forall|p: int, q: int, k: nat, m: nat|
        p < q && #[trigger] is_best_entry(w.log, p, k) && #[trigger] is_best_entry(w.log, q, m)
            ==> k < m
    &&& forall|p: int, q: int, i: nat, j: nat|
        p < q && #[trigger] is_ready_entry(w.log, p, i) && #[trigger] is_ready_entry(w.log, q, j)
            ==> i < j
}

/// The `bestmove` of the search with its `go` at place `k` stands at place `p` of the log.
pub open spec fn is_best_entry(log: Seq<Printed>, p: int, k: nat) -> bool {
    0 <= p < log.len() && log[p] == Printed::Best(Some(k))
}

proof fn step_keeps_log_in_order(w: World, next: World)
    requires
        consistent(w),
        log_in_order(w),
        world_step(w, next),
    ensures
        log_in_order(next),
{
    if next.log != w.log {
        let entry = next.log.last();
        assert(next.log == w.log.push(entry));
        assert forall|p: int, k: nat| p < w.log.len() && #[trigger] is_best_entry(
            next.log,
            p,
            k,
        ) implies is_best_entry(w.log, p, k) by {}
        assert forall|p: int, i: nat| p < w.log.len() && #[trigger] is_ready_entry(
            next.log,
            p,
            i,
        ) implies is_ready_entry(w.log, p, i) by {}
    }
}

proof fn run_keeps_log_in_order(ws: Seq<World>, n: int)
    requires
        is_run(ws),
        0 <= n < ws.len(),
    ensures
        log_in_order(ws[n]),
    decreases n,
{
    if n > 0 {
        run_keeps_log_in_order(ws, n - 1);
        run_is_consistent(ws, n - 1);
        assert(world_step(ws[n - 1], ws[n - 1 + 1]));
        step_keeps_log_in_order(ws[n - 1], ws[n - 1 + 1]);
    }
}

/// Every search prints one `bestmove` at most, and those of several searches come in the order in
/// which these were queued.
pub proof fn law_one_bestmove_for_each_search(
    ws: Seq<World>,
    n: int,
    p: int,
    q: int,
    k: nat,
    m: nat,
)
    requires
        is_run(ws),
        0 <= n < ws.len(),
        is_best_entry(ws[n].log, p, k),
        is_best_entry(ws[n].log, q, m),
    ensures
        k == m <==> p == q,
        k < m <==> p < q,
{
    run_keeps_log_in_order(ws, n);
    if p < q {
        assert(k < m);
    } else if q < p {
        assert(m < k);
    }
}

/// The message loop answers queued `isready` commands in their order, each once at most.
pub proof fn law_queued_replies_keep_their_order(
    ws: Seq<World>,
    n: int,
    p: int,
    q: int,
    i: nat,
    j: nat,
)
    requires
        is_run(ws),
        0 <= n < ws.len(),
        is_ready_entry(ws[n].log, p, i),
        is_ready_entry(ws[n].log, q, j),
    ensures
        i == j <==> p == q,
        i < j <==> p < q,
{
    run_keeps_log_in_order(ws, n);
    if p < q {
        assert(i < j);
    } else if q < p {
        assert(j < i);
    }
}

/// A world's message loop reacts to a queued command as a session does that receives it: it leaves
/// on `quit`, it answers `readyok` to `isready` and to nothing else, and it carries out the rest.
pub proof fn law_loop_reacts_as_a_session(s: SessionView, text: Seq<char>)
    requires
        s.stage == Stage::Wait,
    ensures
        ({
            let (next, action) = session_receive(s, Some(text));
            let verb = verb_of(words(text));
            &&& verb == Verb::Quit <==> action != Action::Execute
            &&& verb != Verb::Quit ==> {
                &&& next.order matches Some(order)
                &&& order.verb == verb
                &&& order.notice == Notice::Line("readyok"@) <==> verb == Verb::IsReady
            }
        }),
{
}

} // verus!

//! What the channel listener has queued for the message loop after any course of events.

use vstd::prelude::*;

use crate::command::{verb_of, Verb};
use crate::listener::{
    control_words_are_commands, event_fits, listener_next, stdin_action, ChannelListener,
    ListenerAction, ListenerEvent, Phase, StdinAction,
};
use crate::text::{is_space, law_trimming_finds_the_line, words};

verus! {

/// A command in the queue of the message loop. The flag tells whether acknowledgements go with it.
pub struct QueuedView {
    pub text: Seq<char>,
    pub followed: bool,
}

/// The listener between the host and the queue.
#[verifier::ext_equal]
pub struct Bridge {
    pub listener: ChannelListener,
    /// What the host has sent.
    pub heard: Seq<Seq<char>>,
    /// What the listener is about to queue, in the phases in which it is.
    pub pending: QueuedView,
    /// What has been queued.
    pub queued: Seq<QueuedView>,
}

/// The bridge before anything was heard.
pub open spec fn bridge_begin() -> Bridge {
    Bridge {
        listener: ChannelListener {
            phase: Phase::Receiving,
            searching: false,
            stop_requested: false,
        },
        heard: seq![],
        pending: QueuedView { text: seq![], followed: false },
        queued: seq![],
    }
}

/// The bridge after an event, once the listener's action is performed.
pub open spec fn bridge_next(b: Bridge, event: ListenerEvent<Seq<char>>) -> Bridge {
    let (listener, action) = listener_next(b.listener, event);
    Bridge {
        listener,
        heard: match event {
            ListenerEvent::Message(text, _) => b.heard.push(text),
            _ => b.heard,
        },
        pending: match event {
            ListenerEvent::Message(text, _) => QueuedView {
                text,
                followed: action == ListenerAction::Launch,
            },
            _ => b.pending,
        },
        queued: if action == ListenerAction::Quit {
            b.queued.push(QueuedView { text: "quit"@, followed: false })
        } else if event == ListenerEvent::<Seq<char>>::Sent(true) {
            b.queued.push(b.pending)
        } else {
            b.queued
        },
    }
}

/// The bridge after these events.
pub open spec fn bridge_after(events: Seq<ListenerEvent<Seq<char>>>) -> Bridge
    decreases events.len(),
{
    if events.len() == 0 {
        bridge_begin()
    } else {
        bridge_next(bridge_after(events.drop_last()), events.last())
    }
}

/// Whether each event fits the phase in which it comes.
pub open spec fn is_course(events: Seq<ListenerEvent<Seq<char>>>) -> bool
    decreases events.len(),
{
    events.len() > 0 ==> {
        &&& is_course(events.drop_last())
        &&& event_fits(bridge_after(events.drop_last()).listener.phase, events.last())
    }
}

/// Whether `a` is `b` with some of its items left out.
pub open spec fn is_subsequence<T>(a: Seq<T>, b: Seq<T>) -> bool
    decreases b.len(),
{
    ||| a.len() == 0
    ||| b.len() > 0 && is_subsequence(a, b.drop_last())
    ||| {
        &&& a.len() > 0 && b.len() > 0 && a.last() == b.last()
        &&& is_subsequence(a.drop_last(), b.drop_last())
    }
}

/// What a queued command asks for.
pub open spec fn asks(q: QueuedView) -> Verb {
    verb_of(words(q.text))
}

/// The texts of queued commands.
pub open spec fn texts(queued: Seq<QueuedView>) -> Seq<Seq<char>> {
    queued.map_values(|q: QueuedView| q.text)
}

/// Whether `quit` has been queued.
pub open spec fn has_quit(queued: Seq<QueuedView>) -> bool {
    queued.len() > 0 && asks(queued.last()) == Verb::Quit
}

/// The queue without the `quit` at its end, if there is one.
pub open spec fn before_quit(queued: Seq<QueuedView>) -> Seq<QueuedView> {
    if has_quit(queued) {
        queued.drop_last()
    } else {
        queued
    }
}

/// Whether a command may stand in the queue before `quit`.
pub open spec fn is_passed_on(q: QueuedView) -> bool {
    &&& asks(q) != Verb::Stop
    &&& asks(q) != Verb::Quit
    &&& q.followed == (asks(q) == Verb::Go)
}

spec fn bridge_consistent(b: Bridge) -> bool {
    let is_queueing = b.listener.phase == Phase::Forwarding || b.listener.phase == Phase::Launching;
    &&& forall|i: int| 0 <= i < before_quit(b.queued).len() ==> is_passed_on(#[trigger] b.queued[i])
    &&& is_subsequence(texts(before_quit(b.queued)), b.heard)
    &&& has_quit(b.queued) ==> b.listener.phase == Phase::Closed && b.queued.last() == (QueuedView {
        text: "quit"@,
        followed: false,
    })
    &&& is_queueing ==> {
        &&& b.heard.len() > 0
        &&& b.pending.text == b.heard.last()
        &&& is_passed_on(b.pending)
        &&& is_subsequence(texts(b.queued), b.heard.drop_last())
    }
}

proof fn course_is_consistent(events: Seq<ListenerEvent<Seq<char>>>)
    requires
        is_course(events),
    ensures
        bridge_consistent(bridge_after(events)),
    decreases events.len(),
{
    if events.len() > 0 {
        course_is_consistent(events.drop_last());
        control_words_are_commands();
        let before = bridge_after(events.drop_last());
        let event = events.last();
        let after = bridge_next(before, event);
        let action = listener_next(before.listener, event).1;
        assert(before.listener.phase != Phase::Closed);
        assert(before_quit(before.queued) == before.queued);
        if let ListenerEvent::Message(text, _) = event {
            assert(after.heard.drop_last() =~= before.heard);
        }
        if action == ListenerAction::Quit {
            assert(before_quit(after.queued) =~= before.queued);
        } else if event == ListenerEvent::<Seq<char>>::Sent(true) {
            assert(texts(after.queued).drop_last() =~= texts(before.queued));
            assert(texts(after.queued).last() == before.pending.text);
        }
    } else {
        assert(texts(before_quit(bridge_begin().queued)).len() == 0);
    }
}

/// The queue is the host's commands with some left out, in the order in which they came, and `quit`
/// behind them once the host has quit or is gone.
pub proof fn law_queue_keeps_the_order_of_the_host(events: Seq<ListenerEvent<Seq<char>>>)
    requires
        is_course(events),
    ensures
        is_subsequence(
            texts(before_quit(bridge_after(events).queued)),
            bridge_after(events).heard,
        ),
        has_quit(bridge_after(events).queued) ==> bridge_after(events).queued.last().text
            == "quit"@,
{
    course_is_consistent(events);
}

/// `stop` is never queued: the listener sees to it itself.
pub proof fn law_stop_is_never_queued(events: Seq<ListenerEvent<Seq<char>>>, i: int)
    requires
        is_course(events),
        0 <= i < bridge_after(events).queued.len(),
    ensures
        asks(bridge_after(events).queued[i]) != Verb::Stop,
{
    course_is_consistent(events);
    control_words_are_commands();
    let queued = bridge_after(events).queued;
    assert(i < before_quit(queued).len() || queued[i] == queued.last());
}

/// Acknowledgements go with every queued `go`, and with nothing else.
pub proof fn law_acknowledgements_go_with_go_alone(events: Seq<ListenerEvent<Seq<char>>>, i: int)
    requires
        is_course(events),
        0 <= i < bridge_after(events).queued.len(),
    ensures
        bridge_after(events).queued[i].followed == (asks(bridge_after(events).queued[i])
            == Verb::Go),
{
    course_is_consistent(events);
    control_words_are_commands();
    let queued = bridge_after(events).queued;
    assert(i < before_quit(queued).len() || queued[i] == queued.last());
}

/// A queued `quit` is the last thing in the queue and stays so: the listener has ended, and no
/// event can make it queue anything more.
pub proof fn law_quit_is_queued_last(events: Seq<ListenerEvent<Seq<char>>>, i: int)
    requires
        is_course(events),
        0 <= i < bridge_after(events).queued.len(),
        asks(bridge_after(events).queued[i]) == Verb::Quit,
    ensures
        i == bridge_after(events).queued.len() - 1,
        forall|event: ListenerEvent<Seq<char>>| !is_course(#[trigger] events.push(event)),
{
    course_is_consistent(events);
    let queued = bridge_after(events).queued;
    assert(!(i < before_quit(queued).len()));
    assert forall|event: ListenerEvent<Seq<char>>| !is_course(
        #[trigger] events.push(event),
    ) by {
        assert(events.push(event).drop_last() =~= events);
    }
}

/// Once the host has quit or closed its channel, `quit` is queued.
pub proof fn law_quit_is_queued(
    events: Seq<ListenerEvent<Seq<char>>>,
    event: ListenerEvent<Seq<char>>,
)
    requires
        is_course(events.push(event)),
        event is Disconnected || (event matches ListenerEvent::Message(text, _) && verb_of(
            words(text),
        ) == Verb::Quit),
    ensures
        has_quit(bridge_after(events.push(event)).queued),
{
    control_words_are_commands();
    assert(events.push(event).drop_last() =~= events);
}

/// Whether a search is known to be going on that nobody has asked to stop, given what a message
/// tells of its end.
pub open spec fn is_busy(l: ChannelListener, over: bool) -> bool {
    l.searching && !over && !l.stop_requested
}

/// Unless an unstopped search is going on, every command but `stop` and `quit` is about to be
/// queued: a `go` with acknowledgements, and anything else without.
pub proof fn law_commands_are_queued_between_searches(
    l: ChannelListener,
    text: Seq<char>,
    over: bool,
)
    requires
        l.phase == Phase::Receiving,
        l.well_formed(),
        !is_busy(l, over),
        verb_of(words(text)) != Verb::Stop,
        verb_of(words(text)) != Verb::Quit,
    ensures
        ({
            let (next, action) = listener_next(l, ListenerEvent::Message(text, over));
            &&& action == if verb_of(words(text)) == Verb::Go {
                ListenerAction::Launch
            } else {
                ListenerAction::Forward
            }
            &&& next.phase == if verb_of(words(text)) == Verb::Go {
                Phase::Launching
            } else {
                Phase::Forwarding
            }
            &&& next.searching == (l.searching && !over)
            &&& next.stop_requested == (l.stop_requested && !over)
        }),
{
}

/// While an unstopped search is going on, `isready` is answered, every other command but `stop` and
/// `quit` is dropped, and the listener stays as it is.
pub proof fn law_commands_are_dropped_during_a_search(
    l: ChannelListener,
    text: Seq<char>,
    over: bool,
)
    requires
        l.phase == Phase::Receiving,
        is_busy(l, over),
        verb_of(words(text)) != Verb::Stop,
        verb_of(words(text)) != Verb::Quit,
    ensures
        listener_next(l, ListenerEvent::Message(text, over)) == (
            l,
            if verb_of(words(text)) == Verb::IsReady {
                ListenerAction::Ready
            } else {
                ListenerAction::Ignore
            },
        ),
{
}

/// `stop` is remembered exactly if a search is going on, and the listener goes on receiving. `quit`
/// ends it.
pub proof fn law_controls(l: ChannelListener, text: Seq<char>, over: bool)
    requires
        l.phase == Phase::Receiving,
        l.well_formed(),
    ensures
        verb_of(words(text)) == Verb::Stop ==> listener_next(
            l,
            ListenerEvent::Message(text, over),
        ) == (
            ChannelListener {
                phase: Phase::Receiving,
                searching: l.searching && !over,
                stop_requested: l.searching && !over,
            },
            ListenerAction::Stop,
        ),
        verb_of(words(text)) == Verb::Quit ==> {
            let (next, action) = listener_next(l, ListenerEvent::Message(text, over));
            next.phase == Phase::Closed && action == ListenerAction::Quit
        },
{
}

/// What the listener makes of everything that is no command. It ends when it is told to, when it has
/// nobody to queue for and when its `go` was lost. It waits for the start of the search of a queued
/// `go`, and receives again after anything else that was queued.
pub proof fn law_other_events(l: ChannelListener)
    ensures
        ({
            let (next, action) = listener_next(l, ListenerEvent::Shutdown);
            next.phase == Phase::Closed && action == ListenerAction::Leave
        }),
        ({
            let (next, action) = listener_next(l, ListenerEvent::Disconnected);
            next.phase == Phase::Closed && action == ListenerAction::Quit
        }),
        listener_next(l, ListenerEvent::Timeout) == (l, ListenerAction::Receive),
        ({
            let (next, action) = listener_next(l, ListenerEvent::Sent(false));
            next.phase == Phase::Closed && action == ListenerAction::Leave
        }),
        l.phase == Phase::Forwarding ==> listener_next(l, ListenerEvent::Sent(true)) == (
            ChannelListener { phase: Phase::Receiving, ..l },
            ListenerAction::Receive,
        ),
        l.phase == Phase::Launching ==> listener_next(l, ListenerEvent::Sent(true)) == (
            ChannelListener { phase: Phase::AwaitingStart, ..l },
            ListenerAction::AwaitStart,
        ),
        listener_next(l, ListenerEvent::Started) == (
            ChannelListener { phase: Phase::Receiving, searching: true, stop_requested: false },
            ListenerAction::Receive,
        ),
        listener_next(l, ListenerEvent::StartTimeout(false)) == (l, ListenerAction::AwaitStart),
        ({
            let (next, action) = listener_next(l, ListenerEvent::StartTimeout(true));
            next.phase == Phase::Closed && action == ListenerAction::Leave
        }),
        ({
            let (next, action) = listener_next(l, ListenerEvent::StartLost);
            next.phase == Phase::Closed && action == ListenerAction::Leave
        }),
{
}

/// Which events fit which phase: commands and their absence while receiving, the outcome of queueing
/// while queueing, word of the start while awaiting it, and nothing in the end.
pub proof fn law_events_fit_their_phase(l: ChannelListener, event: ListenerEvent<Seq<char>>)
    ensures
        event is Message || event is Timeout || event is Disconnected || event is Shutdown ==> (
        event_fits(l.phase, event) <==> l.phase == Phase::Receiving),
        event is Sent ==> (event_fits(l.phase, event) <==> l.phase == Phase::Forwarding || l.phase
            == Phase::Launching),
        event is Started || event is StartTimeout || event is StartLost ==> (event_fits(
            l.phase,
            event,
        ) <==> l.phase == Phase::AwaitingStart),
{
}

/// Whether the event tells that the known search is over.
pub open spec fn tells_of_end(event: ListenerEvent<Seq<char>>) -> bool {
    event matches ListenerEvent::Message(_, over) && over
}

/// Whether the event is a `stop` from the host.
pub open spec fn is_stop(event: ListenerEvent<Seq<char>>) -> bool {
    event matches ListenerEvent::Message(text, _) && verb_of(words(text)) == Verb::Stop
}

/// Whether the search that started at event `j` is the last that did, and was not told to be over.
pub open spec fn is_last_search(events: Seq<ListenerEvent<Seq<char>>>, j: int) -> bool {
    &&& 0 <= j < events.len()
    &&& events[j] is Started
    &&& forall|k: int|
        j < k < events.len() ==> !(#[trigger] events[k] is Started) && !tells_of_end(events[k])
}

/// Whether a `stop` came after event `j`.
pub open spec fn is_stopped_after(events: Seq<ListenerEvent<Seq<char>>>, j: int) -> bool {
    exists|k: int| j < k < events.len() && is_stop(#[trigger] events[k])
}

proof fn search_goes_on(
    events: Seq<ListenerEvent<Seq<char>>>,
    event: ListenerEvent<Seq<char>>,
    j: int,
)
    requires
        0 <= j < events.len(),
    ensures
        is_last_search(events.push(event), j) <==> is_last_search(events, j)
            && !(event is Started) && !tells_of_end(event),
        is_stopped_after(events.push(event), j) <==> is_stopped_after(events, j) || is_stop(event),
{
    let longer = events.push(event);
    assert(longer[events.len() as int] == event);
    assert(longer[j] == events[j]);
    if is_last_search(longer, j) {
        assert forall|k: int| j < k < events.len() implies !(#[trigger] events[k] is Started)
            && !tells_of_end(events[k]) by {
            assert(longer[k] == events[k]);
        }
    }
    if is_last_search(events, j) && !(event is Started) && !tells_of_end(event) {
        assert forall|k: int| j < k < longer.len() implies !(#[trigger] longer[k] is Started)
            && !tells_of_end(longer[k]) by {
            if k < events.len() {
                assert(longer[k] == events[k]);
            }
        }
    }
    if is_stopped_after(events, j) {
        let k = choose|k: int| j < k < events.len() && is_stop(#[trigger] events[k]);
        assert(is_stop(longer[k]));
    }
    if is_stopped_after(longer, j) && !is_stop(event) {
        let k = choose|k: int| j < k < longer.len() && is_stop(#[trigger] longer[k]);
        assert(is_stop(events[k]));
    }
}

/// The listener knows of a search exactly if one was started, no other was since, and none of the
/// messages since then told of its end. It knows of a stop exactly if one came during that search.
pub proof fn law_listener_knows_its_search(events: Seq<ListenerEvent<Seq<char>>>)
    requires
        is_course(events),
    ensures
        bridge_after(events).listener.searching <==> exists|j: int|
            #[trigger] is_last_search(events, j),
        bridge_after(events).listener.stop_requested <==> exists|j: int|
            #[trigger] is_last_search(events, j) && is_stopped_after(events, j),
    decreases events.len(),
{
    if events.len() > 0 {
        let front = events.drop_last();
        let event = events.last();
        law_listener_knows_its_search(front);
        assert(events =~= front.push(event));
        let before = bridge_after(front).listener;
        let after = bridge_after(events).listener;
        let n = front.len() as int;
        assert forall|j: int| 0 <= j < n implies (#[trigger] is_last_search(events, j)
            <==> is_last_search(front, j) && !(event is Started) && !tells_of_end(event)) && (
        is_stopped_after(events, j) <==> is_stopped_after(front, j) || is_stop(event)) by {
            search_goes_on(front, event, j);
        }
        if event is Started {
            assert(is_last_search(events, n));
            assert(!is_stopped_after(events, n));
        } else {
            assert(!is_last_search(events, n));
            if after.searching {
                let j = choose|j: int| #[trigger] is_last_search(front, j);
                assert(is_last_search(events, j));
            }
            if after.stop_requested {
                if before.stop_requested {
                    let j = choose|j: int|
                        #[trigger] is_last_search(front, j) && is_stopped_after(front, j);
                    assert(is_last_search(events, j) && is_stopped_after(events, j));
                } else {
                    let j = choose|j: int| #[trigger] is_last_search(front, j);
                    assert(is_last_search(events, j) && is_stopped_after(events, j));
                }
            }
        }
    }
}

/// A command that comes while no unstopped search is known, and is neither `stop` nor `quit`, is
/// queued next, as it was sent: once queueing has succeeded, the queue is longer by that command.
pub proof fn law_command_joins_the_queue(
    events: Seq<ListenerEvent<Seq<char>>>,
    text: Seq<char>,
    over: bool,
)
    requires
        is_course(events.push(ListenerEvent::Message(text, over))),
        !is_busy(bridge_after(events).listener, over),
        verb_of(words(text)) != Verb::Stop,
        verb_of(words(text)) != Verb::Quit,
    ensures
        ({
            let heard = events.push(ListenerEvent::Message(text, over));
            let sent = heard.push(ListenerEvent::Sent(true));
            &&& is_course(sent)
            &&& bridge_after(heard).queued == bridge_after(events).queued
            &&& bridge_after(sent).queued == bridge_after(events).queued.push(
                QueuedView { text, followed: verb_of(words(text)) == Verb::Go },
            )
        }),
{
    let heard = events.push(ListenerEvent::Message(text, over));
    let sent = heard.push(ListenerEvent::Sent(true));
    assert(heard.drop_last() =~= events);
    assert(sent.drop_last() =~= heard);
}

/// Nothing else joins the queue: not `stop`, nor a command that comes during an unstopped search,
/// nor anything at an event that is neither a command, nor the success of queueing one, nor the end
/// of the host's channel.
pub proof fn law_nothing_else_joins_the_queue(
    events: Seq<ListenerEvent<Seq<char>>>,
    event: ListenerEvent<Seq<char>>,
)
    requires
        is_course(events.push(event)),
        event matches ListenerEvent::Message(text, over) ==> verb_of(words(text)) != Verb::Quit,
        event != ListenerEvent::<Seq<char>>::Sent(true),
        !(event is Disconnected),
    ensures
        bridge_after(events.push(event)).queued == bridge_after(events).queued,
        event matches ListenerEvent::Message(text, over) ==> (verb_of(words(text)) == Verb::Stop
            || is_busy(bridge_after(events).listener, over)) ==> bridge_after(
            events.push(event),
        ).listener.phase == Phase::Receiving,
{
    assert(events.push(event).drop_last() =~= events);
}

/// A line of standard input is a control line exactly if it is one of the three words with nothing
/// but white space behind it. Any other line is queued, or dropped while a search is running.
pub proof fn law_stdin_lines(line: Seq<char>, tail: Seq<char>, running: bool)
    requires
        line.len() > 0 ==> !is_space(line.last()),
        forall|i: int| 0 <= i < tail.len() ==> is_space(#[trigger] tail[i]),
    ensures
        stdin_action(line + tail, running) == StdinAction::Ready <==> line == "isready"@,
        stdin_action(line + tail, running) == StdinAction::Stop <==> line == "stop"@,
        stdin_action(line + tail, running) == StdinAction::Quit <==> line == "quit"@,
        line != "isready"@ && line != "stop"@ && line != "quit"@ ==> stdin_action(
            line + tail,
            running,
        ) == if running {
            StdinAction::Ignore
        } else {
            StdinAction::Forward
        },
{
    law_trimming_finds_the_line(line, tail);
    reveal_strlit("isready");
    reveal_strlit("stop");
    reveal_strlit("quit");
    assert("isready"@[0] == 'i');
    assert("stop"@[0] == 's');
    assert("quit"@[0] == 'q');
}

} // verus!

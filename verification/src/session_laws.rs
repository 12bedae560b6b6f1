//! What holds of every session, from its first action to its last.

use vstd::prelude::*;

use crate::command::{notice_of, verb_of, Mode, Verb};
use crate::session::{
    hosted_session, initial_mode, leaving, order_of, session_at, session_next, session_receive,
    stdin_session, Action, Order, OrderView, Session, SessionView, Source, Stage,
};
use crate::text::{is_word, joined, law_joined_words_split_again, words};

verus! {

/// Whether a session may go from `a` to `b` by asking for `action`.
pub open spec fn session_step(a: SessionView, b: SessionView, action: Action) -> bool {
    ||| (b, action) == session_next(a)
    ||| a.stage == Stage::Wait && exists|message: Option<Seq<char>>|
        (b, action) == #[trigger] session_receive(a, message)
}

/// Whether `states` are the states that a session goes through with these `actions`.
pub open spec fn is_session_run(states: Seq<SessionView>, actions: Seq<Action>) -> bool {
    &&& states.len() == actions.len() + 1
    &&& forall|i: int|
        0 <= i < actions.len() ==> #[trigger] session_step(states[i], states[i + 1], actions[i])
}

/// Whether the action belongs to the message loop and its listener.
pub open spec fn serves(action: Action) -> bool {
    match action {
        Action::BuildEngine
        | Action::StartListener
        | Action::Receive
        | Action::Execute
        | Action::StopListener => true,
        _ => false,
    }
}

/// A session keeps its source and its host.
pub proof fn run_keeps_host(states: Seq<SessionView>, actions: Seq<Action>, n: int)
    requires
        is_session_run(states, actions),
        0 <= n <= actions.len(),
    ensures
        states[n].source == states[0].source,
        states[n].hosted == states[0].hosted,
    decreases n,
{
    if n > 0 {
        run_keeps_host(states, actions, n - 1);
        assert(session_step(states[n - 1], states[n - 1 + 1], actions[n - 1]));
    }
}

/// The lookup tables come first and the evaluation network second, before any command. Then comes
/// the sink of a host, if there is one, and then the engine and its listener are set up.
pub proof fn law_session_opening(
    buffer: Seq<Seq<char>>,
    states: Seq<SessionView>,
    actions: Seq<Action>,
)
    requires
        is_session_run(states, actions),
        states[0] == stdin_session(buffer) || states[0] == hosted_session(buffer),
        actions.len() >= 5,
    ensures
        actions[0] == Action::InitializeLookup,
        actions[1] == Action::InitializeNetwork,
        states[0].hosted ==> actions[2] == Action::InstallSink && actions[3] == Action::BuildEngine
            && actions[4] == Action::StartListener,
        !states[0].hosted ==> actions[2] == Action::BuildEngine && actions[3]
            == Action::StartListener,
{
    assert(session_step(states[0], states[0int + 1], actions[0]));
    assert(session_step(states[1], states[1int + 1], actions[1]));
    assert(session_step(states[2], states[2int + 1], actions[2]));
    assert(session_step(states[3], states[3int + 1], actions[3]));
    assert(session_step(states[4], states[4int + 1], actions[4]));
}

/// Whether a session in this state is past its message loop.
pub open spec fn has_left(s: SessionView) -> bool {
    s.stage == Stage::Clear || s.stage == Stage::Over
}

proof fn leaving_is_final(states: Seq<SessionView>, actions: Seq<Action>, i: int, j: int)
    requires
        is_session_run(states, actions),
        0 <= i <= j <= actions.len(),
        has_left(states[i]),
    ensures
        has_left(states[j]),
    decreases j - i,
{
    if i < j {
        leaving_is_final(states, actions, i, j - 1);
        assert(session_step(states[j - 1], states[j - 1 + 1], actions[j - 1]));
    }
}

/// Once the listener is shut down, no command is received or carried out any more: the session only
/// clears the sink and returns.
pub proof fn law_nothing_is_served_after_the_listener(
    states: Seq<SessionView>,
    actions: Seq<Action>,
    i: int,
    j: int,
)
    requires
        is_session_run(states, actions),
        0 <= i < j < actions.len(),
        actions[i] == Action::StopListener,
    ensures
        actions[j] == Action::ClearSink || actions[j] == Action::Exit,
{
    assert(session_step(states[i], states[i + 1], actions[i]));
    leaving_is_final(states, actions, i + 1, j);
    assert(session_step(states[j], states[j + 1], actions[j]));
}

proof fn channel_leaves_through_listener(
    states: Seq<SessionView>,
    actions: Seq<Action>,
    n: int,
)
    requires
        is_session_run(states, actions),
        states[0].source == Source::Channel,
        !has_left(states[0]),
        0 <= n <= actions.len(),
        has_left(states[n]),
    ensures
        exists|i: int| 0 <= i < n && #[trigger] actions[i] == Action::StopListener,
    decreases n,
{
    run_keeps_host(states, actions, n - 1);
    assert(session_step(states[n - 1], states[n - 1 + 1], actions[n - 1]));
    if has_left(states[n - 1]) {
        channel_leaves_through_listener(states, actions, n - 1);
        let i = choose|i: int| 0 <= i < n - 1 && #[trigger] actions[i] == Action::StopListener;
        assert(actions[i] == Action::StopListener);
    } else {
        assert(actions[n - 1] == Action::StopListener);
    }
}

/// A session on a channel does not return before its listener was shut down, however it left the
/// message loop.
pub proof fn law_channel_session_stops_its_listener(
    states: Seq<SessionView>,
    actions: Seq<Action>,
    n: int,
)
    requires
        is_session_run(states, actions),
        states[0].source == Source::Channel,
        !has_left(states[0]),
        0 <= n < actions.len(),
        actions[n] == Action::Exit,
    ensures
        exists|i: int| 0 <= i < n && #[trigger] actions[i] == Action::StopListener,
{
    run_keeps_host(states, actions, n);
    assert(session_step(states[n], states[n + 1], actions[n]));
    channel_leaves_through_listener(states, actions, n);
}

proof fn buffer_only_shrinks(states: Seq<SessionView>, actions: Seq<Action>, n: int)
    requires
        is_session_run(states, actions),
        0 <= n <= actions.len(),
        states[0].stage != Stage::Wait,
    ensures
        states[n].buffer.len() <= states[0].buffer.len(),
        states[n].buffer == states[0].buffer.skip(
            states[0].buffer.len() - states[n].buffer.len(),
        ),
        states[n].stage == Stage::Wait ==> states[n].buffer.len() == 0,
    decreases n,
{
    let all = states[0].buffer;
    if n == 0 {
        assert(all.skip(0) == all);
    } else {
        buffer_only_shrinks(states, actions, n - 1);
        assert(session_step(states[n - 1], states[n - 1 + 1], actions[n - 1]));
        let left = states[n - 1].buffer;
        if states[n].buffer != left {
            assert(states[n].buffer == left.skip(1));
            assert(left.skip(1) == all.skip(all.len() - left.len() + 1));
        }
    }
}

/// The initial commands come first, in the order in which they were given: what is left of them is
/// always an end of their list, and nothing is received while one is left.
pub proof fn law_initial_commands_come_first(
    states: Seq<SessionView>,
    actions: Seq<Action>,
    i: int,
)
    requires
        is_session_run(states, actions),
        states[0].stage != Stage::Wait,
        0 <= i < actions.len(),
    ensures
        states[i].buffer.len() <= states[0].buffer.len(),
        states[i].buffer == states[0].buffer.skip(
            states[0].buffer.len() - states[i].buffer.len(),
        ),
        states[i].buffer.len() > 0 ==> actions[i] != Action::Receive,
        actions[i] == Action::Execute && states[i].buffer.len() > 0 ==> states[i + 1].order
            == Some(order_of(states[i].buffer[0], states[i].mode)),
{
    buffer_only_shrinks(states, actions, i);
    assert(session_step(states[i], states[i + 1], actions[i]));
}

proof fn uci_mode_stays(states: Seq<SessionView>, actions: Seq<Action>, i: int, j: int)
    requires
        is_session_run(states, actions),
        0 <= i <= j <= actions.len(),
        states[i].mode == Mode::Uci,
    ensures
        states[j].mode == Mode::Uci,
    decreases j - i,
{
    if i < j {
        uci_mode_stays(states, actions, i, j - 1);
        assert(session_step(states[j - 1], states[j - 1 + 1], actions[j - 1]));
    }
}

/// A session that listens goes on listening: it leaves the message loop on `quit` or when no more
/// commands can come, and for no other reason.
pub proof fn law_listening_lasts(
    states: Seq<SessionView>,
    actions: Seq<Action>,
    i: int,
    j: int,
)
    requires
        is_session_run(states, actions),
        0 <= i <= j < actions.len(),
        states[i].mode == Mode::Uci,
    ensures
        states[j].mode == Mode::Uci,
        !has_left(states[j]) && has_left(states[j + 1]) ==> {
            ||| states[j].stage == Stage::Wait && session_receive(states[j], None) == (
                states[j + 1],
                actions[j],
            )
            ||| states[j].stage == Stage::Wait && exists|text: Seq<char>|
                verb_of(#[trigger] words(text)) == Verb::Quit && session_receive(
                    states[j],
                    Some(text),
                ) == (states[j + 1], actions[j])
            ||| states[j].buffer.len() > 0 && verb_of(words(states[j].buffer[0])) == Verb::Quit
        },
{
    uci_mode_stays(states, actions, i, j);
    assert(session_step(states[j], states[j + 1], actions[j]));
    if !has_left(states[j]) && has_left(states[j + 1]) && states[j].stage == Stage::Wait {
        let message = choose|message: Option<Seq<char>>|
            (states[j + 1], actions[j]) == #[trigger] session_receive(states[j], message);
        match message {
            Some(text) => {
                assert(verb_of(words(text)) == Verb::Quit);
            },
            None => {},
        }
    }
}

/// Whether none of the commands makes a session listen or leave.
pub open spec fn is_plain_batch(commands: Seq<Seq<char>>) -> bool {
    forall|i: int|
        0 <= i < commands.len() ==> verb_of(words(#[trigger] commands[i])) != Verb::Uci && verb_of(
            words(commands[i]),
        ) != Verb::Quit
}

/// The session after `n` more actions, nothing being received.
pub open spec fn advanced(s: SessionView, n: nat) -> SessionView
    decreases n,
{
    if n == 0 {
        s
    } else {
        session_next(advanced(s, (n - 1) as nat)).0
    }
}

/// A session that was given commands and is not made to listen by one of them carries out each of
/// them, in order, and then leaves the message loop without receiving anything.
pub proof fn law_batch_runs_and_leaves(s: SessionView, n: nat)
    requires
        s.stage == Stage::Pick,
        s.mode == initial_mode(s.buffer),
        1 <= n <= s.buffer.len(),
        is_plain_batch(s.buffer),
    ensures
        session_next(advanced(s, (n - 1) as nat)).1 == Action::Execute,
        advanced(s, n).order == Some(order_of(s.buffer[n - 1], Mode::Cli)),
        advanced(s, n).buffer == s.buffer.skip(n as int),
        advanced(s, n).mode == Mode::Cli,
        advanced(s, n).stage == Stage::Settle,
        n == s.buffer.len() ==> session_next(advanced(s, n)) == leaving(advanced(s, n)),
    decreases n,
{
    let before = advanced(s, (n - 1) as nat);
    if n > 1 {
        law_batch_runs_and_leaves(s, (n - 1) as nat);
    } else {
        assert(s.buffer.skip(0) == s.buffer);
    }
    assert(before.buffer == s.buffer.skip(n - 1));
    assert(before.buffer[0] == s.buffer[n - 1]);
    assert(before.buffer.skip(1) == s.buffer.skip(n as int));
}

/// The orders that a session carries out in its message loop when these commands are received after
/// what is left of its initial ones, until it leaves or none is left.
pub open spec fn orders(s: SessionView, received: Seq<Seq<char>>) -> Seq<OrderView>
    decreases s.buffer.len() + received.len(),
    when s.stage == Stage::Pick || s.stage == Stage::Settle
{
    let (next, action) = session_next(s);
    match action {
        Action::Execute => seq![next.order->0] + orders(next, received),
        Action::Receive => if received.len() == 0 {
            seq![]
        } else {
            let (after, reaction) = session_receive(next, Some(received[0]));
            match reaction {
                Action::Execute => seq![after.order->0] + orders(after, received.skip(1)),
                _ => seq![],
            }
        },
        _ => seq![],
    }
}

/// For a session that listens, it makes no difference whether a command is an initial one or comes
/// from the listener: initial commands and then received ones are carried out like all of them
/// received.
pub proof fn law_initial_commands_are_like_received_ones(
    s: SessionView,
    initial: Seq<Seq<char>>,
    received: Seq<Seq<char>>,
)
    requires
        s.stage == Stage::Pick || s.stage == Stage::Settle,
        s.mode == Mode::Uci,
    ensures
        orders(SessionView { buffer: initial, ..s }, received) == orders(
            SessionView { buffer: seq![], ..s },
            initial + received,
        ),
    decreases initial.len(),
{
    let batch = SessionView { buffer: initial, ..s };
    let bare = SessionView { buffer: seq![], ..s };
    let all = initial + received;
    if initial.len() == 0 {
        assert(initial =~= seq![]);
        assert(all =~= received);
    } else {
        let order = order_of(initial[0], Mode::Uci);
        assert(all[0] == initial[0]);
        assert(all.skip(1) =~= initial.skip(1) + received);
        assert(order_of(initial[0], s.mode) == order);
        if order.verb != Verb::Quit {
            let next = SessionView { stage: Stage::Settle, order: Some(order), ..s };
            law_initial_commands_are_like_received_ones(next, initial.skip(1), received);
            assert(session_next(batch) == (
                SessionView { buffer: initial.skip(1), ..next },
                Action::Execute,
            ));
            let waiting = SessionView { stage: Stage::Wait, ..bare };
            assert(session_next(bare) == (waiting, Action::Receive));
            assert(session_receive(waiting, Some(all[0])) == (
                SessionView { buffer: seq![], ..next },
                Action::Execute,
            ));
        }
    }
}

/// An order is the whole command: its words are what it is told apart by, and all but the first are
/// its arguments, in order. It keeps the command as it was given and the mode in which it came, and
/// brings what is printed for such a command.
pub proof fn law_order_is_the_whole_command(text: Seq<char>, mode: Mode, i: int)
    ensures
        order_of(text, mode).text == text,
        order_of(text, mode).mode == mode,
        order_of(text, mode).verb == verb_of(words(text)),
        order_of(text, mode).notice == notice_of(verb_of(words(text)), text),
        words(text).len() == 0 ==> order_of(text, mode).args.len() == 0,
        words(text).len() > 0 ==> order_of(text, mode).args.len() == words(text).len() - 1,
        words(text).len() > 0 ==> seq![words(text)[0]] + order_of(text, mode).args == words(text),
        0 <= i < words(text).len() - 1 ==> order_of(text, mode).args[i] == words(text)[i + 1],
{
    if words(text).len() > 0 {
        assert(seq![words(text)[0]] + order_of(text, mode).args =~= words(text));
    }
}

/// A line of words gives the order with those words: what stands behind the first word of a command
/// reaches whoever carries it out, word for word.
pub proof fn law_arguments_reach_the_order(word: Seq<char>, args: Seq<Seq<char>>, mode: Mode)
    requires
        is_word(word),
        forall|i: int| 0 <= i < args.len() ==> is_word(#[trigger] args[i]),
    ensures
        order_of(joined(seq![word] + args, seq![' ']), mode).args == args,
        order_of(joined(seq![word] + args, seq![' ']), mode).verb == verb_of(seq![word] + args),
{
    let ws = seq![word] + args;
    assert forall|i: int| 0 <= i < ws.len() implies is_word(#[trigger] ws[i]) by {
        if i > 0 {
            assert(ws[i] == args[i - 1]);
        }
    }
    law_joined_words_split_again(ws);
    assert(ws.skip(1) =~= args);
}

/// A command that a listening session receives is carried out, whatever it is but `quit`: the order
/// is that of the command, and nothing else of the session changes but that `uci` makes it listen.
/// `quit` makes it leave, and so does the end of all commands.
pub proof fn law_received_commands_are_carried_out(s: SessionView, text: Seq<char>)
    requires
        s.stage == Stage::Wait,
    ensures
        verb_of(words(text)) != Verb::Quit ==> {
            let (next, action) = session_receive(s, Some(text));
            &&& action == Action::Execute
            &&& next.order == Some(order_of(text, s.mode))
            &&& next.buffer == s.buffer
            &&& next.source == s.source
            &&& next.hosted == s.hosted
            &&& next.stage == Stage::Settle
            &&& next.mode == Mode::Uci <==> s.mode == Mode::Uci || verb_of(words(text)) == Verb::Uci
        },
        verb_of(words(text)) == Verb::Quit ==> session_receive(s, Some(text)) == session_receive(
            s,
            None,
        ),
        ({
            let (next, action) = session_receive(s, None);
            &&& next == SessionView {
                stage: if s.source == Source::Channel && s.hosted {
                    Stage::Clear
                } else {
                    Stage::Over
                },
                ..s
            }
            &&& action == if s.source == Source::Channel {
                Action::StopListener
            } else {
                Action::Exit
            }
        }),
{
}

/// Between two commands the first of the initial ones that are left is carried out next and taken
/// off the list. Once none is left, a session that listens receives, and one that does not leaves.
pub proof fn law_next_command(s: SessionView)
    requires
        s.stage == Stage::Pick || s.stage == Stage::Settle,
    ensures
        s.buffer.len() > 0 && verb_of(words(s.buffer[0])) != Verb::Quit ==> {
            let (next, action) = session_next(s);
            &&& action == Action::Execute
            &&& next.order == Some(order_of(s.buffer[0], s.mode))
            &&& seq![s.buffer[0]] + next.buffer == s.buffer
            &&& next.source == s.source
            &&& next.hosted == s.hosted
            &&& next.stage == Stage::Settle
            &&& next.mode == Mode::Uci <==> s.mode == Mode::Uci || verb_of(words(s.buffer[0]))
                == Verb::Uci
        },
        s.buffer.len() > 0 && verb_of(words(s.buffer[0])) == Verb::Quit ==> has_left(
            session_next(s).0,
        ),
        s.buffer.len() == 0 && s.mode == Mode::Uci ==> session_next(s).1 == Action::Receive
            && session_next(s).0 == (SessionView { stage: Stage::Wait, ..s }),
        s.buffer.len() == 0 && s.mode == Mode::Cli ==> has_left(session_next(s).0),
        has_left(session_next(s).0) ==> {
            &&& session_next(s).1 == if s.source == Source::Channel {
                Action::StopListener
            } else {
                Action::Exit
            }
            &&& session_next(s).0.stage == Stage::Clear <==> s.source == Source::Channel && s.hosted
            &&& session_next(s).0.source == s.source
            &&& session_next(s).0.hosted == s.hosted
        },
{
    if s.buffer.len() > 0 {
        assert(seq![s.buffer[0]] + s.buffer.skip(1) =~= s.buffer);
    }
}

/// A session that has its sink to clear clears it and is then over. One that waits or is over goes on
/// doing so.
pub proof fn law_session_ending(s: SessionView)
    ensures
        s.stage == Stage::Clear ==> session_next(s) == (
            SessionView { stage: Stage::Over, ..s },
            Action::ClearSink,
        ),
        s.stage == Stage::Over ==> session_next(s) == (s, Action::Exit),
        s.stage == Stage::Wait ==> session_next(s) == (s, Action::Receive),
{
}

/// A session begins with all the commands it is given and with none carried out. It listens from
/// the start exactly if there is no command.
pub proof fn law_sessions_begin_with_all_commands(buffer: Seq<Seq<char>>)
    ensures
        stdin_session(buffer).buffer == buffer,
        stdin_session(buffer).source == Source::Stdin,
        !stdin_session(buffer).hosted,
        stdin_session(buffer).order is None,
        stdin_session(buffer).mode == Mode::Uci <==> buffer.len() == 0,
        hosted_session(buffer).buffer == buffer,
        hosted_session(buffer).source == Source::Channel,
        hosted_session(buffer).hosted,
        hosted_session(buffer).order is None,
        hosted_session(buffer).mode == Mode::Uci <==> buffer.len() == 0,
        session_at(Source::Stdin, false, Stage::Build, buffer) == (SessionView {
            stage: Stage::Build,
            ..stdin_session(buffer)
        }),
        session_at(Source::Channel, false, Stage::Build, buffer) == (SessionView {
            stage: Stage::Build,
            hosted: false,
            ..hosted_session(buffer)
        }),
{
}

/// A session that listens carries out every command that comes, in order, up to the first `quit`.
pub proof fn law_every_command_is_carried_out(s: SessionView, received: Seq<Seq<char>>, n: int)
    requires
        s.stage == Stage::Pick || s.stage == Stage::Settle,
        s.mode == Mode::Uci,
        s.buffer.len() == 0,
        0 <= n <= received.len(),
        forall|i: int| 0 <= i < n ==> verb_of(words(#[trigger] received[i])) != Verb::Quit,
        n < received.len() ==> verb_of(words(received[n])) == Verb::Quit,
    ensures
        orders(s, received).len() == n,
        forall|i: int|
            0 <= i < n ==> (#[trigger] orders(s, received)[i]).text == received[i] && orders(
                s,
                received,
            )[i].verb == verb_of(words(received[i])) && orders(s, received)[i].mode == Mode::Uci,
    decreases received.len(),
{
    let waiting = SessionView { stage: Stage::Wait, ..s };
    assert(session_next(s) == (waiting, Action::Receive));
    if received.len() > 0 && n > 0 {
        let order = order_of(received[0], Mode::Uci);
        let after = SessionView { stage: Stage::Settle, order: Some(order), ..s };
        assert(session_receive(waiting, Some(received[0])) == (after, Action::Execute));
        let rest = received.skip(1);
        assert forall|i: int| 0 <= i < n - 1 implies verb_of(words(#[trigger] rest[i]))
            != Verb::Quit by {
            assert(rest[i] == received[i + 1]);
        }
        law_every_command_is_carried_out(after, rest, n - 1);
        let all = orders(s, received);
        assert(all == seq![order] + orders(after, rest));
        assert forall|i: int| 0 <= i < n implies (#[trigger] all[i]).text == received[i]
            && all[i].verb == verb_of(words(received[i])) && all[i].mode == Mode::Uci by {
            if i > 0 {
                assert(all[i] == orders(after, rest)[i - 1]);
                assert(rest[i - 1] == received[i]);
            }
        }
    } else if received.len() > 0 {
        assert(session_receive(waiting, Some(received[0])).1 != Action::Execute);
    }
}

/// What a session and its order are seen to hold is all they hold.
pub proof fn law_session_is_seen_whole(session: Session, order: Order, i: int)
    ensures
        session@.source == session.source,
        session@.hosted == session.hosted,
        session@.stage == session.stage,
        session@.mode == session.mode,
        session@.buffer.len() == session.buffer@.len(),
        0 <= i < session.buffer@.len() ==> session@.buffer[i] == session.buffer@[i]@,
        session@.order is Some <==> session.order is Some,
        session.order matches Some(held) ==> session@.order == Some(held@),
        order@.verb == order.verb,
        order@.mode == order.mode,
        order@.text == order.text@,
        order@.notice == order.notice@,
        order@.args.len() == order.args@.len(),
        0 <= i < order.args@.len() ==> order@.args[i] == order.args@[i]@,
{
}

/// The actions around the message loop, each in its stage: the lookup tables, the network, the sink
/// if there is a host, the engine and the listener. Nothing else of the session changes.
pub proof fn law_stages_before_the_message_loop(s: SessionView)
    ensures
        s.stage == Stage::Lookup ==> session_next(s) == (
            SessionView { stage: Stage::Network, ..s },
            Action::InitializeLookup,
        ),
        s.stage == Stage::Network ==> session_next(s) == (
            SessionView {
                stage: if s.hosted {
                    Stage::Install
                } else {
                    Stage::Build
                },
                ..s
            },
            Action::InitializeNetwork,
        ),
        s.stage == Stage::Install ==> session_next(s) == (
            SessionView { stage: Stage::Build, ..s },
            Action::InstallSink,
        ),
        s.stage == Stage::Build ==> session_next(s) == (
            SessionView { stage: Stage::Listen, ..s },
            Action::BuildEngine,
        ),
        s.stage == Stage::Listen ==> session_next(s) == (
            SessionView { stage: Stage::Pick, ..s },
            Action::StartListener,
        ),
{
}

} // verus!

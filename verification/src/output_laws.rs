//! Where protocol lines go in a session, and what they look like.

use vstd::prelude::*;

use crate::command::{notice_of, Verb};
use crate::notice::Notice;
use crate::number::{decimal, decimal_is_numeral, is_digit, signed_decimal};
use crate::options::{option_of, tablebase_line, Features, Settings};
use crate::session::{hosted_session, stdin_session, Action, SessionView, Source, Stage};
use crate::session_laws::{is_session_run, run_keeps_host, serves, session_step};
use crate::text::{is_space, is_word, law_words_are_solid, owned_contents, words};
use crate::uci::{identity_lines, offer_line, offers, Identity, Offer};
use crate::vote::bestmove_line;
use crate::{emits, OutputSink};

verus! {

/// The output after the first `n` actions of a session, as `set_output_sink` leaves it: the sink of
/// the host is `out`, and `before` is the output before the session.
pub open spec fn output_after<F>(
    before: OutputSink<F>,
    out: F,
    actions: Seq<Action>,
    n: int,
) -> OutputSink<F>
    decreases n,
{
    if n <= 0 {
        before
    } else {
        match actions[n - 1] {
            Action::InstallSink => OutputSink { sink: Some(out) },
            Action::ClearSink => OutputSink { sink: None },
            _ => output_after(before, out, actions, n - 1),
        }
    }
}

/// The output of a session in this state.
spec fn output_at<F>(before: OutputSink<F>, out: F, s: SessionView) -> OutputSink<F> {
    if !s.hosted || s.stage == Stage::Lookup || s.stage == Stage::Network || s.stage
        == Stage::Install {
        before
    } else if s.stage == Stage::Over {
        OutputSink { sink: None }
    } else {
        OutputSink { sink: Some(out) }
    }
}

proof fn output_follows_stage<F>(
    states: Seq<SessionView>,
    actions: Seq<Action>,
    before: OutputSink<F>,
    out: F,
    n: int,
)
    requires
        is_session_run(states, actions),
        states[0].stage == Stage::Lookup,
        states[0].hosted ==> states[0].source == Source::Channel,
        0 <= n <= actions.len(),
    ensures
        output_after(before, out, actions, n) == output_at(before, out, states[n]),
        !states[n].hosted ==> states[n].stage != Stage::Install && states[n].stage != Stage::Clear,
    decreases n,
{
    if n > 0 {
        output_follows_stage(states, actions, before, out, n - 1);
        run_keeps_host(states, actions, n - 1);
        assert(session_step(states[n - 1], states[n - 1 + 1], actions[n - 1]));
    }
}

/// In a session of `run_io` the sink of the host is in place from the begin to the end of everything
/// that the message loop and its listener do, whatever sink there was before. When the session
/// returns, there is none.
pub proof fn law_sink_is_held_while_serving<F>(
    buffer: Seq<Seq<char>>,
    states: Seq<SessionView>,
    actions: Seq<Action>,
    before: OutputSink<F>,
    out: F,
    i: int,
)
    requires
        is_session_run(states, actions),
        states[0] == hosted_session(buffer),
        0 <= i < actions.len(),
    ensures
        serves(actions[i]) ==> {
            &&& output_after(before, out, actions, i).sink == Some(out)
            &&& output_after(before, out, actions, i + 1).sink == Some(out)
        },
        actions[i] == Action::Exit ==> output_after(before, out, actions, i).sink is None,
{
    output_follows_stage(states, actions, before, out, i);
    run_keeps_host(states, actions, i);
    assert(session_step(states[i], states[i + 1], actions[i]));
}

/// In a session of `run_io` every line that is emitted while the message loop or its listener is at
/// work is taken by the sink of the host, which is called with that line. None is left for standard
/// output.
pub proof fn law_host_gets_every_line<F: Fn(&str)>(
    buffer: Seq<Seq<char>>,
    states: Seq<SessionView>,
    actions: Seq<Action>,
    before: OutputSink<F>,
    out: F,
    i: int,
    line: &str,
    taken: bool,
)
    requires
        is_session_run(states, actions),
        states[0] == hosted_session(buffer),
        0 <= i < actions.len(),
        serves(actions[i]),
        emits(output_after(before, out, actions, i), line, taken),
    ensures
        taken,
        out.ensures((line,), ()),
{
    law_sink_is_held_while_serving(buffer, states, actions, before, out, i);
}

/// A session of `run` never touches the output: lines go where they went before it.
pub proof fn law_stdin_session_leaves_output_alone<F>(
    buffer: Seq<Seq<char>>,
    states: Seq<SessionView>,
    actions: Seq<Action>,
    before: OutputSink<F>,
    out: F,
    i: int,
)
    requires
        is_session_run(states, actions),
        states[0] == stdin_session(buffer),
        0 <= i < actions.len(),
    ensures
        actions[i] != Action::InstallSink,
        actions[i] != Action::ClearSink,
        output_after(before, out, actions, i) == before,
{
    output_follows_stage(states, actions, before, out, i);
    run_keeps_host(states, actions, i);
    assert(session_step(states[i], states[i + 1], actions[i]));
}

/// Whether the text is a line without its end: no line break stands in it or behind it.
pub open spec fn is_one_line(text: Seq<char>) -> bool {
    forall|i: int| 0 <= i < text.len() ==> #[trigger] text[i] != '\n'
}

proof fn word_is_one_line(w: Seq<char>)
    requires
        is_word(w),
    ensures
        is_one_line(w),
{
    assert(is_space('\n'));
}

proof fn number_is_one_line(n: int)
    ensures
        is_one_line(signed_decimal(n)),
        n >= 0 ==> is_one_line(decimal(n as nat)),
{
    let digits = decimal(if n < 0 {
        (-n) as nat
    } else {
        n as nat
    });
    decimal_is_numeral(if n < 0 {
        (-n) as nat
    } else {
        n as nat
    });
    assert forall|i: int| 0 <= i < digits.len() implies #[trigger] digits[i] != '\n' by {
        assert(is_digit(digits[i]));
    }
}

/// What is printed for a command by the message loop itself is one line.
pub proof fn law_notices_are_lines(verb: Verb, message: Seq<char>)
    ensures
        notice_of(verb, message) matches Notice::Line(line) ==> is_one_line(line),
{
    reveal_strlit("readyok");
}

/// What is printed for a `setoption` is one line.
pub proof fn law_option_notices_are_lines(
    settings: Settings,
    features: Features,
    command: Seq<char>,
    pieces: nat,
)
    requires
        words(command).len() > 0,
    ensures
        option_of(settings, features, words(command).skip(1)).1.notice matches Notice::Line(line)
            ==> is_one_line(line),
        is_one_line(tablebase_line(pieces)),
{
    reveal_strlit("info string set ");
    reveal_strlit(" to ");
    reveal_strlit(" MB");
    reveal_strlit(" ms");
    reveal_strlit("info string Hash cleared");
    reveal_strlit("info string Loaded Syzygy tablebases with ");
    reveal_strlit(" pieces");
    number_is_one_line(pieces as int);
    law_words_are_solid(command);
    let tokens = words(command).skip(1);
    if tokens.len() == 4 {
        assert(tokens[1] == words(command)[2] && tokens[3] == words(command)[4]);
        word_is_one_line(tokens[1]);
        word_is_one_line(tokens[3]);
    }
}

proof fn offers_are_lines(offer: Offer)
    requires
        match offer {
            Offer::Spin { name, .. } | Offer::Check { name, .. } | Offer::Text { name } =>
                is_one_line(name),
            Offer::ClearHash => true,
        },
    ensures
        is_one_line(offer_line(offer)),
{
    reveal_strlit("option name ");
    reveal_strlit(" type spin default ");
    reveal_strlit(" min ");
    reveal_strlit(" max ");
    reveal_strlit(" type check default ");
    reveal_strlit("true");
    reveal_strlit("false");
    reveal_strlit("option name Clear Hash type button");
    reveal_strlit(" type string default");
    if let Offer::Spin { default, min, max, .. } = offer {
        number_is_one_line(default as int);
        number_is_one_line(min as int);
        number_is_one_line(max as int);
    }
}

/// What is printed in reply to `uci` are single lines, if the version is one and the lines of the
/// search parameters are.
pub proof fn law_identity_lines_are_lines(id: Identity, features: Features, i: int)
    requires
        is_one_line(id.version@),
        forall|j: int|
            0 <= j < id.tunables@.len() ==> is_one_line(#[trigger] owned_contents(id.tunables@)[j]),
        0 <= i < identity_lines(id, features).len(),
    ensures
        is_one_line(identity_lines(id, features)[i]),
{
    reveal_strlit("id name Reckless ");
    reveal_strlit("id author Arseniy Surkov, Shahin M. Shahin, and Styx");
    reveal_strlit("uciok");
    reveal_strlit("Hash");
    reveal_strlit("Threads");
    reveal_strlit("MoveOverhead");
    reveal_strlit("Minimal");
    reveal_strlit("UCI_Chess960");
    reveal_strlit("MultiPV");
    reveal_strlit("SyzygyPath");
    let count = offers(id, features).len();
    if 2 <= i < count + 2 {
        offers_are_lines(offers(id, features)[i - 2]);
    }
}

/// What is printed at the end of a search is one line, if the name of the move is, and so is what is
/// printed for `eval`.
pub proof fn law_results_are_lines(mv: Option<Seq<char>>, score: int)
    requires
        mv matches Some(text) ==> is_one_line(text),
    ensures
        is_one_line(bestmove_line(mv)),
        is_one_line(signed_decimal(score)),
{
    reveal_strlit("bestmove ");
    reveal_strlit("bestmove (none)");
    number_is_one_line(score);
}

/// A line is taken exactly if there is a sink: without one it is left to be printed.
pub proof fn law_lines_are_taken_by_a_sink_alone<F: Fn(&str)>(
    output: OutputSink<F>,
    line: &str,
    taken: bool,
)
    requires
        emits(output, line, taken),
    ensures
        taken <==> output.sink is Some,
        output.sink matches Some(f) ==> f.ensures((line,), ()),
{
}

} // verus!

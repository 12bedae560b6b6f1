//! The message loop and the replies it makes by itself.

use std::collections::VecDeque;

use vstd::prelude::*;

use crate::limits::Color;
use crate::notice::Notice;
use crate::number::{
    decimal, integer, law_integer_round_trip, law_natural_round_trip, natural_up_to, render,
    render_signed, signed_decimal,
};
use crate::options::{
    default_settings, option_accepted, option_of, tablebase_notice, EngineChange, Features,
    OptionEffect, Report, Settings,
};
use crate::search::plan_of;
use crate::session::{session_at, Session, Source, Stage};
use crate::text::{joined, owned_contents, trimmed};

verus! {

/// A message loop that carries out the commands in `buffer` and then, if it listens, those that
/// come from standard input.
pub fn message_loop(buffer: VecDeque<String>) -> (res: Session)
    ensures
        res@ == session_at(Source::Stdin, false, Stage::Build, owned_contents(buffer@)),
{
    Session::starting_at(Source::Stdin, false, Stage::Build, buffer)
}

/// A message loop that carries out the commands in `buffer` and then, if it listens, those that
/// come from a channel of the host. Its listener is shut down when the loop is left.
pub fn message_loop_with_channel(buffer: VecDeque<String>) -> (res: Session)
    ensures
        res@ == session_at(Source::Channel, false, Stage::Build, owned_contents(buffer@)),
{
    Session::starting_at(Source::Channel, false, Stage::Build, buffer)
}

/// What the engine says of itself in its reply to `uci`.
#[derive(Debug)]
pub struct Identity {
    /// The version of the engine.
    pub version: String,
    /// The size of the transposition table at the start, in megabytes.
    pub default_hash: u64,
    /// The most search threads that may be asked for.
    pub max_threads: u64,
    /// The most principal variations that may be asked for.
    pub max_moves: u64,
    /// The `option` lines of the search parameters, for an engine in which they can be tuned.
    pub tunables: Vec<String>,
}

/// An option that the engine offers.
pub enum Offer {
    /// A number within bounds.
    Spin { name: Seq<char>, default: nat, min: nat, max: nat },
    /// `true` or `false`.
    Check { name: Seq<char>, on: bool },
    /// The button that clears the transposition table.
    ClearHash,
    /// A text, empty at first.
    Text { name: Seq<char> },
}

/// A switch as it is written.
pub open spec fn switch(on: bool) -> Seq<char> {
    if on {
        "true"@
    } else {
        "false"@
    }
}

/// The line that offers an option.
pub open spec fn offer_line(offer: Offer) -> Seq<char> {
    match offer {
        Offer::Spin { name, default, min, max } => "option name "@ + name + " type spin default "@
            + decimal(default) + " min "@ + decimal(min) + " max "@ + decimal(max),
        Offer::Check { name, on } => "option name "@ + name + " type check default "@ + switch(on),
        Offer::ClearHash => "option name Clear Hash type button"@,
        Offer::Text { name } => "option name "@ + name + " type string default"@,
    }
}

/// The options that the engine offers besides search parameters.
pub open spec fn offers(id: Identity, features: Features) -> Seq<Offer> {
    seq![
        Offer::Spin { name: "Hash"@, default: id.default_hash as nat, min: 1, max: 262144 },
        Offer::Spin { name: "Threads"@, default: 1, min: 1, max: id.max_threads as nat },
        Offer::Spin { name: "MoveOverhead"@, default: 100, min: 0, max: 2000 },
        Offer::Check { name: "Minimal"@, on: false },
        Offer::ClearHash,
        Offer::Check { name: "UCI_Chess960"@, on: false },
        Offer::Spin { name: "MultiPV"@, default: 1, min: 1, max: id.max_moves as nat },
    ] + (if features.syzygy {
        seq![Offer::Text { name: "SyzygyPath"@ }]
    } else {
        seq![]
    })
}

/// The reply to `uci`.
pub open spec fn identity_lines(id: Identity, features: Features) -> Seq<Seq<char>> {
    seq![
        "id name Reckless "@ + id.version@,
        "id author Arseniy Surkov, Shahin M. Shahin, and Styx"@,
    ] + offers(id, features).map_values(|offer: Offer| offer_line(offer)) + (if features.spsa {
        owned_contents(id.tunables@)
    } else {
        seq![]
    }) + seq!["uciok"@]
}

/// The line that offers a number.
fn spin_line(name: &str, default: u64, min: u64, max: u64) -> (res: String)
    ensures
        res@ == offer_line(
            Offer::Spin {
                name: name@,
                default: default as nat,
                min: min as nat,
                max: max as nat,
            },
        ),
{
    let mut res = "option name ".to_owned();
    res.append(name);
    res.append(" type spin default ");
    res.append(render(default).as_str());
    res.append(" min ");
    res.append(render(min).as_str());
    res.append(" max ");
    res.append(render(max).as_str());
    res
}

/// The line that offers a switch.
fn check_line(name: &str, on: bool) -> (res: String)
    ensures
        res@ == offer_line(Offer::Check { name: name@, on }),
{
    let mut res = "option name ".to_owned();
    res.append(name);
    res.append(" type check default ");
    res.append(
        if on {
            "true"
        } else {
            "false"
        },
    );
    res
}

/// The line that offers a text.
fn text_line(name: &str) -> (res: String)
    ensures
        res@ == offer_line(Offer::Text { name: name@ }),
{
    let mut res = "option name ".to_owned();
    res.append(name);
    res.append(" type string default");
    res
}

/// Appends one line.
fn add_line(lines: &mut Vec<String>, line: String)
    ensures
        owned_contents(final(lines)@) == owned_contents(old(lines)@).push(line@),
{
    let ghost held = lines@;
    lines.push(line);
    assert(owned_contents(lines@) == owned_contents(held).push(line@));
}

/// The lines of the reply to `uci`.
pub fn uci(id: &Identity, features: Features) -> (res: Vec<String>)
    ensures
        owned_contents(res@) == identity_lines(*id, features),
{
    let mut lines: Vec<String> = Vec::new();
    assert(owned_contents(lines@) == Seq::<Seq<char>>::empty());
    let mut name = "id name Reckless ".to_owned();
    name.append(id.version.as_str());
    add_line(&mut lines, name);
    add_line(&mut lines, "id author Arseniy Surkov, Shahin M. Shahin, and Styx".to_owned());
    add_line(&mut lines, spin_line("Hash", id.default_hash, 1, 262144));
    add_line(&mut lines, spin_line("Threads", 1, 1, id.max_threads));
    add_line(&mut lines, spin_line("MoveOverhead", 100, 0, 2000));
    add_line(&mut lines, check_line("Minimal", false));
    add_line(&mut lines, "option name Clear Hash type button".to_owned());
    add_line(&mut lines, check_line("UCI_Chess960", false));
    add_line(&mut lines, spin_line("MultiPV", 1, 1, id.max_moves));
    if features.syzygy {
        add_line(&mut lines, text_line("SyzygyPath"));
    }
    let ghost expected = seq![
        "id name Reckless "@ + id.version@,
        "id author Arseniy Surkov, Shahin M. Shahin, and Styx"@,
    ] + offers(*id, features).map_values(|offer: Offer| offer_line(offer));
    assert(owned_contents(lines@) =~= expected);
    if features.spsa {
        let mut i: usize = 0;
        while i < id.tunables.len()
            invariant
                i <= id.tunables.len(),
                owned_contents(lines@) == expected + owned_contents(id.tunables@).take(i as int),
            decreases id.tunables.len() - i,
        {
            add_line(&mut lines, id.tunables[i].clone());
            assert(owned_contents(id.tunables@).take(i + 1) == owned_contents(id.tunables@).take(
                i as int,
            ).push(id.tunables@[i as int]@));
            i = i + 1;
        }
        assert(owned_contents(id.tunables@).take(i as int) == owned_contents(id.tunables@));
    }
    add_line(&mut lines, "uciok".to_owned());
    assert(owned_contents(lines@) =~= identity_lines(*id, features));
    lines
}

/// The lines of the reply to `compiler`.
pub fn compiler(version: &str, target: &str, features: &str) -> (res: Vec<String>)
    ensures
        owned_contents(res@) == seq![
            "Compiler Version: "@ + version@,
            "Compiler Target: "@ + target@,
            "Compiler Features: "@ + features@,
        ],
{
    let mut lines: Vec<String> = Vec::new();
    assert(owned_contents(lines@) == Seq::<Seq<char>>::empty());
    add_line(&mut lines, "Compiler Version: ".to_owned().concat(version));
    add_line(&mut lines, "Compiler Target: ".to_owned().concat(target));
    add_line(&mut lines, "Compiler Features: ".to_owned().concat(features));
    lines
}

/// The reply to `eval`: the evaluation as White sees it, from that of the side to move.
pub fn eval(side: Color, score: i32) -> (res: String)
    requires
        side == Color::Black ==> score > i32::MIN,
    ensures
        res@ == signed_decimal(
            match side {
                Color::White => score as int,
                Color::Black => -score,
            },
        ),
{
    let value: i32 = match side {
        Color::White => score,
        Color::Black => -score,
    };
    render_signed(value)
}

/// Something that `ucinewgame` clears. The correction tables exist once for each replica.
#[derive(Copy, Clone, Debug, PartialEq, Eq, Structural)]
pub enum ResetStep {
    /// The search threads.
    Threads,
    /// The transposition table.
    Table,
    /// The pawn corrections of a replica.
    Pawn(usize),
    /// The minor piece corrections of a replica.
    Minor(usize),
    /// The corrections of a replica for the pieces of one side other than pawns.
    NonPawn(usize, Color),
}

/// What is cleared in a replica.
pub open spec fn replica_steps(replica: usize) -> Seq<ResetStep> {
    seq![
        ResetStep::Pawn(replica),
        ResetStep::Minor(replica),
        ResetStep::NonPawn(replica, Color::White),
        ResetStep::NonPawn(replica, Color::Black),
    ]
}

/// What a new game clears, in order.
pub open spec fn reset_steps(replicas: nat) -> Seq<ResetStep>
    decreases replicas,
{
    if replicas == 0 {
        seq![ResetStep::Threads, ResetStep::Table]
    } else {
        reset_steps((replicas - 1) as nat) + replica_steps((replicas - 1) as usize)
    }
}

/// Names what a new game clears, in order.
pub fn reset(replicas: usize) -> (res: Vec<ResetStep>)
    ensures
        res@ == reset_steps(replicas as nat),
{
    let mut steps: Vec<ResetStep> = Vec::new();
    steps.push(ResetStep::Threads);
    steps.push(ResetStep::Table);
    assert(steps@ =~= reset_steps(0));
    let mut replica: usize = 0;
    while replica < replicas
        invariant
            replica <= replicas,
            steps@ == reset_steps(replica as nat),
        decreases replicas - replica,
    {
        steps.push(ResetStep::Pawn(replica));
        steps.push(ResetStep::Minor(replica));
        steps.push(ResetStep::NonPawn(replica, Color::White));
        steps.push(ResetStep::NonPawn(replica, Color::Black));
        assert(steps@ =~= reset_steps(replica as nat) + replica_steps(replica));
        replica = replica + 1;
    }
    steps
}

/// The threads come first, the transposition table second, and then the replicas one after the
/// other, each with all its tables.
pub proof fn law_new_game_clears_every_replica(replicas: nat, replica: int)
    requires
        0 <= replica < replicas <= usize::MAX,
    ensures
        reset_steps(replicas).len() == 2 + 4 * replicas,
        reset_steps(replicas)[0] == ResetStep::Threads,
        reset_steps(replicas)[1] == ResetStep::Table,
        reset_steps(replicas)[2 + 4 * replica] == ResetStep::Pawn(replica as usize),
        reset_steps(replicas)[3 + 4 * replica] == ResetStep::Minor(replica as usize),
        reset_steps(replicas)[4 + 4 * replica] == ResetStep::NonPawn(replica as usize, Color::White),
        reset_steps(replicas)[5 + 4 * replica] == ResetStep::NonPawn(replica as usize, Color::Black),
        reset_steps(0) == seq![ResetStep::Threads, ResetStep::Table],
        reset_steps(replicas).subrange(2 + 4 * replica, 6 + 4 * replica) == replica_steps(
            replica as usize,
        ),
    decreases replicas,
{
    if replicas > 1 {
        if replica < replicas - 1 {
            law_new_game_clears_every_replica((replicas - 1) as nat, replica);
        } else {
            law_new_game_clears_every_replica((replicas - 1) as nat, 0);
        }
    } else {
        assert(reset_steps(0).len() == 2);
    }
    assert(reset_steps(replicas).subrange(2 + 4 * replica, 6 + 4 * replica) =~= replica_steps(
        replica as usize,
    ));
}

/// The arguments of `setoption` that give an option this value.
pub open spec fn assignment(name: Seq<char>, value: Seq<char>) -> Seq<Seq<char>> {
    seq!["name"@, name, "value"@, value]
}

/// Whether `setoption` with these arguments is followed, and the engine knows the option.
pub open spec fn is_followed(features: Features, tokens: Seq<Seq<char>>) -> bool {
    &&& option_accepted(tokens)
    &&& !(option_of(default_settings(), features, tokens).1.notice is Diagnostic)
}

/// Whether `setoption` with these arguments is followed and changes nothing in the settings that an
/// engine starts with.
pub open spec fn is_default(features: Features, tokens: Seq<Seq<char>>) -> bool {
    &&& is_followed(features, tokens)
    &&& option_of(default_settings(), features, tokens).0 == default_settings()
}

/// The names of the options differ, and so do the two values of a switch.
pub proof fn option_names_differ()
    ensures
        "Minimal"@ != "Hash"@,
        "Minimal"@ != "Threads"@,
        "Minimal"@ != "MoveOverhead"@,
        "Minimal"@ != "SyzygyPath"@,
        "Minimal"@ != "UCI_Chess960"@,
        "Minimal"@ != "MultiPV"@,
        "Hash"@ != "Threads"@,
        "Hash"@ != "MoveOverhead"@,
        "Hash"@ != "SyzygyPath"@,
        "Hash"@ != "UCI_Chess960"@,
        "Hash"@ != "MultiPV"@,
        "Threads"@ != "MoveOverhead"@,
        "Threads"@ != "SyzygyPath"@,
        "Threads"@ != "UCI_Chess960"@,
        "Threads"@ != "MultiPV"@,
        "MoveOverhead"@ != "SyzygyPath"@,
        "MoveOverhead"@ != "UCI_Chess960"@,
        "MoveOverhead"@ != "MultiPV"@,
        "SyzygyPath"@ != "UCI_Chess960"@,
        "SyzygyPath"@ != "MultiPV"@,
        "UCI_Chess960"@ != "MultiPV"@,
        "true"@ != "false"@,
{
    reveal_strlit("Minimal");
    reveal_strlit("Hash");
    reveal_strlit("Threads");
    reveal_strlit("MoveOverhead");
    reveal_strlit("SyzygyPath");
    reveal_strlit("UCI_Chess960");
    reveal_strlit("MultiPV");
    reveal_strlit("true");
    reveal_strlit("false");
    assert("Hash"@.len() == 4);
    assert("SyzygyPath"@.len() == 10);
    assert("Minimal"@.len() == 7);
    assert("MoveOverhead"@.len() == 12);
    assert("Minimal"@[1] == 'i');
    assert("MultiPV"@[1] == 'u');
    assert("Threads"@[0] == 'T');
    assert("MoveOverhead"@[0] == 'M');
    assert("UCI_Chess960"@[0] == 'U');
    assert("true"@.len() == 4);
}

/// What the engine offers, it takes: `setoption` with any value within the bounds, with either
/// value of a switch, with any text or for the button is followed.
pub proof fn law_offers_are_taken(id: Identity, features: Features, i: int)
    requires
        0 <= i < offers(id, features).len(),
    ensures
        match offers(id, features)[i] {
            Offer::Spin { name, default, min, max } => forall|n: nat|
                min <= n <= max && n <= usize::MAX ==> is_followed(
                    features,
                    #[trigger] assignment(name, decimal(n)),
                ),
            Offer::Check { name, .. } => forall|on: bool|
                is_followed(features, #[trigger] assignment(name, switch(on))),
            Offer::ClearHash => is_followed(features, seq!["name"@, "Clear"@, "Hash"@]),
            Offer::Text { name } => forall|value: Seq<char>|
                is_followed(features, #[trigger] assignment(name, value)),
        },
{
    option_names_differ();
    if let Offer::Spin { name, default, min, max } = offers(id, features)[i] {
        assert forall|n: nat| min <= n <= max && n <= usize::MAX implies is_followed(
            features,
            #[trigger] assignment(name, decimal(n)),
        ) by {
            law_natural_round_trip(n);
        }
    }
}

/// The defaults that the engine offers are those it has: setting an option of a new engine to its
/// default changes no setting. For the transposition table and the threads it asks for the default
/// size and for one thread.
pub proof fn law_offered_defaults_are_in_force(id: Identity, features: Features, i: int)
    requires
        0 <= i < offers(id, features).len(),
        id.default_hash <= usize::MAX,
    ensures
        match offers(id, features)[i] {
            Offer::Spin { name, default, min, max } => {
                let tokens = assignment(name, decimal(default));
                &&& is_default(features, tokens)
                &&& option_of(default_settings(), features, tokens).1.change == if name == "Hash"@ {
                    EngineChange::<Seq<char>>::ResizeHash(id.default_hash as usize)
                } else if name == "Threads"@ {
                    EngineChange::SetThreads(1)
                } else {
                    EngineChange::Unchanged
                }
            },
            Offer::Check { name, on } => {
                let tokens = assignment(name, switch(on));
                &&& is_default(features, tokens)
                &&& option_of(default_settings(), features, tokens).1.change
                    == EngineChange::<Seq<char>>::Unchanged
            },
            Offer::ClearHash => is_default(features, seq!["name"@, "Clear"@, "Hash"@]),
            Offer::Text { name } => forall|value: Seq<char>|
                is_default(features, #[trigger] assignment(name, value)),
        },
{
    option_names_differ();
    if let Offer::Spin { name, default, min, max } = offers(id, features)[i] {
        law_natural_round_trip(default);
    }
}

/// Every offer is announced in the reply to `uci`.
pub proof fn law_offers_are_announced(id: Identity, features: Features, i: int)
    requires
        0 <= i < offers(id, features).len(),
    ensures
        identity_lines(id, features)[i + 2] == offer_line(offers(id, features)[i]),
{
}

/// The reply to `uci`, line by line.
pub proof fn law_reply_to_uci(id: Identity, features: Features, i: int)
    ensures
        identity_lines(id, features).len() == 10 + (if features.syzygy {
            1int
        } else {
            0
        }) + (if features.spsa {
            id.tunables@.len() as int
        } else {
            0
        }),
        identity_lines(id, features)[0] == "id name Reckless "@ + id.version@,
        identity_lines(id, features)[1] == "id author Arseniy Surkov, Shahin M. Shahin, and Styx"@,
        identity_lines(id, features)[2] == "option name Hash type spin default "@ + decimal(
            id.default_hash as nat,
        ) + " min 1 max 262144"@,
        identity_lines(id, features)[3] == "option name Threads type spin default 1 min 1 max "@
            + decimal(id.max_threads as nat),
        identity_lines(id, features)[4]
            == "option name MoveOverhead type spin default 100 min 0 max 2000"@,
        identity_lines(id, features)[5] == "option name Minimal type check default false"@,
        identity_lines(id, features)[6] == "option name Clear Hash type button"@,
        identity_lines(id, features)[7] == "option name UCI_Chess960 type check default false"@,
        identity_lines(id, features)[8] == "option name MultiPV type spin default 1 min 1 max "@
            + decimal(id.max_moves as nat),
        features.syzygy ==> identity_lines(id, features)[9]
            == "option name SyzygyPath type string default"@,
        features.spsa && 0 <= i < id.tunables@.len() ==> identity_lines(id, features)[i + (
        if features.syzygy {
            10int
        } else {
            9
        })] == id.tunables@[i]@,
        identity_lines(id, features).last() == "uciok"@,
{
    small_numbers();
    reveal_strlit("option name ");
    reveal_strlit(" type spin default ");
    reveal_strlit(" min ");
    reveal_strlit(" max ");
    reveal_strlit(" type check default ");
    reveal_strlit(" type string default");
    reveal_strlit("false");
    reveal_strlit("Hash");
    reveal_strlit("Threads");
    reveal_strlit("MoveOverhead");
    reveal_strlit("Minimal");
    reveal_strlit("UCI_Chess960");
    reveal_strlit("MultiPV");
    reveal_strlit("SyzygyPath");
    reveal_strlit("option name Hash type spin default ");
    reveal_strlit(" min 1 max 262144");
    reveal_strlit("option name Threads type spin default 1 min 1 max ");
    reveal_strlit("option name MoveOverhead type spin default 100 min 0 max 2000");
    reveal_strlit("option name Minimal type check default false");
    reveal_strlit("option name UCI_Chess960 type check default false");
    reveal_strlit("option name MultiPV type spin default 1 min 1 max ");
    reveal_strlit("option name SyzygyPath type string default");
    let lines = identity_lines(id, features);
    assert(lines[2] =~= "option name Hash type spin default "@ + decimal(id.default_hash as nat)
        + " min 1 max 262144"@);
    assert(lines[3] =~= "option name Threads type spin default 1 min 1 max "@ + decimal(
        id.max_threads as nat,
    ));
    assert(lines[4] =~= "option name MoveOverhead type spin default 100 min 0 max 2000"@);
    assert(lines[5] =~= "option name Minimal type check default false"@);
    assert(lines[7] =~= "option name UCI_Chess960 type check default false"@);
    assert(lines[8] =~= "option name MultiPV type spin default 1 min 1 max "@ + decimal(
        id.max_moves as nat,
    ));
    if features.syzygy {
        assert(lines[9] =~= "option name SyzygyPath type string default"@);
    }
}

/// The numbers that stand in the option lines, in decimal.
proof fn small_numbers()
    ensures
        decimal(0) == seq!['0'],
        decimal(1) == seq!['1'],
        decimal(100) == seq!['1', '0', '0'],
        decimal(2000) == seq!['2', '0', '0', '0'],
        decimal(262144) == seq!['2', '6', '2', '1', '4', '4'],
{
    reveal_with_fuel(decimal, 7);
    assert(decimal(100) =~= seq!['1', '0', '0']);
    assert(decimal(2000) =~= seq!['2', '0', '0', '0']);
    assert(decimal(262144) =~= seq!['2', '6', '2', '1', '4', '4']);
}

/// The reply to `eval` reads as the evaluation that White has: that of the side to move, or its
/// negation if that is Black.
pub proof fn law_eval_is_the_view_of_white(side: Color, score: i32, res: String)
    requires
        call_ensures(eval, (side, score), res),
    ensures
        side == Color::White ==> integer(res@) == Some(score as int),
        side == Color::Black ==> integer(res@) == Some(-(score as int)),
        res@ == signed_decimal(integer(res@)->0),
{
    law_integer_round_trip(score as int);
    law_integer_round_trip(-(score as int));
}

/// The reply to `compiler` is three lines that end in what they tell.
pub proof fn law_compiler_tells_three_things(
    version: &str,
    target: &str,
    features: &str,
    res: Vec<String>,
)
    requires
        call_ensures(compiler, (version, target, features), res),
    ensures
        res@.len() == 3,
        res@[0]@ == "Compiler Version: "@ + version@,
        res@[1]@ == "Compiler Target: "@ + target@,
        res@[2]@ == "Compiler Features: "@ + features@,
{
    assert(owned_contents(res@).len() == res@.len());
    assert(owned_contents(res@)[0] == res@[0]@);
    assert(owned_contents(res@)[1] == res@[1]@);
    assert(owned_contents(res@)[2] == res@[2]@);
}

/// Each option sets what it is named after to the value it is given, says so, and leaves every other
/// setting alone.
pub proof fn law_each_option_sets_its_own(
    settings: Settings,
    features: Features,
    value: Seq<char>,
    n: nat,
)
    ensures
        natural_up_to(value, u64::MAX as nat) == Some(n) ==> option_of(
            settings,
            features,
            assignment("MoveOverhead"@, value),
        ) == (
            Settings { move_overhead: n as u64, ..settings },
            OptionEffect {
                change: EngineChange::Unchanged,
                notice: Notice::Line("info string set MoveOverhead to "@ + value + " ms"@),
            },
        ),
        natural_up_to(value, usize::MAX as nat) == Some(n) ==> option_of(
            settings,
            features,
            assignment("MultiPV"@, value),
        ) == (
            Settings { multi_pv: n as usize, ..settings },
            OptionEffect {
                change: EngineChange::Unchanged,
                notice: Notice::Line("info string set MultiPV to "@ + value),
            },
        ),
        natural_up_to(value, usize::MAX as nat) is None ==> option_of(
            settings,
            features,
            assignment("MultiPV"@, value),
        ) == (
            Settings { multi_pv: 0, ..settings },
            OptionEffect {
                change: EngineChange::Unchanged,
                notice: Notice::Line("info string set MultiPV to "@ + value),
            },
        ),
        option_of(settings, features, assignment("UCI_Chess960"@, value)) == (
            Settings { frc: value == "true"@, ..settings },
            OptionEffect {
                change: EngineChange::Unchanged,
                notice: Notice::Line("info string set UCI_Chess960 to "@ + value),
            },
        ),
        value == "true"@ || value == "false"@ ==> option_of(
            settings,
            features,
            assignment("Minimal"@, value),
        ) == (
            Settings {
                report: if value == "true"@ {
                    Report::Minimal
                } else {
                    Report::Full
                },
                ..settings
            },
            OptionEffect::<Seq<char>> { change: EngineChange::Unchanged, notice: Notice::Silent },
        ),
        value != "true"@ && value != "false"@ ==> option_of(
            settings,
            features,
            assignment("Minimal"@, value),
        ) == (
            settings,
            OptionEffect {
                change: EngineChange::Unchanged,
                notice: Notice::Diagnostic("Invalid value: '"@ + value + "'"@),
            },
        ),
{
    option_names_differ();
    reveal_strlit("info string set ");
    reveal_strlit(" to ");
    reveal_strlit("MoveOverhead");
    reveal_strlit("MultiPV");
    reveal_strlit("UCI_Chess960");
    reveal_strlit("info string set MoveOverhead to ");
    reveal_strlit("info string set MultiPV to ");
    reveal_strlit("info string set UCI_Chess960 to ");
    assert("info string set "@ + "MoveOverhead"@ + " to "@ =~= "info string set MoveOverhead to "@);
    assert("info string set "@ + "MultiPV"@ + " to "@ =~= "info string set MultiPV to "@);
    assert("info string set "@ + "UCI_Chess960"@ + " to "@ =~= "info string set UCI_Chess960 to "@);
    let unit: Seq<char> = seq![];
    assert("info string set MultiPV to "@ + value + unit =~= "info string set MultiPV to "@ + value);
    assert("info string set UCI_Chess960 to "@ + value + unit =~= "info string set UCI_Chess960 to "@
        + value);
}

/// The options of the engine behind the message loop change nothing in the settings: each asks for
/// its change with the value it is given, and says so.
pub proof fn law_each_option_changes_its_own(
    settings: Settings,
    features: Features,
    value: Seq<char>,
    n: nat,
)
    ensures
        natural_up_to(value, usize::MAX as nat) == Some(n) ==> option_of(
            settings,
            features,
            assignment("Hash"@, value),
        ) == (
            settings,
            OptionEffect {
                change: EngineChange::ResizeHash(n as usize),
                notice: Notice::Line("info string set Hash to "@ + value + " MB"@),
            },
        ),
        natural_up_to(value, usize::MAX as nat) == Some(n) ==> option_of(
            settings,
            features,
            assignment("Threads"@, value),
        ) == (
            settings,
            OptionEffect {
                change: EngineChange::SetThreads(n as usize),
                notice: Notice::Line("info string set Threads to "@ + value),
            },
        ),
        features.syzygy ==> option_of(settings, features, assignment("SyzygyPath"@, value)) == (
            settings,
            OptionEffect { change: EngineChange::LoadTablebases(value), notice: Notice::Silent },
        ),
        option_of(settings, features, seq!["name"@, "Clear"@, "Hash"@]) == (
            settings,
            OptionEffect {
                change: EngineChange::ClearHash,
                notice: Notice::Line("info string Hash cleared"@),
            },
        ),
{
    option_names_differ();
    reveal_strlit("info string set ");
    reveal_strlit(" to ");
    reveal_strlit("Hash");
    reveal_strlit("Threads");
    reveal_strlit("info string set Hash to ");
    reveal_strlit("info string set Threads to ");
    assert("info string set "@ + "Hash"@ + " to "@ =~= "info string set Hash to "@);
    assert("info string set "@ + "Threads"@ + " to "@ =~= "info string set Threads to "@);
    let unit: Seq<char> = seq![];
    assert("info string set Threads to "@ + value + unit =~= "info string set Threads to "@ + value);
}

/// Any other option is a search parameter, if those can be tuned. If not, and for arguments that
/// assign nothing, the engine remarks on them, quoting them, and changes nothing.
pub proof fn law_other_options(
    settings: Settings,
    features: Features,
    name: Seq<char>,
    value: Seq<char>,
    tokens: Seq<Seq<char>>,
)
    requires
        name != "Minimal"@ && name != "Hash"@ && name != "Threads"@ && name != "MoveOverhead"@
            && name != "UCI_Chess960"@ && name != "MultiPV"@,
        name != "SyzygyPath"@ || !features.syzygy,
        tokens.len() != 4 || tokens[0] != "name"@ || tokens[2] != "value"@,
        !(tokens =~= seq!["name"@, "Clear"@, "Hash"@]),
    ensures
        features.spsa ==> option_of(settings, features, assignment(name, value)) == (
            settings,
            OptionEffect {
                change: EngineChange::SetParameter(name, value),
                notice: Notice::Line("info string set "@ + name + " to "@ + value),
            },
        ),
        !features.spsa ==> option_of(settings, features, assignment(name, value)) == (
            settings,
            OptionEffect {
                change: EngineChange::Unchanged,
                notice: Notice::Diagnostic(
                    "Unknown option: '"@ + trimmed(joined(assignment(name, value), seq![' ']))
                        + "'"@,
                ),
            },
        ),
        option_of(settings, features, tokens) == (
            settings,
            OptionEffect {
                change: EngineChange::Unchanged,
                notice: Notice::Diagnostic(
                    "Unknown option: '"@ + trimmed(joined(tokens, seq![' '])) + "'"@,
                ),
            },
        ),
{
    reveal_strlit(" ");
    assert(" "@ =~= seq![' ']);
    let unit: Seq<char> = seq![];
    assert("info string set "@ + name + " to "@ + value + unit =~= "info string set "@ + name
        + " to "@ + value);
    if tokens.len() == 3 && tokens[0] == "name"@ && tokens[1] == "Clear"@ && tokens[2] == "Hash"@ {
        assert(tokens =~= seq!["name"@, "Clear"@, "Hash"@]);
    }
}

/// Only a hash size, a thread count and a move overhead that are no numbers are refused.
pub proof fn law_only_bad_numbers_are_refused(
    name: Seq<char>,
    value: Seq<char>,
    tokens: Seq<Seq<char>>,
)
    ensures
        option_accepted(assignment(name, value)) <==> {
            &&& name == "Hash"@ || name == "Threads"@ ==> natural_up_to(value, usize::MAX as nat)
                is Some
            &&& name == "MoveOverhead"@ ==> natural_up_to(value, u64::MAX as nat) is Some
        },
        tokens.len() != 4 || tokens[0] != "name"@ || tokens[2] != "value"@ ==> option_accepted(
            tokens,
        ),
{
    let assigned = assignment(name, value);
    assert(assigned[1] == name && assigned[3] == value);
}

/// The notice on tablebases tells of how many pieces they cover, in full.
pub proof fn law_tablebase_notice(pieces: Option<u64>, res: Notice<String>)
    requires
        call_ensures(tablebase_notice, (pieces,), res),
    ensures
        pieces matches Some(n) ==> res@ == Notice::Line(
            "info string Loaded Syzygy tablebases with "@ + decimal(n as nat) + " pieces"@,
        ),
        pieces is None ==> res@ == Notice::<Seq<char>>::Diagnostic(
            "Failed to load Syzygy tablebases"@,
        ),
{
}

/// What `setoption` sets reaches the search: a number of variations, a move overhead and a manner of
/// reporting are those of the next plan.
pub proof fn law_options_reach_the_search(
    settings: Settings,
    features: Features,
    n: nat,
    color: Color,
    tokens: Seq<Seq<char>>,
)
    ensures
        n <= usize::MAX ==> plan_of(
            option_of(settings, features, assignment("MultiPV"@, decimal(n))).0,
            color,
            tokens,
        ).multi_pv == n,
        n <= u64::MAX ==> plan_of(
            option_of(settings, features, assignment("MoveOverhead"@, decimal(n))).0,
            color,
            tokens,
        ).move_overhead == n,
        plan_of(
            option_of(settings, features, assignment("Minimal"@, "true"@)).0,
            color,
            tokens,
        ).report == Report::Minimal,
        plan_of(
            option_of(settings, features, assignment("Minimal"@, "false"@)).0,
            color,
            tokens,
        ).report == Report::Full,
{
    option_names_differ();
    law_natural_round_trip(n);
}

} // verus!

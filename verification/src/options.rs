//! The settings of the engine and the command that changes them.

use vstd::prelude::*;

use crate::notice::Notice;
use crate::number::{decimal, natural_up_to, parse_u64, parse_usize, render};
use crate::text::{contents, join, joined, same, trim_end, trimmed};

verus! {

/// How much a search tells of its progress.
#[derive(Copy, Clone, Debug, PartialEq, Eq, Structural)]
pub enum Report {
    Minimal,
    Full,
}

/// What can be set on the message loop's side.
#[derive(Copy, Clone, Debug, PartialEq, Eq, Structural)]
pub struct Settings {
    /// Positions are those of Fischer Random Chess.
    pub frc: bool,
    /// How many principal variations are searched.
    pub multi_pv: usize,
    /// How many milliseconds are set aside for each move.
    pub move_overhead: u64,
    pub report: Report,
}

/// The settings that an engine starts with.
pub open spec fn default_settings() -> Settings {
    Settings { frc: false, multi_pv: 1, move_overhead: 100, report: Report::Full }
}

impl Default for Settings {
    fn default() -> (res: Self)
        ensures
            res == default_settings(),
    {
        Settings { frc: false, multi_pv: 1, move_overhead: 100, report: Report::Full }
    }
}

/// What the engine was built with.
#[derive(Copy, Clone, Debug, PartialEq, Eq, Structural)]
pub struct Features {
    /// Syzygy tablebases can be probed.
    pub syzygy: bool,
    /// Search parameters can be tuned.
    pub spsa: bool,
}

/// What an option changes in the engine behind the message loop.
#[derive(Debug, PartialEq, Eq)]
pub enum EngineChange<S> {
    Unchanged,
    ClearHash,
    /// Resize the transposition table, to a size in megabytes.
    ResizeHash(usize),
    SetThreads(usize),
    /// Load the tablebases at this path, and report by `tablebase_notice`.
    LoadTablebases(S),
    /// Set the parameter of this name to this value.
    SetParameter(S, S),
}

/// What an option does: first the change is made, then the notice is printed.
#[derive(Debug, PartialEq, Eq)]
pub struct OptionEffect<S> {
    pub change: EngineChange<S>,
    pub notice: Notice<S>,
}

impl EngineChange<String> {
    /// The change with the text it holds.
    pub open spec fn view(&self) -> EngineChange<Seq<char>> {
        match self {
            EngineChange::Unchanged => EngineChange::Unchanged,
            EngineChange::ClearHash => EngineChange::ClearHash,
            EngineChange::ResizeHash(size) => EngineChange::ResizeHash(*size),
            EngineChange::SetThreads(count) => EngineChange::SetThreads(*count),
            EngineChange::LoadTablebases(path) => EngineChange::LoadTablebases(path@),
            EngineChange::SetParameter(name, value) => EngineChange::SetParameter(name@, value@),
        }
    }
}

impl OptionEffect<String> {
    /// The effect with the text it holds.
    pub open spec fn view(&self) -> OptionEffect<Seq<char>> {
        OptionEffect { change: self.change@, notice: self.notice@ }
    }
}

/// Whether the arguments are `name`, a name, `value` and a value.
pub open spec fn is_assignment(tokens: Seq<Seq<char>>) -> bool {
    tokens.len() == 4 && tokens[0] == "name"@ && tokens[2] == "value"@
}

/// Whether the arguments are `name Clear Hash`.
pub open spec fn is_clear_hash(tokens: Seq<Seq<char>>) -> bool {
    tokens.len() == 3 && tokens[0] == "name"@ && tokens[1] == "Clear"@ && tokens[2] == "Hash"@
}

/// Whether the arguments can be followed: a hash size and a thread count are `usize` numbers, and a
/// move overhead is a `u64` number.
pub open spec fn option_accepted(tokens: Seq<Seq<char>>) -> bool {
    is_assignment(tokens) ==> {
        &&& tokens[1] == "Hash"@ || tokens[1] == "Threads"@ ==> natural_up_to(
            tokens[3],
            usize::MAX as nat,
        ) is Some
        &&& tokens[1] == "MoveOverhead"@ ==> natural_up_to(tokens[3], u64::MAX as nat) is Some
    }
}

/// An effect that is no more than a notice.
pub open spec fn says(notice: Notice<Seq<char>>) -> OptionEffect<Seq<char>> {
    OptionEffect { change: EngineChange::Unchanged, notice }
}

/// The line that says that an option was set.
pub open spec fn set_line(name: Seq<char>, value: Seq<char>, unit: Seq<char>) -> Seq<char> {
    "info string set "@ + name + " to "@ + value + unit
}

/// What assigning a value to an option does to the settings, and else.
pub open spec fn assigned(
    settings: Settings,
    features: Features,
    name: Seq<char>,
    value: Seq<char>,
    tokens: Seq<Seq<char>>,
) -> (Settings, OptionEffect<Seq<char>>) {
    if name == "Minimal"@ {
        if value == "true"@ {
            (Settings { report: Report::Minimal, ..settings }, says(Notice::Silent))
        } else if value == "false"@ {
            (Settings { report: Report::Full, ..settings }, says(Notice::Silent))
        } else {
            (settings, says(Notice::Diagnostic("Invalid value: '"@ + value + "'"@)))
        }
    } else if name == "Hash"@ {
        (
            settings,
            OptionEffect {
                change: EngineChange::ResizeHash(
                    natural_up_to(value, usize::MAX as nat)->0 as usize,
                ),
                notice: Notice::Line(set_line(name, value, " MB"@)),
            },
        )
    } else if name == "Threads"@ {
        (
            settings,
            OptionEffect {
                change: EngineChange::SetThreads(
                    natural_up_to(value, usize::MAX as nat)->0 as usize,
                ),
                notice: Notice::Line(set_line(name, value, seq![])),
            },
        )
    } else if name == "MoveOverhead"@ {
        (
            Settings {
                move_overhead: natural_up_to(value, u64::MAX as nat)->0 as u64,
                ..settings
            },
            says(Notice::Line(set_line(name, value, " ms"@))),
        )
    } else if features.syzygy && name == "SyzygyPath"@ {
        (
            settings,
            OptionEffect {
                change: EngineChange::LoadTablebases(value),
                notice: Notice::Silent,
            },
        )
    } else if name == "UCI_Chess960"@ {
        (
            Settings { frc: value == "true"@, ..settings },
            says(Notice::Line(set_line(name, value, seq![]))),
        )
    } else if name == "MultiPV"@ {
        (
            Settings {
                multi_pv: match natural_up_to(value, usize::MAX as nat) {
                    Some(n) => n as usize,
                    None => 0,
                },
                ..settings
            },
            says(Notice::Line(set_line(name, value, seq![]))),
        )
    } else if features.spsa {
        (
            settings,
            OptionEffect {
                change: EngineChange::SetParameter(name, value),
                notice: Notice::Line(set_line(name, value, seq![])),
            },
        )
    } else {
        (settings, says(Notice::Diagnostic(unknown_option(tokens))))
    }
}

/// The remark on an option that does not exist.
pub open spec fn unknown_option(tokens: Seq<Seq<char>>) -> Seq<char> {
    "Unknown option: '"@ + trimmed(joined(tokens, " "@)) + "'"@
}

/// What the arguments of `setoption` do.
pub open spec fn option_of(settings: Settings, features: Features, tokens: Seq<Seq<char>>) -> (
    Settings,
    OptionEffect<Seq<char>>,
) {
    if is_clear_hash(tokens) {
        (
            settings,
            OptionEffect {
                change: EngineChange::ClearHash,
                notice: Notice::Line("info string Hash cleared"@),
            },
        )
    } else if is_assignment(tokens) {
        assigned(settings, features, tokens[1], tokens[3], tokens)
    } else {
        (settings, says(Notice::Diagnostic(unknown_option(tokens))))
    }
}

/// Whether the arguments of `setoption` can be followed.
pub fn accepts_option(tokens: &[&str]) -> (res: bool)
    ensures
        res == option_accepted(contents(tokens@)),
{
    if !(tokens.len() == 4 && same(tokens[0], "name") && same(tokens[2], "value")) {
        return true;
    }
    assert(contents(tokens@)[1] == tokens@[1]@ && contents(tokens@)[3] == tokens@[3]@);
    if (same(tokens[1], "Hash") || same(tokens[1], "Threads")) && parse_usize(tokens[3]).is_none() {
        return false;
    }
    !(same(tokens[1], "MoveOverhead") && parse_u64(tokens[3]).is_none())
}

/// The line that says that an option was set.
fn set_notice(name: &str, value: &str, unit: &str) -> (res: Notice<String>)
    ensures
        res@ == Notice::Line(set_line(name@, value@, unit@)),
{
    let mut text = "info string set ".to_owned();
    text.append(name);
    text.append(" to ");
    text.append(value);
    text.append(unit);
    Notice::Line(text)
}

/// The remark on an option that does not exist.
fn unknown_notice(tokens: &[&str]) -> (res: Notice<String>)
    ensures
        res@ == Notice::Diagnostic(unknown_option(contents(tokens@))),
{
    let all = join(tokens, " ");
    let mut text = "Unknown option: '".to_owned();
    text.append(trim_end(all.as_str()));
    text.append("'");
    Notice::Diagnostic(text)
}

/// Follows the arguments of `setoption`.
pub fn set_option(settings: &mut Settings, features: Features, tokens: &[&str]) -> (res:
    OptionEffect<String>)
    requires
        option_accepted(contents(tokens@)),
    ensures
        (*final(settings), res@) == option_of(*old(settings), features, contents(tokens@)),
{
    let ghost words = contents(tokens@);
    proof {
        reveal_strlit("");
        assert(""@ =~= seq![]);
        assert(forall|i: int| 0 <= i < words.len() ==> words[i] == tokens@[i]@);
    }
    if tokens.len() == 3 && same(tokens[0], "name") && same(tokens[1], "Clear") && same(
        tokens[2],
        "Hash",
    ) {
        return OptionEffect {
            change: EngineChange::ClearHash,
            notice: Notice::Line("info string Hash cleared".to_owned()),
        };
    }
    if !(tokens.len() == 4 && same(tokens[0], "name") && same(tokens[2], "value")) {
        return OptionEffect { change: EngineChange::Unchanged, notice: unknown_notice(tokens) };
    }
    let name = tokens[1];
    let value = tokens[3];
    if same(name, "Minimal") {
        let notice = if same(value, "true") {
            settings.report = Report::Minimal;
            Notice::Silent
        } else if same(value, "false") {
            settings.report = Report::Full;
            Notice::Silent
        } else {
            let mut text = "Invalid value: '".to_owned();
            text.append(value);
            text.append("'");
            Notice::Diagnostic(text)
        };
        OptionEffect { change: EngineChange::Unchanged, notice }
    } else if same(name, "Hash") {
        let size: usize = match parse_usize(value) {
            Some(n) => n,
            None => 0,
        };
        OptionEffect {
            change: EngineChange::ResizeHash(size),
            notice: set_notice(name, value, " MB"),
        }
    } else if same(name, "Threads") {
        let count: usize = match parse_usize(value) {
            Some(n) => n,
            None => 0,
        };
        OptionEffect {
            change: EngineChange::SetThreads(count),
            notice: set_notice(name, value, ""),
        }
    } else if same(name, "MoveOverhead") {
        settings.move_overhead = match parse_u64(value) {
            Some(n) => n,
            None => 0,
        };
        OptionEffect { change: EngineChange::Unchanged, notice: set_notice(name, value, " ms") }
    } else if features.syzygy && same(name, "SyzygyPath") {
        OptionEffect {
            change: EngineChange::LoadTablebases(value.to_owned()),
            notice: Notice::Silent,
        }
    } else if same(name, "UCI_Chess960") {
        settings.frc = same(value, "true");
        OptionEffect { change: EngineChange::Unchanged, notice: set_notice(name, value, "") }
    } else if same(name, "MultiPV") {
        settings.multi_pv = match parse_usize(value) {
            Some(n) => n,
            None => 0,
        };
        OptionEffect { change: EngineChange::Unchanged, notice: set_notice(name, value, "") }
    } else if features.spsa {
        OptionEffect {
            change: EngineChange::SetParameter(name.to_owned(), value.to_owned()),
            notice: set_notice(name, value, ""),
        }
    } else {
        OptionEffect { change: EngineChange::Unchanged, notice: unknown_notice(tokens) }
    }
}

/// The line that says that tablebases were loaded.
pub open spec fn tablebase_line(pieces: nat) -> Seq<char> {
    "info string Loaded Syzygy tablebases with "@ + decimal(pieces) + " pieces"@
}

/// What is said once tablebases were to be loaded: they cover positions of so many pieces, or could
/// not be loaded.
pub fn tablebase_notice(pieces: Option<u64>) -> (res: Notice<String>)
    ensures
        res@ == match pieces {
            Some(n) => Notice::Line(tablebase_line(n as nat)),
            None => Notice::Diagnostic("Failed to load Syzygy tablebases"@),
        },
{
    match pieces {
        Some(n) => {
            let mut text = "info string Loaded Syzygy tablebases with ".to_owned();
            text.append(render(n).as_str());
            text.append(" pieces");
            Notice::Line(text)
        },
        None => Notice::Diagnostic("Failed to load Syzygy tablebases".to_owned()),
    }
}

/// Options do not touch one another: setting two different ones leaves the same settings in either
/// order.
pub proof fn law_options_commute(
    settings: Settings,
    features: Features,
    a: Seq<Seq<char>>,
    b: Seq<Seq<char>>,
)
    requires
        is_assignment(a),
        is_assignment(b),
        a[1] != b[1],
    ensures
        option_of(option_of(settings, features, a).0, features, b).0 == option_of(
            option_of(settings, features, b).0,
            features,
            a,
        ).0,
{
}

/// What is no assignment changes no setting.
pub proof fn law_only_assignments_change_settings(
    settings: Settings,
    features: Features,
    tokens: Seq<Seq<char>>,
)
    requires
        !is_assignment(tokens),
    ensures
        option_of(settings, features, tokens).0 == settings,
{
}

/// What the effect of an option is seen to hold is all it holds.
pub proof fn law_effect_is_seen_whole(effect: OptionEffect<String>)
    ensures
        effect@.notice == effect.notice@,
        match effect.change {
            EngineChange::Unchanged => effect@.change is Unchanged,
            EngineChange::ClearHash => effect@.change is ClearHash,
            EngineChange::ResizeHash(size) => effect@.change
                == EngineChange::<Seq<char>>::ResizeHash(size),
            EngineChange::SetThreads(count) => effect@.change
                == EngineChange::<Seq<char>>::SetThreads(count),
            EngineChange::LoadTablebases(path) => effect@.change == EngineChange::LoadTablebases(
                path@,
            ),
            EngineChange::SetParameter(name, value) => effect@.change
                == EngineChange::SetParameter(name@, value@),
        },
{
}

} // verus!

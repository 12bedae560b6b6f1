//! The commands of the engine and how they are told apart.

use vstd::prelude::*;

use crate::notice::Notice;
use crate::text::{contents, is_space, law_trimming_finds_the_line, same, trim_end, trimmed};

verus! {

/// Where commands come from once the initial ones are used up.
#[derive(Copy, Clone, Debug, PartialEq, Eq, Structural)]
pub enum Mode {
    /// From nowhere: the engine leaves after the initial commands.
    Cli,
    /// From the listener.
    Uci,
}

/// What a command asks for.
#[derive(Copy, Clone, Debug, PartialEq, Eq, Structural)]
pub enum Verb {
    Uci,
    IsReady,
    Go,
    Position,
    SetOption,
    UciNewGame,
    Stop,
    Quit,
    Compiler,
    Eval,
    Display,
    Bench,
    Perft,
    /// `perft` without the depth it needs.
    PerftUsage,
    /// A line without words.
    Blank,
    /// Anything else.
    Unknown,
}

/// What the words of a command ask for. Four commands take any arguments, `perft` takes one, and
/// the others take none.
pub open spec fn verb_of(words: Seq<Seq<char>>) -> Verb {
    if words.len() == 0 {
        Verb::Blank
    } else if words[0] == "go"@ {
        Verb::Go
    } else if words[0] == "position"@ {
        Verb::Position
    } else if words[0] == "setoption"@ {
        Verb::SetOption
    } else if words[0] == "bench"@ {
        Verb::Bench
    } else if words.len() == 2 && words[0] == "perft"@ {
        Verb::Perft
    } else if words.len() != 1 {
        Verb::Unknown
    } else if words[0] == "uci"@ {
        Verb::Uci
    } else if words[0] == "isready"@ {
        Verb::IsReady
    } else if words[0] == "ucinewgame"@ {
        Verb::UciNewGame
    } else if words[0] == "stop"@ {
        Verb::Stop
    } else if words[0] == "quit"@ {
        Verb::Quit
    } else if words[0] == "compiler"@ {
        Verb::Compiler
    } else if words[0] == "eval"@ {
        Verb::Eval
    } else if words[0] == "d"@ {
        Verb::Display
    } else if words[0] == "perft"@ {
        Verb::PerftUsage
    } else {
        Verb::Unknown
    }
}

/// What is printed for a command by the message loop itself.
pub open spec fn notice_of(verb: Verb, message: Seq<char>) -> Notice<Seq<char>> {
    match verb {
        Verb::IsReady => Notice::Line("readyok"@),
        Verb::PerftUsage => Notice::Diagnostic("Usage: perft <depth>"@),
        Verb::Unknown => Notice::Diagnostic("Unknown command: '"@ + trimmed(message) + "'"@),
        _ => Notice::Silent,
    }
}

/// Tells what the words of a command ask for.
pub fn verb(words: &[&str]) -> (res: Verb)
    ensures
        res == verb_of(contents(words@)),
{
    if words.len() == 0 {
        return Verb::Blank;
    }
    let first = words[0];
    assert(contents(words@)[0] == first@);
    if same(first, "go") {
        Verb::Go
    } else if same(first, "position") {
        Verb::Position
    } else if same(first, "setoption") {
        Verb::SetOption
    } else if same(first, "bench") {
        Verb::Bench
    } else if words.len() == 2 && same(first, "perft") {
        Verb::Perft
    } else if words.len() != 1 {
        Verb::Unknown
    } else if same(first, "uci") {
        Verb::Uci
    } else if same(first, "isready") {
        Verb::IsReady
    } else if same(first, "ucinewgame") {
        Verb::UciNewGame
    } else if same(first, "stop") {
        Verb::Stop
    } else if same(first, "quit") {
        Verb::Quit
    } else if same(first, "compiler") {
        Verb::Compiler
    } else if same(first, "eval") {
        Verb::Eval
    } else if same(first, "d") {
        Verb::Display
    } else if same(first, "perft") {
        Verb::PerftUsage
    } else {
        Verb::Unknown
    }
}

/// What the message loop itself prints for a command.
pub fn notice(verb: Verb, message: &str) -> (res: Notice<String>)
    ensures
        res@ == notice_of(verb, message@),
{
    match verb {
        Verb::IsReady => Notice::Line("readyok".to_owned()),
        Verb::PerftUsage => Notice::Diagnostic("Usage: perft <depth>".to_owned()),
        Verb::Unknown => {
            let mut text = "Unknown command: '".to_owned();
            text.append(trim_end(message));
            text.append("'");
            Notice::Diagnostic(text)
        },
        _ => Notice::Silent,
    }
}

/// The command words, one by one, are different words.
proof fn command_words_differ()
    ensures
        "go"@ != "position"@,
        "go"@ != "setoption"@,
        "go"@ != "bench"@,
        "go"@ != "perft"@,
        "go"@ != "uci"@,
        "go"@ != "isready"@,
        "go"@ != "ucinewgame"@,
        "go"@ != "stop"@,
        "go"@ != "quit"@,
        "go"@ != "compiler"@,
        "go"@ != "eval"@,
        "go"@ != "d"@,
        "position"@ != "setoption"@,
        "position"@ != "bench"@,
        "position"@ != "perft"@,
        "position"@ != "uci"@,
        "position"@ != "isready"@,
        "position"@ != "ucinewgame"@,
        "position"@ != "stop"@,
        "position"@ != "quit"@,
        "position"@ != "compiler"@,
        "position"@ != "eval"@,
        "position"@ != "d"@,
        "setoption"@ != "bench"@,
        "setoption"@ != "perft"@,
        "setoption"@ != "uci"@,
        "setoption"@ != "isready"@,
        "setoption"@ != "ucinewgame"@,
        "setoption"@ != "stop"@,
        "setoption"@ != "quit"@,
        "setoption"@ != "compiler"@,
        "setoption"@ != "eval"@,
        "setoption"@ != "d"@,
        "bench"@ != "perft"@,
        "bench"@ != "uci"@,
        "bench"@ != "isready"@,
        "bench"@ != "ucinewgame"@,
        "bench"@ != "stop"@,
        "bench"@ != "quit"@,
        "bench"@ != "compiler"@,
        "bench"@ != "eval"@,
        "bench"@ != "d"@,
        "perft"@ != "uci"@,
        "perft"@ != "isready"@,
        "perft"@ != "ucinewgame"@,
        "perft"@ != "stop"@,
        "perft"@ != "quit"@,
        "perft"@ != "compiler"@,
        "perft"@ != "eval"@,
        "perft"@ != "d"@,
        "uci"@ != "isready"@,
        "uci"@ != "ucinewgame"@,
        "uci"@ != "stop"@,
        "uci"@ != "quit"@,
        "uci"@ != "compiler"@,
        "uci"@ != "eval"@,
        "uci"@ != "d"@,
        "isready"@ != "ucinewgame"@,
        "isready"@ != "stop"@,
        "isready"@ != "quit"@,
        "isready"@ != "compiler"@,
        "isready"@ != "eval"@,
        "isready"@ != "d"@,
        "ucinewgame"@ != "stop"@,
        "ucinewgame"@ != "quit"@,
        "ucinewgame"@ != "compiler"@,
        "ucinewgame"@ != "eval"@,
        "ucinewgame"@ != "d"@,
        "stop"@ != "quit"@,
        "stop"@ != "compiler"@,
        "stop"@ != "eval"@,
        "stop"@ != "d"@,
        "quit"@ != "compiler"@,
        "quit"@ != "eval"@,
        "quit"@ != "d"@,
        "compiler"@ != "eval"@,
        "compiler"@ != "d"@,
        "eval"@ != "d"@,
{
    reveal_strlit("go");
    reveal_strlit("position");
    reveal_strlit("setoption");
    reveal_strlit("bench");
    reveal_strlit("perft");
    reveal_strlit("uci");
    reveal_strlit("isready");
    reveal_strlit("ucinewgame");
    reveal_strlit("stop");
    reveal_strlit("quit");
    reveal_strlit("compiler");
    reveal_strlit("eval");
    reveal_strlit("d");
    assert("go"@.len() == 2 && "go"@[0] == 'g');
    assert("position"@.len() == 8 && "position"@[0] == 'p');
    assert("setoption"@.len() == 9 && "setoption"@[0] == 's');
    assert("bench"@.len() == 5 && "bench"@[0] == 'b');
    assert("perft"@.len() == 5 && "perft"@[0] == 'p');
    assert("uci"@.len() == 3 && "uci"@[0] == 'u');
    assert("isready"@.len() == 7 && "isready"@[0] == 'i');
    assert("ucinewgame"@.len() == 10 && "ucinewgame"@[0] == 'u');
    assert("stop"@.len() == 4 && "stop"@[0] == 's');
    assert("quit"@.len() == 4 && "quit"@[0] == 'q');
    assert("compiler"@.len() == 8 && "compiler"@[0] == 'c');
    assert("eval"@.len() == 4 && "eval"@[0] == 'e');
    assert("d"@.len() == 1 && "d"@[0] == 'd');
}

/// Each command has its word, and with it a number of arguments: any for `go`, `position`,
/// `setoption` and `bench`, one for `perft`, and none for the others. What is none of these is
/// unknown, unless it holds no word at all.
pub proof fn law_each_command_has_its_word(ws: Seq<Seq<char>>)
    ensures
        verb_of(ws) == Verb::Blank <==> ws.len() == 0,
        verb_of(ws) == Verb::Go <==> ws.len() > 0 && ws[0] == "go"@,
        verb_of(ws) == Verb::Position <==> ws.len() > 0 && ws[0] == "position"@,
        verb_of(ws) == Verb::SetOption <==> ws.len() > 0 && ws[0] == "setoption"@,
        verb_of(ws) == Verb::Bench <==> ws.len() > 0 && ws[0] == "bench"@,
        verb_of(ws) == Verb::Uci <==> ws.len() == 1 && ws[0] == "uci"@,
        verb_of(ws) == Verb::IsReady <==> ws.len() == 1 && ws[0] == "isready"@,
        verb_of(ws) == Verb::UciNewGame <==> ws.len() == 1 && ws[0] == "ucinewgame"@,
        verb_of(ws) == Verb::Stop <==> ws.len() == 1 && ws[0] == "stop"@,
        verb_of(ws) == Verb::Quit <==> ws.len() == 1 && ws[0] == "quit"@,
        verb_of(ws) == Verb::Compiler <==> ws.len() == 1 && ws[0] == "compiler"@,
        verb_of(ws) == Verb::Eval <==> ws.len() == 1 && ws[0] == "eval"@,
        verb_of(ws) == Verb::Display <==> ws.len() == 1 && ws[0] == "d"@,
        verb_of(ws) == Verb::PerftUsage <==> ws.len() == 1 && ws[0] == "perft"@,
        verb_of(ws) == Verb::Perft <==> ws.len() == 2 && ws[0] == "perft"@,
{
    command_words_differ();
}

/// The arguments of a command that takes any do not matter for what it is, and those of a command
/// that takes none make it unknown.
pub proof fn law_arguments_do_not_make_a_command(word: Seq<char>, args: Seq<Seq<char>>)
    requires
        args.len() > 0,
    ensures
        word == "go"@ || word == "position"@ || word == "setoption"@ || word == "bench"@ ==> verb_of(
            seq![word] + args,
        ) == verb_of(seq![word]),
        word != "go"@ && word != "position"@ && word != "setoption"@ && word != "bench"@ && word
            != "perft"@ ==> verb_of(seq![word] + args) == Verb::Unknown,
        word == "perft"@ && args.len() > 1 ==> verb_of(seq![word] + args) == Verb::Unknown,
{
    assert((seq![word] + args)[0] == word);
    command_words_differ();
}

/// The message loop itself answers `isready` with `readyok`, remarks on a `perft` without a depth
/// and on what is unknown, which it quotes without the white space at its end, and is silent on
/// everything else.
pub proof fn law_notices(verb: Verb, message: Seq<char>, tail: Seq<char>)
    requires
        message.len() > 0 ==> !is_space(message.last()),
        forall|i: int| 0 <= i < tail.len() ==> is_space(#[trigger] tail[i]),
    ensures
        notice_of(verb, message + tail) is Line <==> verb == Verb::IsReady,
        notice_of(verb, message + tail) matches Notice::Line(line) ==> line == "readyok"@,
        notice_of(verb, message + tail) is Diagnostic <==> verb == Verb::Unknown || verb
            == Verb::PerftUsage,
        notice_of(Verb::Unknown, message + tail) == Notice::Diagnostic(
            "Unknown command: '"@ + message + "'"@,
        ),
        notice_of(Verb::PerftUsage, message + tail) == Notice::<Seq<char>>::Diagnostic(
            "Usage: perft <depth>"@,
        ),
{
    law_trimming_finds_the_line(message, tail);
}

} // verus!

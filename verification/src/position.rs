//! Setting up a position: the arguments of `position`.

use vstd::prelude::*;

use crate::options::Settings;
use crate::text::{contents, join, joined, same};

verus! {

/// One step in setting up a position. The first step finds an empty board.
#[derive(Debug, PartialEq, Eq)]
pub enum PositionStep<S> {
    /// Take the starting position.
    StartPos,
    /// Take the position that this record describes, or keep the board if it describes none. Either
    /// way the board is then set to follow the rules of Fischer Random Chess or not to, by the flag.
    Fen(S, bool),
    /// Play this move, if it is legal.
    Move(S),
}

impl PositionStep<String> {
    /// The step with the text it holds.
    pub open spec fn view(&self) -> PositionStep<Seq<char>> {
        match self {
            PositionStep::StartPos => PositionStep::StartPos,
            PositionStep::Fen(record, frc) => PositionStep::Fen(record@, *frc),
            PositionStep::Move(mv) => PositionStep::Move(mv@),
        }
    }
}

/// The steps with the text they hold.
pub open spec fn step_views(steps: Seq<PositionStep<String>>) -> Seq<PositionStep<Seq<char>>> {
    steps.map_values(|s: PositionStep<String>| s@)
}

/// Playing the moves one after the other.
pub open spec fn move_steps(moves: Seq<Seq<char>>) -> Seq<PositionStep<Seq<char>>> {
    moves.map_values(|m: Seq<char>| PositionStep::Move(m))
}

/// The steps that the arguments of `position` ask for.
///
/// Everything behind `fen` is the record, and is read on for further keywords; everything behind
/// `moves` is a move. Other words are passed over.
pub open spec fn steps_of(frc: bool, tokens: Seq<Seq<char>>) -> Seq<PositionStep<Seq<char>>>
    decreases tokens.len(),
{
    if tokens.len() == 0 {
        seq![]
    } else {
        let rest = tokens.skip(1);
        if tokens[0] == "startpos"@ {
            seq![PositionStep::StartPos] + steps_of(frc, rest)
        } else if tokens[0] == "fen"@ {
            seq![PositionStep::Fen(joined(rest, " "@), frc)] + steps_of(frc, rest)
        } else if tokens[0] == "moves"@ {
            move_steps(rest)
        } else {
            steps_of(frc, rest)
        }
    }
}

/// Appends one step.
fn add_step(steps: &mut Vec<PositionStep<String>>, step: PositionStep<String>)
    ensures
        step_views(final(steps)@) == step_views(old(steps)@).push(step@),
{
    let ghost held = steps@;
    steps.push(step);
    assert(step_views(steps@) == step_views(held).push(step@));
}

/// Reads the arguments of `position`.
pub fn position(settings: &Settings, tokens: &[&str]) -> (res: Vec<PositionStep<String>>)
    ensures
        step_views(res@) == steps_of(settings.frc, contents(tokens@)),
{
    let ghost words = contents(tokens@);
    let frc = settings.frc;
    let mut steps: Vec<PositionStep<String>> = Vec::new();
    let mut i: usize = 0;
    proof {
        assert(words.skip(0) == words);
        assert(step_views(steps@) + steps_of(frc, words) == steps_of(frc, words));
    }
    while i < tokens.len()
        invariant
            i <= tokens.len(),
            frc == settings.frc,
            words == contents(tokens@),
            step_views(steps@) + steps_of(frc, words.skip(i as int)) == steps_of(frc, words),
        decreases tokens.len() - i,
    {
        let token = tokens[i];
        let ghost here = words.skip(i as int);
        let ghost held = step_views(steps@);
        proof {
            assert(here[0] == token@);
            assert(here.skip(1) == words.skip(i + 1));
        }
        i = i + 1;
        if same(token, "startpos") {
            add_step(&mut steps, PositionStep::StartPos);
            assert(step_views(steps@) + steps_of(frc, words.skip(i as int)) == held + steps_of(frc, here));
        } else if same(token, "fen") {
            let rest = vstd::slice::slice_subrange(tokens, i, tokens.len());
            assert(contents(rest@) == words.skip(i as int));
            add_step(&mut steps, PositionStep::Fen(join(rest, " "), frc));
            assert(step_views(steps@) + steps_of(frc, words.skip(i as int)) == held + steps_of(frc, here));
        } else if same(token, "moves") {
            let ghost moves = words.skip(i as int);
            let ghost first: int = i as int;
            while i < tokens.len()
                invariant
                    0 <= first <= i <= tokens.len(),
                    words == contents(tokens@),
                    moves == words.skip(first),
                    step_views(steps@) == held + move_steps(moves).take(i - first),
                decreases tokens.len() - i,
            {
                add_step(&mut steps, PositionStep::Move(tokens[i].to_owned()));
                assert(moves[i - first] == words[i as int]);
                assert(words[i as int] == tokens@[i as int]@);
                assert(move_steps(moves).take(i - first + 1) == move_steps(moves).take(
                    i - first,
                ).push(PositionStep::Move(tokens@[i as int]@)));
                i = i + 1;
            }
            assert(move_steps(moves).take(i - first) == move_steps(moves));
            return steps;
        }
    }
    assert(words.skip(i as int).len() == 0);
    assert(step_views(steps@) + steps_of(frc, words.skip(i as int)) == step_views(steps@));
    steps
}

/// Whether `res` is the first of the legal moves that is written as the move asked for, and nothing
/// if none is.
pub open spec fn finds(legal: Seq<String>, uci_move: Seq<char>, res: Option<usize>) -> bool {
    match res {
        Some(i) => i < legal.len() && legal[i as int]@ == uci_move && forall|j: int|
            0 <= j < i ==> (#[trigger] legal[j])@ != uci_move,
        None => forall|j: int| 0 <= j < legal.len() ==> (#[trigger] legal[j])@ != uci_move,
    }
}

/// Which of the legal moves, given in UCI notation, is the move asked for: the first that is written
/// the same.
pub fn make_uci_move(legal: &Vec<String>, uci_move: &str) -> (res: Option<usize>)
    ensures
        finds(legal@, uci_move@, res),
{
    let mut i: usize = 0;
    while i < legal.len()
        invariant
            i <= legal.len(),
            forall|j: int| 0 <= j < i ==> (#[trigger] legal@[j])@ != uci_move@,
        decreases legal.len() - i,
    {
        if same(legal[i].as_str(), uci_move) {
            return Some(i);
        }
        i = i + 1;
    }
    None
}

/// Whether none of the words means something to `position`.
pub open spec fn no_keywords(tokens: Seq<Seq<char>>) -> bool {
    forall|i: int|
        0 <= i < tokens.len() ==> #[trigger] tokens[i] != "startpos"@ && tokens[i] != "fen"@
            && tokens[i] != "moves"@
}

proof fn keywords_differ()
    ensures
        "startpos"@ != "fen"@,
        "startpos"@ != "moves"@,
        "fen"@ != "moves"@,
{
    reveal_strlit("startpos");
    reveal_strlit("fen");
    reveal_strlit("moves");
    assert("startpos"@[0] == 's');
    assert("fen"@[0] == 'f');
    assert("moves"@[0] == 'm');
}

/// Words that mean nothing to `position` are passed over, up to `moves`.
proof fn words_before_moves_are_skipped(frc: bool, fields: Seq<Seq<char>>, moves: Seq<Seq<char>>)
    requires
        no_keywords(fields),
    ensures
        steps_of(frc, fields + seq!["moves"@] + moves) == move_steps(moves),
    decreases fields.len(),
{
    let all = fields + seq!["moves"@] + moves;
    keywords_differ();
    if fields.len() == 0 {
        assert(all[0] == "moves"@);
        assert(all.skip(1) == moves);
    } else {
        assert(all[0] == fields[0]);
        assert(all.skip(1) == fields.skip(1) + seq!["moves"@] + moves);
        words_before_moves_are_skipped(frc, fields.skip(1), moves);
    }
}

/// `startpos moves` and moves: the starting position, and then the moves in order.
pub proof fn law_startpos_then_moves(frc: bool, moves: Seq<Seq<char>>)
    ensures
        steps_of(frc, seq!["startpos"@, "moves"@] + moves) == seq![
            PositionStep::<Seq<char>>::StartPos,
        ] + move_steps(moves),
{
    let all = seq!["startpos"@, "moves"@] + moves;
    keywords_differ();
    assert(all[0] == "startpos"@);
    assert(all.skip(1) == Seq::<Seq<char>>::empty() + seq!["moves"@] + moves);
    words_before_moves_are_skipped(frc, Seq::empty(), moves);
}

/// `fen`, the fields of a record, `moves` and moves: the position of the record, and then the moves
/// in order. The record is handed on with all that follows it.
pub proof fn law_fen_then_moves(frc: bool, fields: Seq<Seq<char>>, moves: Seq<Seq<char>>)
    requires
        no_keywords(fields),
    ensures
        steps_of(frc, seq!["fen"@] + fields + seq!["moves"@] + moves) == seq![
            PositionStep::Fen(joined(fields + seq!["moves"@] + moves, " "@), frc),
        ] + move_steps(moves),
{
    let all = seq!["fen"@] + fields + seq!["moves"@] + moves;
    keywords_differ();
    assert(all[0] == "fen"@);
    assert(all.skip(1) == fields + seq!["moves"@] + moves);
    words_before_moves_are_skipped(frc, fields, moves);
}

/// Whether the steps end in these moves, in order, behind the first `n`.
pub open spec fn plays(
    steps: Seq<PositionStep<Seq<char>>>,
    n: int,
    moves: Seq<Seq<char>>,
) -> bool {
    &&& steps.len() == n + moves.len()
    &&& forall|i: int| 0 <= i < moves.len() ==> #[trigger] steps[n + i] == PositionStep::Move(moves[i])
}

/// Behind `moves` every word is a move to play, in order, whatever it looks like.
pub proof fn law_all_moves_are_played(frc: bool, moves: Seq<Seq<char>>)
    ensures
        plays(steps_of(frc, seq!["moves"@] + moves), 0, moves),
        plays(steps_of(frc, seq!["startpos"@, "moves"@] + moves), 1, moves),
        steps_of(frc, seq!["startpos"@, "moves"@] + moves)[0]
            == PositionStep::<Seq<char>>::StartPos,
{
    keywords_differ();
    let all = seq!["moves"@] + moves;
    assert(all =~= Seq::<Seq<char>>::empty() + seq!["moves"@] + moves);
    words_before_moves_are_skipped(frc, Seq::empty(), moves);
    law_startpos_then_moves(frc, moves);
    let steps = steps_of(frc, all);
    let more = steps_of(frc, seq!["startpos"@, "moves"@] + moves);
    assert forall|i: int| 0 <= i < moves.len() implies #[trigger] steps[0 + i]
        == PositionStep::Move(moves[i]) by {}
    assert forall|i: int| 0 <= i < moves.len() implies #[trigger] more[1 + i] == PositionStep::Move(
        moves[i],
    ) by {}
}

/// `startpos` takes the starting position. `fen` takes the record that is all the words behind it,
/// with a space between two, under the rules that are set. Either goes on with the words behind it.
/// Any other word but `moves` is passed over.
pub proof fn law_words_of_a_position(frc: bool, word: Seq<char>, rest: Seq<Seq<char>>)
    ensures
        steps_of(frc, seq!["startpos"@] + rest) == seq![PositionStep::<Seq<char>>::StartPos]
            + steps_of(frc, rest),
        steps_of(frc, seq!["fen"@] + rest) == seq![PositionStep::Fen(joined(rest, seq![' ']), frc)]
            + steps_of(frc, rest),
        word != "startpos"@ && word != "fen"@ && word != "moves"@ ==> steps_of(
            frc,
            seq![word] + rest,
        ) == steps_of(frc, rest),
        steps_of(frc, Seq::empty()).len() == 0,
{
    keywords_differ();
    reveal_strlit(" ");
    assert(" "@ =~= seq![' ']);
    assert((seq!["startpos"@] + rest).skip(1) =~= rest);
    assert((seq!["fen"@] + rest).skip(1) =~= rest);
    assert((seq![word] + rest).skip(1) =~= rest);
}

/// The rules that are set are those of every record, and make no other difference.
pub proof fn law_rules_reach_every_record(frc: bool, tokens: Seq<Seq<char>>, i: int)
    requires
        0 <= i < steps_of(frc, tokens).len(),
    ensures
        steps_of(frc, tokens).len() == steps_of(!frc, tokens).len(),
        match steps_of(frc, tokens)[i] {
            PositionStep::Fen(record, flag) => flag == frc && steps_of(!frc, tokens)[i]
                == PositionStep::Fen(record, !frc),
            other => steps_of(!frc, tokens)[i] == other,
        },
    decreases tokens.len(),
{
    if tokens.len() > 0 {
        let rest = tokens.skip(1);
        keywords_differ();
        lengths_agree(frc, tokens);
        if tokens[0] == "startpos"@ || tokens[0] == "fen"@ {
            if i > 0 {
                law_rules_reach_every_record(frc, rest, i - 1);
            }
        } else if tokens[0] != "moves"@ {
            law_rules_reach_every_record(frc, rest, i);
        }
    }
}

proof fn lengths_agree(frc: bool, tokens: Seq<Seq<char>>)
    ensures
        steps_of(frc, tokens).len() == steps_of(!frc, tokens).len(),
    decreases tokens.len(),
{
    if tokens.len() > 0 {
        lengths_agree(frc, tokens.skip(1));
    }
}

/// A move that is legal is found, and one that is not is not. The move found is written as the one
/// asked for.
pub proof fn law_legal_moves_are_found(
    legal: Seq<String>,
    uci_move: Seq<char>,
    res: Option<usize>,
)
    requires
        finds(legal, uci_move, res),
    ensures
        res is Some <==> exists|i: int| 0 <= i < legal.len() && (#[trigger] legal[i])@ == uci_move,
        res matches Some(i) ==> i < legal.len() && legal[i as int]@ == uci_move && !exists|j: int|
            0 <= j < i && (#[trigger] legal[j])@ == uci_move,
{
    if let Some(i) = res {
        assert(legal[i as int]@ == uci_move);
    }
}

/// What a list of steps is seen to hold is all it holds, step by step.
pub proof fn law_steps_are_seen_whole(steps: Seq<PositionStep<String>>, i: int)
    requires
        0 <= i < steps.len(),
    ensures
        step_views(steps).len() == steps.len(),
        match steps[i] {
            PositionStep::StartPos => step_views(steps)[i] is StartPos,
            PositionStep::Fen(record, frc) => step_views(steps)[i] == PositionStep::Fen(record@, frc),
            PositionStep::Move(mv) => step_views(steps)[i] == PositionStep::Move(mv@),
        },
{
}

} // verus!

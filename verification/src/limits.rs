//! What bounds a search: the arguments of `go`.

use vstd::prelude::*;

use crate::number::parse_i32;
use crate::text::{contents, same};

verus! {

/// The side to move.
#[derive(Copy, Clone, Debug, PartialEq, Eq, Structural)]
pub enum Color {
    White,
    Black,
}

/// What bounds a search. Times are in milliseconds.
#[derive(Copy, Clone, Debug, PartialEq, Eq, Structural)]
pub enum Limits {
    /// Until told to stop.
    Infinite,
    /// Up to this depth.
    Depth(i32),
    /// For this long.
    Time(u64),
    /// Up to this many nodes.
    Nodes(u64),
    /// Remaining time and increment per move.
    Fischer(u64, u64),
    /// Remaining time, increment per move, and moves to the next time control.
    Cyclic(u64, u64, u64),
}

/// How many complete name and value pairs the tokens form. An odd token at the end is in none.
pub open spec fn pair_count(tokens: Seq<Seq<char>>) -> int {
    tokens.len() as int / 2
}

/// The name in pair `i`.
pub open spec fn pair_name(tokens: Seq<Seq<char>>, i: int) -> Seq<char> {
    tokens[2 * i]
}

/// The value in pair `i`, if it is an `i32`.
pub open spec fn pair_value(tokens: Seq<Seq<char>>, i: int) -> Option<i32> {
    crate::number::integer_i32(tokens[2 * i + 1])
}

/// The limit that pair `i` sets by itself, whatever the other pairs say: a positive depth, time
/// or node count.
pub open spec fn fixed_limit(tokens: Seq<Seq<char>>, i: int) -> Option<Limits> {
    match pair_value(tokens, i) {
        Some(v) if v > 0 => if pair_name(tokens, i) == "depth"@ {
            Some(Limits::Depth(v))
        } else if pair_name(tokens, i) == "movetime"@ {
            Some(Limits::Time(v as u64))
        } else if pair_name(tokens, i) == "nodes"@ {
            Some(Limits::Nodes(v as u64))
        } else {
            None
        },
        _ => None,
    }
}

/// The first fixed limit from pair `i` on.
pub open spec fn first_fixed_limit(tokens: Seq<Seq<char>>, i: int) -> Option<Limits>
    decreases pair_count(tokens) - i,
{
    if i >= pair_count(tokens) {
        None
    } else if fixed_limit(tokens, i) is Some {
        fixed_limit(tokens, i)
    } else {
        first_fixed_limit(tokens, i + 1)
    }
}

/// The value of the last pair with that name and an `i32` for a value, among the first `n` pairs.
pub open spec fn last_value(tokens: Seq<Seq<char>>, name: Seq<char>, n: int) -> Option<i32>
    decreases n,
{
    if n <= 0 {
        None
    } else if pair_name(tokens, n - 1) == name && pair_value(tokens, n - 1) is Some {
        pair_value(tokens, n - 1)
    } else {
        last_value(tokens, name, n - 1)
    }
}

/// The name under which the remaining time of `color` is given.
pub open spec fn time_name(color: Color) -> Seq<char> {
    match color {
        Color::White => "wtime"@,
        Color::Black => "btime"@,
    }
}

/// The name under which the increment of `color` is given.
pub open spec fn increment_name(color: Color) -> Seq<char> {
    match color {
        Color::White => "winc"@,
        Color::Black => "binc"@,
    }
}

/// A clock reading: nothing stands for zero, and so does a negative reading.
pub open spec fn clock_reading(value: Option<i32>) -> u64 {
    match value {
        Some(v) if v > 0 => v as u64,
        _ => 0,
    }
}

/// A count of moves: a negative number wraps around into `u64`.
pub open spec fn wrapped(value: i32) -> u64 {
    if value >= 0 {
        value as u64
    } else {
        (value + 0x1_0000_0000_0000_0000) as u64
    }
}

/// The limit that clock readings set.
pub open spec fn clock_limits(
    main: Option<i32>,
    inc: Option<i32>,
    moves: Option<i32>,
) -> Limits {
    if main is None && inc is None {
        Limits::Infinite
    } else {
        match moves {
            Some(m) => Limits::Cyclic(clock_reading(main), clock_reading(inc), wrapped(m)),
            None => Limits::Fischer(clock_reading(main), clock_reading(inc)),
        }
    }
}

/// The limit that the arguments of `go` ask for when `color` is to move.
pub open spec fn limits_of(color: Color, tokens: Seq<Seq<char>>) -> Limits {
    if tokens =~= seq!["infinite"@] {
        Limits::Infinite
    } else {
        match first_fixed_limit(tokens, 0) {
            Some(limit) => limit,
            None => {
                let n = pair_count(tokens);
                clock_limits(
                    last_value(tokens, time_name(color), n),
                    last_value(tokens, increment_name(color), n),
                    last_value(tokens, "movestogo"@, n),
                )
            },
        }
    }
}

/// The five clock names differ from one another and from the names of fixed limits.
proof fn names_differ()
    ensures
        "wtime"@ != "btime"@,
        "wtime"@ != "winc"@,
        "wtime"@ != "binc"@,
        "btime"@ != "winc"@,
        "btime"@ != "binc"@,
        "winc"@ != "binc"@,
        "movestogo"@ != "wtime"@,
        "movestogo"@ != "btime"@,
        "movestogo"@ != "winc"@,
        "movestogo"@ != "binc"@,
        "depth"@ != "wtime"@,
        "depth"@ != "btime"@,
        "depth"@ != "winc"@,
        "depth"@ != "binc"@,
        "depth"@ != "movestogo"@,
        "movetime"@ != "wtime"@,
        "movetime"@ != "btime"@,
        "movetime"@ != "winc"@,
        "movetime"@ != "binc"@,
        "movetime"@ != "movestogo"@,
        "nodes"@ != "wtime"@,
        "nodes"@ != "btime"@,
        "nodes"@ != "winc"@,
        "nodes"@ != "binc"@,
        "nodes"@ != "movestogo"@,
{
    reveal_strlit("wtime");
    reveal_strlit("btime");
    reveal_strlit("winc");
    reveal_strlit("binc");
    reveal_strlit("movestogo");
    reveal_strlit("depth");
    reveal_strlit("movetime");
    reveal_strlit("nodes");
    assert("wtime"@.len() == 5 && "btime"@.len() == 5);
    assert("winc"@.len() == 4 && "binc"@.len() == 4);
    assert("movestogo"@.len() == 9 && "movetime"@.len() == 8);
    assert("wtime"@[0] == 'w');
    assert("btime"@[0] == 'b');
    assert("winc"@[0] == 'w');
    assert("binc"@[0] == 'b');
    assert("movestogo"@[0] == 'm');
    assert("depth"@[0] == 'd');
    assert("nodes"@[0] == 'n');
}

/// Reads the arguments of `go`.
///
/// A lone `infinite` asks for an unbounded search. Otherwise the tokens are taken in pairs of a
/// name and a value, and pairs whose value is no `i32` are passed over. The first pair that sets a
/// depth, a time or a node count above zero decides. Without one, the clock of the side to move
/// decides, the last pair of a name counting; with no clock either, the search is unbounded.
pub fn parse_limits(color: Color, tokens: &[&str]) -> (res: Limits)
    ensures
        res == limits_of(color, contents(tokens@)),
{
    let ghost words = contents(tokens@);
    if tokens.len() == 1 && same(tokens[0], "infinite") {
        assert(words =~= seq!["infinite"@]);
        return Limits::Infinite;
    }
    proof {
        names_differ();
        assert(!(words =~= seq!["infinite"@])) by {
            if words.len() == 1 {
                assert(words[0] == tokens@[0]@);
                assert(seq!["infinite"@][0] == "infinite"@);
            }
        }
    }
    let mut main: Option<i32> = None;
    let mut inc: Option<i32> = None;
    let mut moves: Option<u64> = None;
    let pairs: usize = tokens.len() / 2;
    let mut i: usize = 0;
    while i < pairs
        invariant
            words == contents(tokens@),
            pairs == pair_count(words),
            2 * pairs <= tokens.len(),
            i <= pairs,
            first_fixed_limit(words, 0) == first_fixed_limit(words, i as int),
            main == last_value(words, time_name(color), i as int),
            inc == last_value(words, increment_name(color), i as int),
            moves == match last_value(words, "movestogo"@, i as int) {
                Some(m) => Some(wrapped(m)),
                None => None,
            },
            !(words =~= seq!["infinite"@]),
        decreases pairs - i,
    {
        let name = tokens[2 * i];
        let value = parse_i32(tokens[2 * i + 1]);
        proof {
            names_differ();
            assert(name@ == pair_name(words, i as int));
            assert(value == pair_value(words, i as int));
        }
        if let Some(v) = value {
            if same(name, "depth") {
                if v > 0 {
                    return Limits::Depth(v);
                }
            } else if same(name, "movetime") {
                if v > 0 {
                    return Limits::Time(v as u64);
                }
            } else if same(name, "nodes") {
                if v > 0 {
                    return Limits::Nodes(v as u64);
                }
            } else if same(name, "wtime") {
                if color == Color::White {
                    main = Some(v);
                }
            } else if same(name, "btime") {
                if color == Color::Black {
                    main = Some(v);
                }
            } else if same(name, "winc") {
                if color == Color::White {
                    inc = Some(v);
                }
            } else if same(name, "binc") {
                if color == Color::Black {
                    inc = Some(v);
                }
            } else if same(name, "movestogo") {
                let count: u64 = v as u64;
                proof {
                    assert(v < 0 ==> v as u64 == v + 0x1_0000_0000_0000_0000) by (bit_vector);
                }
                moves = Some(count);
            }
        }
        i = i + 1;
    }
    if main.is_none() && inc.is_none() {
        return Limits::Infinite;
    }
    let main: u64 = match main {
        Some(v) if v > 0 => v as u64,
        _ => 0,
    };
    let inc: u64 = match inc {
        Some(v) if v > 0 => v as u64,
        _ => 0,
    };
    match moves {
        Some(m) => Limits::Cyclic(main, inc, m),
        None => Limits::Fischer(main, inc),
    }
}

/// Whether pair `i` reads a clock of the side that is not to move.
pub open spec fn is_opponent_clock(color: Color, tokens: Seq<Seq<char>>, i: int) -> bool {
    ||| pair_name(tokens, i) == time_name(opponent(color))
    ||| pair_name(tokens, i) == increment_name(opponent(color))
}

/// Whether `a` and `b` give the same arguments, but for the values of the opponent's clock.
pub open spec fn differ_in_opponent_clock(
    color: Color,
    a: Seq<Seq<char>>,
    b: Seq<Seq<char>>,
) -> bool {
    &&& a.len() == b.len()
    &&& forall|i: int| 0 <= 2 * i < a.len() ==> #[trigger] pair_name(a, i) == pair_name(b, i)
    &&& forall|i: int|
        0 <= i < pair_count(a) && !is_opponent_clock(color, a, i) ==> #[trigger] pair_value(a, i)
            == pair_value(b, i)
}

proof fn first_fixed_limit_agrees(color: Color, a: Seq<Seq<char>>, b: Seq<Seq<char>>, i: int)
    requires
        differ_in_opponent_clock(color, a, b),
        0 <= i,
    ensures
        first_fixed_limit(a, i) == first_fixed_limit(b, i),
    decreases pair_count(a) - i,
{
    names_differ();
    if i < pair_count(a) {
        first_fixed_limit_agrees(color, a, b, i + 1);
        assert(pair_name(a, i) == pair_name(b, i));
        if !is_opponent_clock(color, a, i) {
            assert(pair_value(a, i) == pair_value(b, i));
        }
    }
}

proof fn last_value_agrees(
    color: Color,
    a: Seq<Seq<char>>,
    b: Seq<Seq<char>>,
    name: Seq<char>,
    n: int,
)
    requires
        differ_in_opponent_clock(color, a, b),
        name == time_name(color) || name == increment_name(color) || name == "movestogo"@,
        n <= pair_count(a),
    ensures
        last_value(a, name, n) == last_value(b, name, n),
    decreases n,
{
    names_differ();
    if n > 0 {
        last_value_agrees(color, a, b, name, n - 1);
        assert(pair_name(a, n - 1) == pair_name(b, n - 1));
        if !is_opponent_clock(color, a, n - 1) {
            assert(pair_value(a, n - 1) == pair_value(b, n - 1));
        }
    }
}

/// Only the clock of the side to move bounds a search: other readings of the opponent's clock give
/// the same limit.
pub proof fn law_opponent_clock_is_ignored(color: Color, a: Seq<Seq<char>>, b: Seq<Seq<char>>)
    requires
        differ_in_opponent_clock(color, a, b),
    ensures
        limits_of(color, a) == limits_of(color, b),
{
    let n = pair_count(a);
    first_fixed_limit_agrees(color, a, b, 0);
    last_value_agrees(color, a, b, time_name(color), n);
    last_value_agrees(color, a, b, increment_name(color), n);
    last_value_agrees(color, a, b, "movestogo"@, n);
    if a.len() == 1 {
        assert(pair_name(a, 0) == pair_name(b, 0));
        assert(seq!["infinite"@][0] == "infinite"@);
        assert((a =~= seq!["infinite"@]) == (b =~= seq!["infinite"@]));
    }
}

proof fn first_fixed_limit_is_positive(tokens: Seq<Seq<char>>, i: int)
    ensures
        match first_fixed_limit(tokens, i) {
            Some(Limits::Depth(d)) => d > 0,
            Some(Limits::Time(t)) => t > 0,
            Some(Limits::Nodes(n)) => n > 0,
            Some(_) => false,
            None => true,
        },
    decreases pair_count(tokens) - i,
{
    if i < pair_count(tokens) {
        first_fixed_limit_is_positive(tokens, i + 1);
    }
}

/// A depth, a time or a node count that bounds a search is above zero.
pub proof fn law_fixed_limits_are_positive(color: Color, tokens: Seq<Seq<char>>)
    ensures
        match limits_of(color, tokens) {
            Limits::Depth(d) => d > 0,
            Limits::Time(t) => t > 0,
            Limits::Nodes(n) => n > 0,
            _ => true,
        },
{
    first_fixed_limit_is_positive(tokens, 0);
}

/// The other side.
pub open spec fn opponent(color: Color) -> Color {
    match color {
        Color::White => Color::Black,
        Color::Black => Color::White,
    }
}

/// The clock name of the other side that means the same. Other names stand for themselves.
pub open spec fn mirrored_name(name: Seq<char>) -> Seq<char> {
    if name == "wtime"@ {
        "btime"@
    } else if name == "btime"@ {
        "wtime"@
    } else if name == "winc"@ {
        "binc"@
    } else if name == "binc"@ {
        "winc"@
    } else {
        name
    }
}

/// The arguments with the clock names of the two sides exchanged, where names stand.
pub open spec fn mirrored(tokens: Seq<Seq<char>>) -> Seq<Seq<char>> {
    Seq::new(
        tokens.len(),
        |i: int|
            if i % 2 == 0 {
                mirrored_name(tokens[i])
            } else {
                tokens[i]
            },
    )
}

proof fn mirrored_pair(tokens: Seq<Seq<char>>, i: int)
    requires
        0 <= i < pair_count(tokens),
    ensures
        pair_count(mirrored(tokens)) == pair_count(tokens),
        pair_name(mirrored(tokens), i) == mirrored_name(pair_name(tokens, i)),
        pair_value(mirrored(tokens), i) == pair_value(tokens, i),
{
    assert((2 * i) % 2 == 0 && (2 * i + 1) % 2 == 1);
}

proof fn mirrored_fixed_limit(tokens: Seq<Seq<char>>, i: int)
    requires
        0 <= i,
    ensures
        first_fixed_limit(mirrored(tokens), i) == first_fixed_limit(tokens, i),
    decreases pair_count(tokens) - i,
{
    names_differ();
    if i < pair_count(tokens) {
        mirrored_pair(tokens, i);
        mirrored_fixed_limit(tokens, i + 1);
    }
}

proof fn mirrored_last_value(tokens: Seq<Seq<char>>, name: Seq<char>, n: int)
    requires
        n <= pair_count(tokens),
        name == "wtime"@ || name == "btime"@ || name == "winc"@ || name == "binc"@ || name
            == "movestogo"@,
    ensures
        last_value(mirrored(tokens), mirrored_name(name), n) == last_value(tokens, name, n),
    decreases n,
{
    names_differ();
    if n > 0 {
        mirrored_pair(tokens, n - 1);
        mirrored_last_value(tokens, name, n - 1);
    }
}

/// The sides are treated alike: with the clock names exchanged, the other side gets the same limit.
pub proof fn law_sides_are_treated_alike(color: Color, tokens: Seq<Seq<char>>)
    ensures
        limits_of(opponent(color), mirrored(tokens)) == limits_of(color, tokens),
{
    names_differ();
    infinite_is_no_clock();
    let n = pair_count(tokens);
    mirrored_fixed_limit(tokens, 0);
    mirrored_last_value(tokens, time_name(color), n);
    mirrored_last_value(tokens, increment_name(color), n);
    mirrored_last_value(tokens, "movestogo"@, n);
    assert(seq!["infinite"@][0] == "infinite"@);
    if tokens.len() == 1 {
        assert(mirrored(tokens)[0] == mirrored_name(tokens[0]));
        assert((mirrored(tokens) =~= seq!["infinite"@]) == (tokens =~= seq!["infinite"@]));
    }
}

proof fn infinite_is_no_clock()
    ensures
        "infinite"@ != "wtime"@,
        "infinite"@ != "btime"@,
        "infinite"@ != "winc"@,
        "infinite"@ != "binc"@,
{
    reveal_strlit("infinite");
    reveal_strlit("wtime");
    reveal_strlit("btime");
    reveal_strlit("winc");
    reveal_strlit("binc");
    assert("infinite"@.len() == 8);
}

/// Whether the pair at place `i` of the arguments gives this name this value.
pub open spec fn reads(tokens: Seq<Seq<char>>, i: int, name: Seq<char>, value: i32) -> bool {
    &&& 0 <= i && 2 * i + 1 < tokens.len()
    &&& tokens[2 * i] == name
    &&& crate::number::integer_i32(tokens[2 * i + 1]) == Some(value)
}

/// Whether a pair before place `n` asks for a depth, a time or a node count above zero.
pub open spec fn is_bounded_before(tokens: Seq<Seq<char>>, n: int) -> bool {
    exists|i: int, v: i32|
        i < n && v > 0 && (#[trigger] reads(tokens, i, "depth"@, v) || reads(
            tokens,
            i,
            "movetime"@,
            v,
        ) || reads(tokens, i, "nodes"@, v))
}

/// Whether `value` is what the last pair with this name gives, and nothing if no pair has the name.
pub open spec fn is_last_reading(
    tokens: Seq<Seq<char>>,
    name: Seq<char>,
    value: Option<i32>,
) -> bool {
    match value {
        Some(v) => exists|i: int|
            #[trigger] reads(tokens, i, name, v) && forall|j: int, w: i32|
                j > i ==> !#[trigger] reads(tokens, j, name, w),
        None => forall|j: int, w: i32| !#[trigger] reads(tokens, j, name, w),
    }
}

proof fn fixed_limit_comes_first(tokens: Seq<Seq<char>>, from: int, i: int)
    requires
        0 <= from <= i < pair_count(tokens),
        fixed_limit(tokens, i) is Some,
        forall|j: int| from <= j < i ==> #[trigger] fixed_limit(tokens, j) is None,
    ensures
        first_fixed_limit(tokens, from) == fixed_limit(tokens, i),
    decreases i - from,
{
    if from < i {
        assert(fixed_limit(tokens, from) is None);
        fixed_limit_comes_first(tokens, from + 1, i);
    }
}

proof fn no_fixed_limit(tokens: Seq<Seq<char>>, from: int)
    requires
        0 <= from,
        forall|j: int| from <= j < pair_count(tokens) ==> #[trigger] fixed_limit(tokens, j) is None,
    ensures
        first_fixed_limit(tokens, from) is None,
    decreases pair_count(tokens) - from,
{
    if from < pair_count(tokens) {
        no_fixed_limit(tokens, from + 1);
    }
}

proof fn unbounded_pairs_fix_nothing(tokens: Seq<Seq<char>>, n: int)
    requires
        !is_bounded_before(tokens, n),
        n <= pair_count(tokens),
    ensures
        forall|j: int| 0 <= j < n ==> #[trigger] fixed_limit(tokens, j) is None,
{
    assert forall|j: int| 0 <= j < n implies #[trigger] fixed_limit(tokens, j) is None by {
        if fixed_limit(tokens, j) is Some {
            let v = pair_value(tokens, j)->0;
            let is_depth = reads(tokens, j, "depth"@, v);
            assert(j < n && v > 0 && (is_depth || reads(tokens, j, "movetime"@, v) || reads(
                tokens,
                j,
                "nodes"@,
                v,
            )));
        }
    }
}

proof fn last_reading_is_last_value(
    tokens: Seq<Seq<char>>,
    name: Seq<char>,
    value: Option<i32>,
    n: int,
)
    requires
        0 <= n <= pair_count(tokens),
        match value {
            Some(v) => exists|i: int|
                i < n && #[trigger] reads(tokens, i, name, v) && forall|j: int, w: i32|
                    i < j < n ==> !#[trigger] reads(tokens, j, name, w),
            None => forall|j: int, w: i32| j < n ==> !#[trigger] reads(tokens, j, name, w),
        },
    ensures
        last_value(tokens, name, n) == value,
    decreases n,
{
    if n > 0 {
        if pair_name(tokens, n - 1) == name && pair_value(tokens, n - 1) is Some {
            let w = pair_value(tokens, n - 1)->0;
            assert(reads(tokens, n - 1, name, w));
        } else {
            if let Some(v) = value {
                let i = choose|i: int|
                    i < n && #[trigger] reads(tokens, i, name, v) && forall|j: int, w: i32|
                        i < j < n ==> !#[trigger] reads(tokens, j, name, w);
                assert(i < n - 1);
                assert(reads(tokens, i, name, v));
            }
            last_reading_is_last_value(tokens, name, value, n - 1);
        }
    } else if let Some(v) = value {
        let i = choose|i: int| i < n && #[trigger] reads(tokens, i, name, v);
        assert(false);
    }
}

proof fn fixed_names_differ()
    ensures
        "depth"@ != "movetime"@,
        "depth"@ != "nodes"@,
        "movetime"@ != "nodes"@,
{
    reveal_strlit("depth");
    reveal_strlit("movetime");
    reveal_strlit("nodes");
    assert("depth"@[0] == 'd');
    assert("movetime"@[0] == 'm');
    assert("nodes"@[0] == 'n');
}

/// The first depth, time or node count above zero bounds the search, with the number it gives,
/// whatever else is asked for and whoever is to move.
pub proof fn law_first_bound_decides(color: Color, tokens: Seq<Seq<char>>, i: int, v: i32)
    requires
        v > 0,
        !is_bounded_before(tokens, i),
    ensures
        reads(tokens, i, "depth"@, v) ==> limits_of(color, tokens) == Limits::Depth(v),
        reads(tokens, i, "movetime"@, v) ==> (limits_of(color, tokens) matches Limits::Time(t) && t
            == v),
        reads(tokens, i, "nodes"@, v) ==> (limits_of(color, tokens) matches Limits::Nodes(n) && n
            == v),
{
    fixed_names_differ();
    if reads(tokens, i, "depth"@, v) || reads(tokens, i, "movetime"@, v) || reads(
        tokens,
        i,
        "nodes"@,
        v,
    ) {
        unbounded_pairs_fix_nothing(tokens, i);
        assert(fixed_limit(tokens, i) is Some);
        fixed_limit_comes_first(tokens, 0, i);
        assert(seq!["infinite"@].len() == 1);
    }
}

/// Without such a bound the clock of the side to move decides: its last time and its last increment,
/// each zero if it is not given or negative, and the last count of moves to go, if one is given. A
/// clock that gives neither leaves the search unbounded.
pub proof fn law_clock_decides(
    color: Color,
    tokens: Seq<Seq<char>>,
    time: Option<i32>,
    increment: Option<i32>,
    moves: Option<i32>,
)
    requires
        !is_bounded_before(tokens, tokens.len() as int),
        color == Color::White ==> is_last_reading(tokens, "wtime"@, time) && is_last_reading(
            tokens,
            "winc"@,
            increment,
        ),
        color == Color::Black ==> is_last_reading(tokens, "btime"@, time) && is_last_reading(
            tokens,
            "binc"@,
            increment,
        ),
        is_last_reading(tokens, "movestogo"@, moves),
    ensures
        time is None && increment is None ==> limits_of(color, tokens) == Limits::Infinite,
        (time is Some || increment is Some) && moves is None ==> (limits_of(
            color,
            tokens,
        ) matches Limits::Fischer(t, n) && {
            &&& t == if time is Some && time->0 > 0 { time->0 as int } else { 0 }
            &&& n == if increment is Some && increment->0 > 0 { increment->0 as int } else { 0 }
        }),
        (time is Some || increment is Some) && moves is Some ==> (limits_of(
            color,
            tokens,
        ) matches Limits::Cyclic(t, n, m) && {
            &&& t == if time is Some && time->0 > 0 { time->0 as int } else { 0 }
            &&& n == if increment is Some && increment->0 > 0 { increment->0 as int } else { 0 }
            &&& m == if moves->0 >= 0 { moves->0 as int } else { moves->0 + 18446744073709551616 }
        }),
{
    unbounded_search_goes_by_the_clock(color, tokens, time, increment, moves);
}

proof fn earlier_pairs_bound_less(tokens: Seq<Seq<char>>, m: int, n: int)
    requires
        m <= n,
        !is_bounded_before(tokens, n),
    ensures
        !is_bounded_before(tokens, m),
{
    if is_bounded_before(tokens, m) {
        let (i, v) = choose|i: int, v: i32|
            i < m && v > 0 && (#[trigger] reads(tokens, i, "depth"@, v) || reads(
                tokens,
                i,
                "movetime"@,
                v,
            ) || reads(tokens, i, "nodes"@, v));
        assert(i < n && v > 0 && (reads(tokens, i, "depth"@, v) || reads(
            tokens,
            i,
            "movetime"@,
            v,
        ) || reads(tokens, i, "nodes"@, v)));
    }
}

proof fn last_reading_counts(tokens: Seq<Seq<char>>, name: Seq<char>, value: Option<i32>)
    requires
        is_last_reading(tokens, name, value),
    ensures
        last_value(tokens, name, pair_count(tokens)) == value,
        tokens.len() < 2 ==> value is None,
{
    let n = pair_count(tokens);
    match value {
        Some(v) => {
            let i = choose|i: int|
                #[trigger] reads(tokens, i, name, v) && forall|j: int, w: i32|
                    j > i ==> !#[trigger] reads(tokens, j, name, w);
            assert(i < n && reads(tokens, i, name, v));
        },
        None => {},
    }
    last_reading_is_last_value(tokens, name, value, n);
}

proof fn unbounded_search_goes_by_the_clock(
    color: Color,
    tokens: Seq<Seq<char>>,
    time: Option<i32>,
    increment: Option<i32>,
    moves: Option<i32>,
)
    requires
        !is_bounded_before(tokens, tokens.len() as int),
        is_last_reading(tokens, time_name(color), time),
        is_last_reading(tokens, increment_name(color), increment),
        is_last_reading(tokens, "movestogo"@, moves),
    ensures
        limits_of(color, tokens) == clock_limits(time, increment, moves),
{
    let n = pair_count(tokens);
    earlier_pairs_bound_less(tokens, n, tokens.len() as int);
    unbounded_pairs_fix_nothing(tokens, n);
    no_fixed_limit(tokens, 0);
    last_reading_counts(tokens, time_name(color), time);
    last_reading_counts(tokens, increment_name(color), increment);
    last_reading_counts(tokens, "movestogo"@, moves);
    if tokens =~= seq!["infinite"@] {
        assert(tokens.len() == 1);
    }
}

proof fn appended_pair(tokens: Seq<Seq<char>>, name: Seq<char>, value: Seq<char>, i: int)
    requires
        tokens.len() % 2 == 0,
        0 <= i <= pair_count(tokens),
    ensures
        ({
            let longer = tokens + seq![name, value];
            &&& pair_count(longer) == pair_count(tokens) + 1
            &&& i < pair_count(tokens) ==> pair_name(longer, i) == pair_name(tokens, i)
                && pair_value(longer, i) == pair_value(tokens, i)
            &&& i == pair_count(tokens) ==> pair_name(longer, i) == name && pair_value(longer, i)
                == crate::number::integer_i32(value)
        }),
{
}

proof fn appended_pair_keeps(tokens: Seq<Seq<char>>, name: Seq<char>, value: Seq<char>, i: int)
    requires
        tokens.len() % 2 == 0,
        0 <= i <= pair_count(tokens),
        name != "depth"@ && name != "movetime"@ && name != "nodes"@ || crate::number::integer_i32(
            value,
        ) is None,
    ensures
        first_fixed_limit(tokens + seq![name, value], i) == first_fixed_limit(tokens, i),
    decreases pair_count(tokens) - i,
{
    let longer = tokens + seq![name, value];
    appended_pair(tokens, name, value, i);
    if i < pair_count(tokens) {
        appended_pair_keeps(tokens, name, value, i + 1);
    } else {
        assert(first_fixed_limit(longer, i + 1) is None);
    }
}

proof fn last_value_of_prefix(
    tokens: Seq<Seq<char>>,
    name: Seq<char>,
    value: Seq<char>,
    other: Seq<char>,
    n: int,
)
    requires
        tokens.len() % 2 == 0,
        n <= pair_count(tokens),
    ensures
        last_value(tokens + seq![name, value], other, n) == last_value(tokens, other, n),
    decreases n,
{
    if n > 0 {
        appended_pair(tokens, name, value, n - 1);
        last_value_of_prefix(tokens, name, value, other, n - 1);
    }
}

/// A count of moves to go is added to a clock and takes nothing from it: the time and the increment
/// stay what they are.
pub proof fn law_moves_to_go_leave_the_clock_alone(
    color: Color,
    tokens: Seq<Seq<char>>,
    value: Seq<char>,
    m: i32,
    t: u64,
    n: u64,
)
    requires
        tokens.len() % 2 == 0,
        crate::number::integer_i32(value) == Some(m),
        m >= 0,
    ensures
        limits_of(color, tokens) == Limits::Fischer(t, n) ==> limits_of(
            color,
            tokens + seq!["movestogo"@, value],
        ) == Limits::Cyclic(t, n, m as u64),
        limits_of(color, tokens) matches Limits::Cyclic(time, inc, _) ==> limits_of(
            color,
            tokens + seq!["movestogo"@, value],
        ) == Limits::Cyclic(time, inc, m as u64),
        !(limits_of(color, tokens) is Fischer) && !(limits_of(color, tokens) is Cyclic)
            ==> limits_of(color, tokens + seq!["movestogo"@, value]) == limits_of(color, tokens),
{
    let longer = tokens + seq!["movestogo"@, value];
    let k = pair_count(tokens);
    names_differ();
    appended_pair(tokens, "movestogo"@, value, k);
    appended_pair_keeps(tokens, "movestogo"@, value, 0);
    last_value_of_prefix(tokens, "movestogo"@, value, time_name(color), k);
    last_value_of_prefix(tokens, "movestogo"@, value, increment_name(color), k);
    first_fixed_limit_is_positive(tokens, 0);
    assert(last_value(longer, time_name(color), k + 1) == last_value(tokens, time_name(color), k));
    assert(last_value(longer, increment_name(color), k + 1) == last_value(
        tokens,
        increment_name(color),
        k,
    ));
    assert(last_value(longer, "movestogo"@, k + 1) == Some(m));
    assert(longer.len() != 1);
    assert(tokens.len() != 1);
}

/// What means nothing makes no difference: a pair whose value is no number, a pair with a name that
/// is none of the eight, and an odd word at the end.
pub proof fn law_meaningless_arguments_are_passed_over(
    color: Color,
    tokens: Seq<Seq<char>>,
    name: Seq<char>,
    value: Seq<char>,
)
    requires
        tokens.len() % 2 == 0,
    ensures
        crate::number::integer_i32(value) is None ==> limits_of(color, tokens + seq![name, value])
            == limits_of(color, tokens),
        name != "depth"@ && name != "movetime"@ && name != "nodes"@ && name != "wtime"@ && name
            != "btime"@ && name != "winc"@ && name != "binc"@ && name != "movestogo"@ ==> limits_of(
            color,
            tokens + seq![name, value],
        ) == limits_of(color, tokens),
        limits_of(color, tokens.push(name)) == limits_of(color, tokens),
        limits_of(color, seq!["infinite"@]) == Limits::Infinite,
        limits_of(color, Seq::empty()) == Limits::Infinite,
{
    let longer = tokens + seq![name, value];
    let odd = tokens.push(name);
    let k = pair_count(tokens);
    assert(tokens.len() != 1 && longer.len() != 1);
    appended_pair(tokens, name, value, k);
    if crate::number::integer_i32(value) is None || (name != "depth"@ && name != "movetime"@ && name
        != "nodes"@ && name != "wtime"@ && name != "btime"@ && name != "winc"@ && name != "binc"@
        && name != "movestogo"@) {
        appended_pair_keeps(tokens, name, value, 0);
        last_value_of_prefix(tokens, name, value, time_name(color), k);
        last_value_of_prefix(tokens, name, value, increment_name(color), k);
        last_value_of_prefix(tokens, name, value, "movestogo"@, k);
        assert(last_value(longer, time_name(color), k + 1) == last_value(
            tokens,
            time_name(color),
            k,
        ));
        assert(last_value(longer, increment_name(color), k + 1) == last_value(
            tokens,
            increment_name(color),
            k,
        ));
        assert(last_value(longer, "movestogo"@, k + 1) == last_value(tokens, "movestogo"@, k));
    }
    odd_word_keeps(tokens, name, 0);
    odd_word_keeps_values(tokens, name, time_name(color), k);
    odd_word_keeps_values(tokens, name, increment_name(color), k);
    odd_word_keeps_values(tokens, name, "movestogo"@, k);
    assert(pair_count(odd) == k);
    if tokens.len() == 0 {
        assert(first_fixed_limit(tokens, 0) is None);
        assert(tokens =~= Seq::empty());
    }
    assert(pair_count(Seq::<Seq<char>>::empty()) == 0);
}

proof fn odd_word_keeps(tokens: Seq<Seq<char>>, word: Seq<char>, i: int)
    requires
        tokens.len() % 2 == 0,
        0 <= i,
    ensures
        first_fixed_limit(tokens.push(word), i) == first_fixed_limit(tokens, i),
    decreases pair_count(tokens) - i,
{
    if i < pair_count(tokens) {
        odd_word_keeps(tokens, word, i + 1);
    }
}

proof fn odd_word_keeps_values(tokens: Seq<Seq<char>>, word: Seq<char>, name: Seq<char>, n: int)
    requires
        tokens.len() % 2 == 0,
        n <= pair_count(tokens),
    ensures
        last_value(tokens.push(word), name, n) == last_value(tokens, name, n),
    decreases n,
{
    if n > 0 {
        odd_word_keeps_values(tokens, word, name, n - 1);
    }
}

} // verus!

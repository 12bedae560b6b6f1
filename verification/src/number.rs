//! Decimal numbers: reading them from command arguments and writing them into replies.

use vstd::prelude::*;

use crate::text::characters;

verus! {

/// Whether `c` is one of `0` to `9`.
pub open spec fn is_digit(c: char) -> bool {
    '0' <= c <= '9'
}

/// Whether `s` is one digit or more, and nothing else.
pub open spec fn is_numeral(s: Seq<char>) -> bool {
    &&& s.len() > 0
    &&& forall|i: int| 0 <= i < s.len() ==> is_digit(#[trigger] s[i])
}

/// What a row of digits is worth in base ten.
pub open spec fn digits_value(s: Seq<char>) -> nat
    decreases s.len(),
{
    if s.len() == 0 {
        0
    } else {
        10 * digits_value(s.drop_last()) + (s.last() as nat - '0' as nat) as nat
    }
}

/// The natural number that `s` writes: digits, after an optional `+`.
pub open spec fn natural(s: Seq<char>) -> Option<nat> {
    let digits = if s.len() > 0 && s[0] == '+' {
        s.skip(1)
    } else {
        s
    };
    if is_numeral(digits) {
        Some(digits_value(digits))
    } else {
        None
    }
}

/// The integer that `s` writes: digits, after an optional `+` or `-`.
pub open spec fn integer(s: Seq<char>) -> Option<int> {
    if s.len() > 0 && s[0] == '-' {
        if is_numeral(s.skip(1)) {
            Some(-(digits_value(s.skip(1)) as int))
        } else {
            None
        }
    } else {
        match natural(s) {
            Some(n) => Some(n as int),
            None => None,
        }
    }
}

/// The number that `s` writes, if it is at most `max`.
pub open spec fn natural_up_to(s: Seq<char>, max: nat) -> Option<nat> {
    match natural(s) {
        Some(n) if n <= max => Some(n),
        _ => None,
    }
}

/// The integer that `s` writes, if an `i32` holds it.
pub open spec fn integer_i32(s: Seq<char>) -> Option<i32> {
    match integer(s) {
        Some(n) if i32::MIN <= n <= i32::MAX => Some(n as i32),
        _ => None,
    }
}

/// The shortest decimal form of `n`.
pub open spec fn decimal(n: nat) -> Seq<char>
    decreases n,
{
    if n < 10 {
        seq![digit_char(n)]
    } else {
        decimal(n / 10).push(digit_char(n % 10))
    }
}

/// The shortest decimal form of an integer: a minus stands before a negative one.
pub open spec fn signed_decimal(n: int) -> Seq<char> {
    if n < 0 {
        seq!['-'] + decimal((-n) as nat)
    } else {
        decimal(n as nat)
    }
}

/// The digit worth `n`.
pub open spec fn digit_char(n: nat) -> char {
    ('0' as nat + n) as char
}

/// The value of the digits from position `from` on, if these are one digit or more and their
/// value is at most `max`.
fn numeral_up_to(chars: &Vec<char>, from: usize, max: u64) -> (res: Option<u64>)
    requires
        from <= chars.len(),
    ensures
        res == if is_numeral(chars@.skip(from as int)) && digits_value(chars@.skip(from as int))
            <= max {
            Some(digits_value(chars@.skip(from as int)) as u64)
        } else {
            None
        },
{
    let ghost s = chars@.skip(from as int);
    if from == chars.len() {
        return None;
    }
    let mut value: u64 = 0;
    let mut fits = true;
    let mut i: usize = from;
    while i < chars.len()
        invariant
            from <= i <= chars.len(),
            s == chars@.skip(from as int),
            forall|j: int| 0 <= j < i - from ==> is_digit(#[trigger] s[j]),
            fits == (digits_value(s.take(i - from)) <= max),
            fits ==> value == digits_value(s.take(i - from)),
        decreases chars.len() - i,
    {
        let c = chars[i];
        assert(c == s[i - from]);
        if c < '0' || c > '9' {
            return None;
        }
        let digit: u64 = (c as u32 - '0' as u32) as u64;
        proof {
            assert(s.take(i - from + 1).drop_last() == s.take(i - from));
            assert(s.take(i - from + 1).last() == c);
        }
        if fits {
            let next: u128 = value as u128 * 10 + digit as u128;
            if next <= max as u128 {
                value = next as u64;
            } else {
                fits = false;
            }
        }
        i = i + 1;
    }
    assert(s.take(i - from) == s);
    if fits {
        Some(value)
    } else {
        None
    }
}

/// Reads a natural number of at most `max`.
pub fn parse_natural(s: &str, max: u64) -> (res: Option<u64>)
    ensures
        res == match natural_up_to(s@, max as nat) {
            Some(n) => Some(n as u64),
            None => None,
        },
{
    let chars = characters(s);
    if chars.len() > 0 && chars[0] == '+' {
        numeral_up_to(&chars, 1, max)
    } else {
        assert(chars@.skip(0) == chars@);
        numeral_up_to(&chars, 0, max)
    }
}

/// Reads a `u64`.
pub fn parse_u64(s: &str) -> (res: Option<u64>)
    ensures
        res == match natural_up_to(s@, u64::MAX as nat) {
            Some(n) => Some(n as u64),
            None => None,
        },
{
    parse_natural(s, u64::MAX)
}

/// Reads a `usize`.
pub fn parse_usize(s: &str) -> (res: Option<usize>)
    ensures
        res == match natural_up_to(s@, usize::MAX as nat) {
            Some(n) => Some(n as usize),
            None => None,
        },
{
    match parse_natural(s, usize::MAX as u64) {
        Some(n) => Some(n as usize),
        None => None,
    }
}

/// Reads an `i32`.
pub fn parse_i32(s: &str) -> (res: Option<i32>)
    ensures
        res == integer_i32(s@),
{
    let chars = characters(s);
    if chars.len() > 0 && chars[0] == '-' {
        match numeral_up_to(&chars, 1, 0x8000_0000) {
            Some(n) => Some((-(n as i64)) as i32),
            None => None,
        }
    } else {
        match parse_natural(s, 0x7fff_ffff) {
            Some(n) => Some(n as i32),
            None => None,
        }
    }
}

/// The digit worth `n`, as a string.
fn digit(n: u64) -> (res: &'static str)
    requires
        n < 10,
    ensures
        res@ == seq![digit_char(n as nat)],
{
    proof {
        reveal_strlit("0");
        reveal_strlit("1");
        reveal_strlit("2");
        reveal_strlit("3");
        reveal_strlit("4");
        reveal_strlit("5");
        reveal_strlit("6");
        reveal_strlit("7");
        reveal_strlit("8");
        reveal_strlit("9");
    }
    let res = match n {
        0 => "0",
        1 => "1",
        2 => "2",
        3 => "3",
        4 => "4",
        5 => "5",
        6 => "6",
        7 => "7",
        8 => "8",
        _ => "9",
    };
    assert(res@ =~= seq![digit_char(n as nat)]);
    res
}

/// Writes `n` in decimal.
pub fn render(n: u64) -> (res: String)
    ensures
        res@ == decimal(n as nat),
    decreases n,
{
    if n < 10 {
        digit(n).to_owned()
    } else {
        let mut res = render(n / 10);
        res.append(digit(n % 10));
        res
    }
}

/// Writes an integer in decimal.
pub fn render_signed(n: i32) -> (res: String)
    ensures
        res@ == signed_decimal(n as int),
{
    if n < 0 {
        proof {
            reveal_strlit("-");
            assert("-"@ =~= seq!['-']);
        }
        let size: u64 = (-(n as i64)) as u64;
        "-".to_owned().concat(render(size).as_str())
    } else {
        render(n as u64)
    }
}

/// What `decimal` writes is a numeral worth the number it was written from.
pub proof fn decimal_is_numeral(n: nat)
    ensures
        is_numeral(decimal(n)),
        digits_value(decimal(n)) == n,
    decreases n,
{
    if n < 10 {
        let s = seq![digit_char(n)];
        assert(s.drop_last() == Seq::<char>::empty());
        assert(digits_value(s.drop_last()) == 0);
    } else {
        decimal_is_numeral(n / 10);
        assert(decimal(n).drop_last() == decimal(n / 10));
    }
}

/// Reading back a natural number that was written in decimal gives that number.
pub proof fn law_natural_round_trip(n: nat)
    ensures
        natural(decimal(n)) == Some(n),
{
    decimal_is_numeral(n);
    assert(is_digit(decimal(n)[0]));
}

/// Reading back an integer that was written in decimal gives that integer.
pub proof fn law_integer_round_trip(n: int)
    ensures
        integer(signed_decimal(n)) == Some(n),
{
    if n < 0 {
        decimal_is_numeral((-n) as nat);
        assert(signed_decimal(n).skip(1) == decimal((-n) as nat));
    } else {
        decimal_is_numeral(n as nat);
        assert(is_digit(decimal(n as nat)[0]));
    }
}

/// What reads as a natural number is one digit or more behind at most one `+`, and all that is
/// written so does.
pub proof fn law_naturals_are_digits(s: Seq<char>)
    ensures
        natural(s) is Some <==> {
            let from: int = if s.len() > 0 && s[0] == '+' {
                1
            } else {
                0
            };
            s.len() > from && forall|i: int|
                from <= i < s.len() ==> 48 <= (#[trigger] s[i]) as int <= 57
        },
{
    let from: int = if s.len() > 0 && s[0] == '+' {
        1
    } else {
        0
    };
    let digits = s.skip(from);
    assert(from == 0 ==> digits =~= s);
    if is_numeral(digits) {
        assert forall|i: int| from <= i < s.len() implies 48 <= (#[trigger] s[i]) as int <= 57 by {
            assert(is_digit(digits[i - from]));
        }
    }
    if forall|i: int| from <= i < s.len() ==> 48 <= (#[trigger] s[i]) as int <= 57 {
        assert forall|i: int| 0 <= i < digits.len() implies is_digit(#[trigger] digits[i]) by {
            assert(digits[i] == s[i + from]);
        }
    }
}

/// A digit behind a number multiplies it by ten and adds its own worth. A lone digit is worth what
/// it shows.
pub proof fn law_one_more_digit(s: Seq<char>, c: char)
    requires
        48 <= c as int <= 57,
    ensures
        natural(s) matches Some(n) ==> natural(s.push(c)) == Some(
            (10 * n + (c as int - 48)) as nat,
        ),
        natural(seq![c]) == Some((c as int - 48) as nat),
{
    assert(is_digit(c));
    let lone = seq![c];
    assert(lone.drop_last() =~= Seq::<char>::empty());
    assert(digits_value(lone.drop_last()) == 0);
    assert(digits_value(lone) == (c as nat - '0' as nat) as nat);
    if natural(s) is Some {
        let signed = s.len() > 0 && s[0] == '+';
        let digits = if signed {
            s.skip(1)
        } else {
            s
        };
        let longer = digits.push(c);
        if signed {
            assert(s.push(c).skip(1) =~= longer);
        }
        assert(longer.drop_last() =~= digits);
        assert forall|i: int| 0 <= i < longer.len() implies is_digit(#[trigger] longer[i]) by {
            if i < digits.len() {
                assert(is_digit(digits[i]));
            }
        }
    }
}

/// A sign before digits: `+` makes no difference, and `-` makes the number negative.
pub proof fn law_signs(digits: Seq<char>)
    requires
        digits.len() > 0,
        forall|i: int| 0 <= i < digits.len() ==> 48 <= (#[trigger] digits[i]) as int <= 57,
    ensures
        natural(digits) is Some,
        natural(seq!['+'] + digits) == natural(digits),
        natural(seq!['-'] + digits) is None,
        integer(digits) == Some(natural(digits)->0 as int),
        integer(seq!['+'] + digits) == Some(natural(digits)->0 as int),
        integer(seq!['-'] + digits) == Some(-(natural(digits)->0 as int)),
{
    let plus = seq!['+'] + digits;
    let minus = seq!['-'] + digits;
    assert(plus.skip(1) =~= digits);
    assert(minus.skip(1) =~= digits);
    law_naturals_are_digits(digits);
    law_naturals_are_digits(plus);
    law_naturals_are_digits(minus);
    assert(minus[0] as int == 45);
    assert(digits[0] as int >= 48);
}

/// An integer is written as a natural number is, or with a `-` before its digits.
pub proof fn law_integers_are_signed_naturals(s: Seq<char>)
    ensures
        s.len() > 0 && s[0] == '-' ==> (integer(s) is Some <==> s.len() > 1 && forall|i: int|
            1 <= i < s.len() ==> 48 <= (#[trigger] s[i]) as int <= 57),
        !(s.len() > 0 && s[0] == '-') ==> integer(s) == match natural(s) {
            Some(n) => Some(n as int),
            None => None,
        },
{
    if s.len() > 0 && s[0] == '-' {
        let digits = s.skip(1);
        if is_numeral(digits) {
            assert forall|i: int| 1 <= i < s.len() implies 48 <= (#[trigger] s[i]) as int <= 57 by {
                assert(is_digit(digits[i - 1]));
            }
        }
        if forall|i: int| 1 <= i < s.len() ==> 48 <= (#[trigger] s[i]) as int <= 57 {
            assert forall|i: int| 0 <= i < digits.len() implies is_digit(#[trigger] digits[i]) by {
                assert(digits[i] == s[i + 1]);
            }
        }
    }
}

/// A bound lets every number through that does not exceed it, as it is, and no other.
pub proof fn law_bounds_only_keep_out(s: Seq<char>, max: nat, n: nat, v: i32)
    ensures
        natural_up_to(s, max) == Some(n) <==> natural(s) == Some(n) && n <= max,
        integer_i32(s) == Some(v) <==> integer(s) == Some(v as int),
        integer_i32(s) is None <==> (integer(s) matches Some(k) ==> k < -2147483648 || k
            > 2147483647),
{
}

/// A number is written in digits, with no zero before them, and so in one way only.
pub proof fn law_decimal_is_shortest(n: nat)
    ensures
        decimal(n).len() > 0,
        forall|i: int| 0 <= i < decimal(n).len() ==> 48 <= (#[trigger] decimal(n)[i]) as int <= 57,
        n > 0 ==> decimal(n)[0] as int != 48,
        n < 10 ==> decimal(n).len() == 1,
        forall|i: int| (#[trigger] signed_decimal(i))[0] == '-' <==> i < 0,
    decreases n,
{
    decimal_is_numeral(n);
    assert forall|i: int| 0 <= i < decimal(n).len() implies 48 <= (#[trigger] decimal(
        n,
    )[i]) as int <= 57 by {
        assert(is_digit(decimal(n)[i]));
    }
    if n >= 10 {
        law_decimal_is_shortest(n / 10);
        assert(decimal(n)[0] == decimal(n / 10)[0]);
    }
    assert forall|i: int| (#[trigger] signed_decimal(i))[0] == '-' <==> i < 0 by {
        if i >= 0 {
            decimal_is_numeral(i as nat);
            assert(is_digit(decimal(i as nat)[0]));
        }
    }
}

} // verus!

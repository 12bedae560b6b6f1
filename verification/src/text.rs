//! Characters, words and lines: the text operations that command handling rests on.

use vstd::prelude::*;

verus! {

/// Whether `c` has the Unicode `White_Space` property.
pub open spec fn is_space(c: char) -> bool {
    ||| '\u{9}' <= c <= '\u{d}'
    ||| c == ' '
    ||| c == '\u{85}'
    ||| c == '\u{a0}'
    ||| c == '\u{1680}'
    ||| '\u{2000}' <= c <= '\u{200a}'
    ||| c == '\u{2028}'
    ||| c == '\u{2029}'
    ||| c == '\u{202f}'
    ||| c == '\u{205f}'
    ||| c == '\u{3000}'
}

/// The words of a line: its maximal runs of characters that are not white space, in order.
///
/// Built up one character at a time: white space adds nothing, a character after white space (or
/// at the start) opens a word, any other character extends the last word.
pub open spec fn words(s: Seq<char>) -> Seq<Seq<char>>
    decreases s.len(),
{
    if s.len() == 0 {
        seq![]
    } else {
        let before = words(s.drop_last());
        let c = s.last();
        if is_space(c) {
            before
        } else if s.len() == 1 || is_space(s[s.len() - 2]) {
            before.push(seq![c])
        } else {
            before.drop_last().push(before.last().push(c))
        }
    }
}

/// `s` without the white space at its end.
pub open spec fn trimmed(s: Seq<char>) -> Seq<char>
    decreases s.len(),
{
    if s.len() > 0 && is_space(s.last()) {
        trimmed(s.drop_last())
    } else {
        s
    }
}

/// The parts one after the other, with `sep` between two neighbours.
pub open spec fn joined(parts: Seq<Seq<char>>, sep: Seq<char>) -> Seq<char>
    decreases parts.len(),
{
    if parts.len() == 0 {
        seq![]
    } else if parts.len() == 1 {
        parts[0]
    } else {
        joined(parts.drop_last(), sep) + sep + parts.last()
    }
}

/// What each of the borrowed strings holds.
pub open spec fn contents(tokens: Seq<&str>) -> Seq<Seq<char>> {
    tokens.map_values(|t: &str| t@)
}

/// What each of the owned strings holds.
pub open spec fn owned_contents(tokens: Seq<String>) -> Seq<Seq<char>> {
    tokens.map_values(|t: String| t@)
}

/// Decides the `White_Space` property.
pub fn is_whitespace(c: char) -> (res: bool)
    ensures
        res == is_space(c),
{
    ('\u{9}' <= c && c <= '\u{d}') || c == ' ' || c == '\u{85}' || c == '\u{a0}' || c == '\u{1680}'
        || ('\u{2000}' <= c && c <= '\u{200a}') || c == '\u{2028}' || c == '\u{2029}' || c
        == '\u{202f}' || c == '\u{205f}' || c == '\u{3000}'
}

/// The characters of `s`.
pub fn characters(s: &str) -> (res: Vec<char>)
    ensures
        res@ == s@,
{
    let mut res: Vec<char> = Vec::new();
    for c in it: s.chars()
        invariant
            res@ == it.seq().take(it.index()),
            it.seq() == s@,
    {
        res.push(c);
    }
    res
}

/// Whether the two strings hold the same characters.
pub fn same(a: &str, b: &str) -> (res: bool)
    ensures
        res == (a@ == b@),
{
    let x = characters(a);
    let y = characters(b);
    if x.len() != y.len() {
        return false;
    }
    let mut i: usize = 0;
    while i < x.len()
        invariant
            i <= x.len(),
            x.len() == y.len(),
            x@ == a@,
            y@ == b@,
            x@.take(i as int) == y@.take(i as int),
        decreases x.len() - i,
    {
        if x[i] != y[i] {
            return false;
        }
        assert(x@.take(i + 1) == x@.take(i as int).push(x@[i as int]));
        assert(y@.take(i + 1) == y@.take(i as int).push(y@[i as int]));
        i = i + 1;
    }
    assert(x@.take(i as int) == x@);
    assert(y@.take(i as int) == y@);
    true
}

/// Splits a line into its words.
pub fn split_whitespace<'a>(line: &'a str) -> (res: Vec<&'a str>)
    ensures
        contents(res@) == words(line@),
{
    let chars = characters(line);
    let mut res: Vec<&'a str> = Vec::new();
    let mut open = false;
    let mut start: usize = 0;
    let mut i: usize = 0;
    while i < chars.len()
        invariant
            chars@ == line@,
            start <= i <= chars.len(),
            open == (i > 0 && !is_space(chars@[i - 1])),
            open ==> start < i,
            words(chars@.take(i as int)) == if open {
                contents(res@).push(chars@.subrange(start as int, i as int))
            } else {
                contents(res@)
            },
        decreases chars.len() - i,
    {
        let ghost before = chars@.take(i as int);
        let ghost after = chars@.take(i + 1);
        proof {
            assert(after.drop_last() == before);
        }
        if is_whitespace(chars[i]) {
            if open {
                let word = line.substring_char(start, i);
                let ghost held = res@;
                res.push(word);
                assert(contents(res@) == contents(held).push(word@));
            }
            open = false;
        } else {
            if !open {
                start = i;
                assert(chars@.subrange(i as int, i + 1) == seq![chars@[i as int]]);
            } else {
                let ghost last = chars@.subrange(start as int, i as int);
                assert(words(before).last() == last);
                assert(words(before).drop_last() == contents(res@));
                assert(chars@.subrange(start as int, i + 1) == last.push(chars@[i as int]));
            }
            open = true;
        }
        i = i + 1;
    }
    assert(chars@.take(i as int) == line@);
    if open {
        let word = line.substring_char(start, i);
        let ghost held = res@;
        res.push(word);
        assert(contents(res@) == contents(held).push(word@));
    }
    res
}

/// `s` without the white space at its end.
pub fn trim_end<'a>(s: &'a str) -> (res: &'a str)
    ensures
        res@ == trimmed(s@),
{
    let chars = characters(s);
    let mut n: usize = chars.len();
    assert(chars@.take(n as int) == s@);
    while n > 0 && is_whitespace(chars[n - 1])
        invariant
            n <= chars.len(),
            chars@ == s@,
            trimmed(chars@.take(n as int)) == trimmed(s@),
        decreases n,
    {
        assert(chars@.take(n as int).drop_last() == chars@.take(n - 1));
        n = n - 1;
    }
    assert(s@.subrange(0, n as int) == chars@.take(n as int));
    s.substring_char(0, n)
}

/// The tokens with `sep` between two neighbours.
pub fn join(tokens: &[&str], sep: &str) -> (res: String)
    ensures
        res@ == joined(contents(tokens@), sep@),
{
    let mut res = String::new();
    let mut i: usize = 0;
    while i < tokens.len()
        invariant
            i <= tokens.len(),
            res@ == joined(contents(tokens@).take(i as int), sep@),
        decreases tokens.len() - i,
    {
        let ghost parts = contents(tokens@).take(i + 1);
        proof {
            assert(parts.drop_last() == contents(tokens@).take(i as int));
            assert(parts.last() == tokens@[i as int]@);
        }
        if i > 0 {
            res.append(sep);
        }
        res.append(tokens[i]);
        i = i + 1;
    }
    assert(contents(tokens@).take(i as int) == contents(tokens@));
    res
}

/// Whether a word could stand in a line: it is not empty and holds no white space.
pub open spec fn is_word(w: Seq<char>) -> bool {
    w.len() > 0 && forall|i: int| 0 <= i < w.len() ==> !is_space(#[trigger] w[i])
}

/// Every word of a line is at least one character long and holds no white space.
pub proof fn law_words_are_solid(line: Seq<char>)
    ensures
        forall|i: int| 0 <= i < words(line).len() ==> is_word(#[trigger] words(line)[i]),
        line.len() > 0 && !is_space(line.last()) ==> words(line).len() > 0,
    decreases line.len(),
{
    if line.len() > 0 {
        law_words_are_solid(line.drop_last());
        let before = words(line.drop_last());
        let c = line.last();
        if !is_space(c) && !(line.len() == 1 || is_space(line[line.len() - 2])) {
            assert(line.drop_last().last() == line[line.len() - 2]);
            assert(is_word(before[before.len() - 1]));
            let extended = before.last().push(c);
            assert forall|i: int| 0 <= i < extended.len() implies !is_space(
                #[trigger] extended[i],
            ) by {
                if i < before.last().len() {
                    assert(extended[i] == before.last()[i]);
                }
            }
            assert(is_word(extended));
        }
    }
}

/// A word behind white space, or at the start of a line, is one more word.
proof fn word_is_appended(line: Seq<char>, w: Seq<char>)
    requires
        is_word(w),
        line.len() == 0 || is_space(line.last()),
    ensures
        words(line + w) == words(line).push(w),
    decreases w.len(),
{
    let all = line + w;
    assert(all.last() == w.last());
    assert(!is_space(w[w.len() - 1]));
    if w.len() == 1 {
        assert(all.drop_last() == line);
        assert(w == seq![w.last()]);
        if line.len() > 0 {
            assert(all[all.len() - 2] == line.last());
        }
    } else {
        let shorter = w.drop_last();
        assert forall|i: int| 0 <= i < shorter.len() implies !is_space(#[trigger] shorter[i]) by {
            assert(shorter[i] == w[i]);
        }
        word_is_appended(line, shorter);
        assert(all.drop_last() == line + shorter);
        assert(all[all.len() - 2] == w[w.len() - 2]);
        assert(words(line).push(shorter).drop_last() == words(line));
        assert(shorter.push(w.last()) == w);
    }
}

/// A word that stands alone is the only word of its line.
pub proof fn law_lone_word(w: Seq<char>)
    requires
        is_word(w),
    ensures
        words(w) == seq![w],
{
    word_is_appended(Seq::empty(), w);
    assert(Seq::<char>::empty() + w == w);
    assert(words(w) == seq![w]);
}

/// Joining words with a space and splitting the line again gives the same words.
pub proof fn law_joined_words_split_again(ws: Seq<Seq<char>>)
    requires
        forall|i: int| 0 <= i < ws.len() ==> is_word(#[trigger] ws[i]),
    ensures
        words(joined(ws, seq![' '])) == ws,
    decreases ws.len(),
{
    if ws.len() == 1 {
        law_lone_word(ws[0]);
        assert(ws == seq![ws[0]]);
    } else if ws.len() > 1 {
        let front = ws.drop_last();
        assert forall|i: int| 0 <= i < front.len() implies is_word(#[trigger] front[i]) by {
            assert(front[i] == ws[i]);
        }
        law_joined_words_split_again(front);
        let line = joined(front, seq![' ']);
        assert(is_word(ws[ws.len() - 1]));
        assert(line + seq![' '] == line.push(' '));
        assert(line.push(' ').drop_last() == line);
        word_is_appended(line + seq![' '], ws.last());
        assert(front.push(ws.last()) == ws);
    }
}

/// White space at the end of a line makes no difference to its words.
pub proof fn law_trimming_keeps_words(line: Seq<char>)
    ensures
        words(trimmed(line)) == words(line),
    decreases line.len(),
{
    if line.len() > 0 && is_space(line.last()) {
        law_trimming_keeps_words(line.drop_last());
    }
}

/// The words of a line hold all its characters but the white space, in order.
pub proof fn law_words_keep_every_character(line: Seq<char>)
    ensures
        words(line).flatten() == line.filter(|c: char| !is_space(c)),
    decreases line.len(),
{
    let solid = |c: char| !is_space(c);
    reveal(Seq::filter);
    if line.len() == 0 {
        assert(words(line).flatten() =~= Seq::empty());
    } else {
        let before = line.drop_last();
        let c = line.last();
        law_words_keep_every_character(before);
        law_words_are_solid(before);
        assert(line == before.push(c));
        before.lemma_filter_push(c, solid);
        let ws = words(before);
        if !is_space(c) {
            if line.len() == 1 || is_space(line[line.len() - 2]) {
                ws.lemma_flatten_push(seq![c]);
                assert(ws.flatten() + seq![c] =~= ws.flatten().push(c));
            } else {
                assert(before.last() == line[line.len() - 2]);
                let front = ws.drop_last();
                front.lemma_flatten_push(ws.last());
                assert(front.push(ws.last()) =~= ws);
                front.lemma_flatten_push(ws.last().push(c));
                assert(front.flatten() + ws.last().push(c) =~= (front.flatten() + ws.last()).push(
                    c,
                ));
            }
        }
    }
}

/// White space is what Unicode lists as such, by code point, and nothing else.
pub proof fn law_white_space_by_code_point(c: char)
    ensures
        is_space(c) <==> {
            let n = c as int;
            n == 9 || n == 10 || n == 11 || n == 12 || n == 13 || n == 32 || n == 133 || n == 160
                || n == 5760 || 8192 <= n <= 8202 || n == 8232 || n == 8233 || n == 8239 || n
                == 8287 || n == 12288
        },
{
}

/// White space parts words and does nothing else: the words of a line are those before any white
/// space in it and those behind. A line without characters has none.
pub proof fn law_white_space_parts_words(a: Seq<char>, c: char, b: Seq<char>)
    requires
        is_space(c),
    ensures
        words(a + seq![c] + b) == words(a) + words(b),
        words(Seq::empty()).len() == 0,
    decreases b.len(),
{
    let all = a + seq![c] + b;
    if b.len() == 0 {
        assert(all.drop_last() =~= a);
        assert(all.last() == c);
        assert(words(a) + words(b) =~= words(a));
    } else {
        let front = b.drop_last();
        let x = b.last();
        law_white_space_parts_words(a, c, front);
        assert(all.drop_last() =~= a + seq![c] + front);
        assert(all.last() == x);
        if !is_space(x) {
            if b.len() == 1 {
                assert(all[all.len() - 2] == c);
                assert(words(front).len() == 0);
                assert(words(all) =~= words(a) + words(b));
            } else {
                assert(all[all.len() - 2] == b[b.len() - 2]);
                assert(front.last() == b[b.len() - 2]);
                law_words_are_solid(front);
                assert(words(all) =~= words(a) + words(b));
            }
        }
    }
}

/// Trimming takes the white space off the end of a line, all of it, and nothing else.
pub proof fn law_trimming_takes_white_space_off_the_end(s: Seq<char>)
    ensures
        trimmed(s).len() <= s.len(),
        trimmed(s) == s.take(trimmed(s).len() as int),
        forall|i: int| trimmed(s).len() <= i < s.len() ==> is_space(#[trigger] s[i]),
        trimmed(s).len() > 0 ==> !is_space(trimmed(s).last()),
    decreases s.len(),
{
    if s.len() > 0 && is_space(s.last()) {
        let front = s.drop_last();
        law_trimming_takes_white_space_off_the_end(front);
        assert(front.take(trimmed(front).len() as int) =~= s.take(trimmed(front).len() as int));
        assert forall|i: int| trimmed(s).len() <= i < s.len() implies is_space(#[trigger] s[i]) by {
            if i < front.len() {
                assert(is_space(front[i]));
            }
        }
    } else {
        assert(s.take(s.len() as int) =~= s);
    }
}

/// A line that ends in no white space is found again before any white space behind it.
pub proof fn law_trimming_finds_the_line(line: Seq<char>, tail: Seq<char>)
    requires
        line.len() > 0 ==> !is_space(line.last()),
        forall|i: int| 0 <= i < tail.len() ==> is_space(#[trigger] tail[i]),
    ensures
        trimmed(line + tail) == line,
    decreases tail.len(),
{
    if tail.len() == 0 {
        assert(line + tail =~= line);
    } else {
        let front = tail.drop_last();
        assert forall|i: int| 0 <= i < front.len() implies is_space(#[trigger] front[i]) by {
            assert(front[i] == tail[i]);
        }
        law_trimming_finds_the_line(line, front);
        assert((line + tail).drop_last() =~= line + front);
        assert((line + tail).last() == tail.last());
        assert(is_space(tail[tail.len() - 1]));
    }
}

/// Joining puts the separator between neighbours and nowhere else: two lists one after the other
/// join to what each of them joins to, with one separator between.
pub proof fn law_joining_goes_by_parts(a: Seq<Seq<char>>, b: Seq<Seq<char>>, sep: Seq<char>)
    requires
        a.len() > 0,
        b.len() > 0,
    ensures
        joined(a + b, sep) == joined(a, sep) + sep + joined(b, sep),
        a.len() == 1 ==> joined(a, sep) == a[0],
        joined(Seq::empty(), sep).len() == 0,
    decreases b.len(),
{
    let all = a + b;
    assert(all.last() == b.last());
    if b.len() == 1 {
        assert(all.drop_last() =~= a);
    } else {
        let front = b.drop_last();
        law_joining_goes_by_parts(a, front, sep);
        assert(all.drop_last() =~= a + front);
        assert(joined(all, sep) =~= joined(a, sep) + sep + joined(b, sep));
    }
}

/// A list of strings holds as many texts as it has strings, each that of its string.
pub proof fn law_lists_hold_every_text(borrowed: Seq<&str>, owned: Seq<String>, i: int)
    ensures
        contents(borrowed).len() == borrowed.len(),
        0 <= i < borrowed.len() ==> contents(borrowed)[i] == borrowed[i]@,
        owned_contents(owned).len() == owned.len(),
        0 <= i < owned.len() ==> owned_contents(owned)[i] == owned[i]@,
{
}

} // verus!

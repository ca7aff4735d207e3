//! Character-level building blocks: whitespace tokens, comments, lines,
//! separator-delimited fields and decimal numbers.
//!
//! Every notion is defined once as a spec function over `Seq<char>`, and each
//! executable function is proved to compute exactly that.

use vstd::prelude::*;

verus! {

/// The five characters that separate tokens: space, tab, line feed, form
/// feed and carriage return.
pub open spec fn is_ascii_space(c: char) -> bool {
    c == ' ' || c == '\t' || c == '\n' || c == '\x0C' || c == '\r'
}

/// The class of token separators, as a predicate.
pub open spec fn space() -> spec_fn(char) -> bool {
    |c: char| is_ascii_space(c)
}

/// The class that holds the single character `sep`.
pub open spec fn just(sep: char) -> spec_fn(char) -> bool {
    |c: char| c == sep
}

/// The token that starts a comment.
pub open spec fn comment_mark() -> spec_fn(Seq<char>) -> bool {
    |t: Seq<char>| t == "#"@
}

/// How many items of `s` come before the first one that satisfies `stop`;
/// `s.len()` when none does.
pub open spec fn span_len<T>(s: Seq<T>, stop: spec_fn(T) -> bool) -> nat
    decreases s.len(),
{
    if s.len() == 0 || stop(s[0]) {
        0
    } else {
        1 + span_len(s.drop_first(), stop)
    }
}

/// The whitespace-separated tokens of `s`, in order. No token is empty and
/// none holds a whitespace character.
pub open spec fn tokens_of(s: Seq<char>) -> Seq<Seq<char>>
    decreases s.len(),
{
    if s.len() == 0 {
        Seq::empty()
    } else if is_ascii_space(s[0]) {
        tokens_of(s.drop_first())
    } else {
        let n = span_len(s, space()) as int;
        if n >= s.len() {
            seq![s]
        } else {
            seq![s.take(n)] + tokens_of(s.skip(n + 1))
        }
    }
}

/// The tokens that come before the first `#` token.
pub open spec fn strip_comment(tokens: Seq<Seq<char>>) -> Seq<Seq<char>> {
    tokens.take(span_len(tokens, comment_mark()) as int)
}

/// The tokens of a line that carry meaning: its whitespace-separated tokens
/// up to, and without, the first token that is exactly `#`.
pub open spec fn significant_tokens(line: Seq<char>) -> Seq<Seq<char>> {
    strip_comment(tokens_of(line))
}

/// The pieces of `s` between occurrences of `sep`. There is always at least
/// one piece, and pieces may be empty.
pub open spec fn split_on(s: Seq<char>, sep: char) -> Seq<Seq<char>>
    decreases s.len(),
{
    let n = span_len(s, just(sep)) as int;
    if n >= s.len() {
        seq![s]
    } else {
        seq![s.take(n)] + split_on(s.skip(n + 1), sep)
    }
}

/// `line` without one trailing carriage return, if it has one.
pub open spec fn strip_cr(line: Seq<char>) -> Seq<char> {
    if line.len() > 0 && line.last() == '\r' {
        line.drop_last()
    } else {
        line
    }
}

/// The lines of `s`. A line ends at a line feed; a carriage return directly
/// before that line feed belongs to the line ending. The last line needs no
/// line ending, and is kept as it stands when it has none.
pub open spec fn lines_of(s: Seq<char>) -> Seq<Seq<char>>
    decreases s.len(),
{
    if s.len() == 0 {
        Seq::empty()
    } else {
        let n = span_len(s, just('\n')) as int;
        if n >= s.len() {
            seq![s]
        } else {
            seq![strip_cr(s.take(n))] + lines_of(s.skip(n + 1))
        }
    }
}

/// The character sequences that a vector of string slices stands for.
pub open spec fn views(items: Seq<&str>) -> Seq<Seq<char>> {
    items.map_values(|t: &str| t@)
}

pub open spec fn is_digit(c: char) -> bool {
    '0' <= c && c <= '9'
}

pub open spec fn digit_value(c: char) -> nat {
    if is_digit(c) {
        (c as int - '0' as int) as nat
    } else {
        0
    }
}

pub open spec fn all_digits(s: Seq<char>) -> bool {
    forall|i: int| 0 <= i < s.len() ==> is_digit(#[trigger] s[i])
}

/// The number that the digits of `s` denote in base ten.
pub open spec fn decimal_value(s: Seq<char>) -> nat
    decreases s.len(),
{
    if s.len() == 0 {
        0
    } else {
        decimal_value(s.drop_last()) * 10 + digit_value(s.last())
    }
}

/// The value of `s` when `s` is one or more decimal digits that denote a
/// number no greater than `max`. Leading zeros are allowed.
pub open spec fn decimal_up_to(s: Seq<char>, max: nat) -> Option<nat> {
    if s.len() > 0 && all_digits(s) && decimal_value(s) <= max {
        Some(decimal_value(s))
    } else {
        None
    }
}

/// `span_len` is within bounds, nothing before it satisfies `stop`, and the
/// item at it, if there is one, does.
pub proof fn lemma_span_len<T>(s: Seq<T>, stop: spec_fn(T) -> bool)
    ensures
        span_len(s, stop) <= s.len(),
        forall|i: int| 0 <= i < span_len(s, stop) ==> !stop(#[trigger] s[i]),
        span_len(s, stop) < s.len() ==> stop(s[span_len(s, stop) as int]),
    decreases s.len(),
{
    if s.len() == 0 || stop(s[0]) {
    } else {
        let rest = s.drop_first();
        lemma_span_len(rest, stop);
        assert forall|i: int| 0 <= i < span_len(s, stop) implies !stop(#[trigger] s[i]) by {
            if i > 0 {
                assert(s[i] == rest[i - 1]);
            }
        }
    }
}

/// `span_len` is the only position with the properties of `lemma_span_len`.
pub proof fn lemma_span_len_is<T>(s: Seq<T>, stop: spec_fn(T) -> bool, n: nat)
    requires
        n <= s.len(),
        forall|i: int| 0 <= i < n ==> !stop(#[trigger] s[i]),
        n < s.len() ==> stop(s[n as int]),
    ensures
        span_len(s, stop) == n,
    decreases n,
{
    if n > 0 {
        let rest = s.drop_first();
        assert(!stop(s[0]));
        assert forall|i: int| 0 <= i < n - 1 implies !stop(#[trigger] rest[i]) by {
            assert(rest[i] == s[i + 1]);
        }
        lemma_span_len_is(rest, stop, (n - 1) as nat);
    }
}

/// A prefix of a digit string denotes no more than the whole string.
pub proof fn lemma_decimal_prefix(s: Seq<char>, k: int)
    requires
        0 <= k <= s.len(),
    ensures
        decimal_value(s.take(k)) <= decimal_value(s),
    decreases s.len() - k,
{
    if k == s.len() {
        assert(s.take(k) =~= s);
    } else {
        assert(s.drop_last().take(k) =~= s.take(k));
        lemma_decimal_prefix(s.drop_last(), k);
    }
}

pub fn is_space(c: char) -> (b: bool)
    ensures
        b == is_ascii_space(c),
{
    c == ' ' || c == '\t' || c == '\n' || c == '\x0C' || c == '\r'
}

/// The characters of `s`, in order.
pub fn chars_of(s: &str) -> (out: Vec<char>)
    ensures
        out@ == s@,
{
    let mut out: Vec<char> = Vec::new();
    for c in it: s.chars()
        invariant
            out@ == it.seq().take(it.index()),
            it.seq() == s@,
    {
        out.push(c);
    }
    out
}

/// Whether two string slices hold the same characters.
pub fn str_eq(a: &str, b: &str) -> (same: bool)
    ensures
        same == (a@ == b@),
{
    let x = chars_of(a);
    let y = chars_of(b);
    if x.len() != y.len() {
        return false;
    }
    let mut i: usize = 0;
    while i < x.len()
        invariant
            i <= x.len(),
            x.len() == y.len(),
            x@ == a@,
            y@ == b@,
            forall|j: int| 0 <= j < i ==> x@[j] == y@[j],
        decreases x.len() - i,
    {
        if x[i] != y[i] {
            return false;
        }
        i += 1;
    }
    assert(x@ =~= y@);
    true
}

/// The first position at or after `from` that holds a whitespace character;
/// `chars.len()` when there is none.
fn scan_to_space(chars: &Vec<char>, from: usize) -> (end: usize)
    requires
        from <= chars.len(),
    ensures
        from <= end <= chars.len(),
        end == from + span_len(chars@.skip(from as int), space()),
{
    let mut end: usize = from;
    while end < chars.len() && !is_space(chars[end])
        invariant
            from <= end <= chars.len(),
            forall|j: int| from <= j < end ==> !is_ascii_space(chars@[j]),
        decreases chars.len() - end,
    {
        end += 1;
    }
    proof {
        let rest = chars@.skip(from as int);
        assert forall|i: int| 0 <= i < end - from implies !space()(#[trigger] rest[i]) by {
            assert(rest[i] == chars@[from + i]);
        }
        lemma_span_len_is(rest, space(), (end - from) as nat);
    }
    end
}

/// The first position at or after `from` that holds `sep`; `chars.len()`
/// when there is none.
fn scan_to_char(chars: &Vec<char>, from: usize, sep: char) -> (end: usize)
    requires
        from <= chars.len(),
    ensures
        from <= end <= chars.len(),
        end == from + span_len(chars@.skip(from as int), just(sep)),
{
    let mut end: usize = from;
    while end < chars.len() && chars[end] != sep
        invariant
            from <= end <= chars.len(),
            forall|j: int| from <= j < end ==> chars@[j] != sep,
        decreases chars.len() - end,
    {
        end += 1;
    }
    proof {
        let rest = chars@.skip(from as int);
        assert forall|i: int| 0 <= i < end - from implies !just(sep)(#[trigger] rest[i]) by {
            assert(rest[i] == chars@[from + i]);
        }
        lemma_span_len_is(rest, just(sep), (end - from) as nat);
    }
    end
}

/// Splits `line` into its whitespace-separated tokens.
pub fn tokenize<'a>(line: &'a str) -> (out: Vec<&'a str>)
    ensures
        views(out@) == tokens_of(line@),
{
    let chars = chars_of(line);
    let mut out: Vec<&'a str> = Vec::new();
    let mut i: usize = 0;
    assert(line@.skip(0) =~= line@);
    while i < chars.len()
        invariant
            i <= chars.len(),
            chars@ == line@,
            tokens_of(line@) == views(out@) + tokens_of(line@.skip(i as int)),
        decreases chars.len() - i,
    {
        let ghost rest = line@.skip(i as int);
        let ghost before = views(out@);
        if is_space(chars[i]) {
            assert(rest.drop_first() =~= line@.skip(i + 1));
            i += 1;
        } else {
            let end = scan_to_space(&chars, i);
            let token = line.substring_char(i, end);
            out.push(token);
            proof {
                let n = end - i;
                assert(rest.take(n) =~= line@.subrange(i as int, end as int));
                assert(views(out@) =~= before.push(token@));
                if end < chars.len() {
                    assert(rest.skip(n + 1) =~= line@.skip(end + 1));
                    assert(before + (seq![rest.take(n)] + tokens_of(rest.skip(n + 1)))
                        =~= before.push(token@) + tokens_of(rest.skip(n + 1)));
                } else {
                    assert(rest.take(n) =~= rest);
                    assert(tokens_of(line@.skip(end as int)) =~= Seq::<Seq<char>>::empty());
                    assert(before + seq![rest] =~= before.push(token@) + Seq::<Seq<char>>::empty());
                }
            }
            i = if end < chars.len() { end + 1 } else { end };
        }
    }
    assert(tokens_of(line@.skip(i as int)) =~= Seq::<Seq<char>>::empty());
    assert(views(out@) + Seq::<Seq<char>>::empty() =~= views(out@));
    out
}

/// Drops the first token that is exactly `#`, and every token after it.
pub fn drop_comment<'a>(tokens: Vec<&'a str>) -> (out: Vec<&'a str>)
    ensures
        views(out@) == strip_comment(views(tokens@)),
{
    let mut tokens = tokens;
    let ghost all = views(tokens@);
    let mut n: usize = 0;
    while n < tokens.len() && !str_eq(tokens[n], "#")
        invariant
            n <= tokens.len(),
            all == views(tokens@),
            forall|j: int| 0 <= j < n ==> !comment_mark()(#[trigger] all[j]),
        decreases tokens.len() - n,
    {
        n += 1;
    }
    proof {
        lemma_span_len_is(all, comment_mark(), n as nat);
    }
    tokens.truncate(n);
    assert(views(tokens@) =~= all.take(n as int));
    tokens
}

/// Splits `s` at every occurrence of `sep`.
pub fn split<'a>(s: &'a str, sep: char) -> (out: Vec<&'a str>)
    ensures
        views(out@) == split_on(s@, sep),
{
    let chars = chars_of(s);
    let mut out: Vec<&'a str> = Vec::new();
    let mut i: usize = 0;
    let mut done = false;
    assert(s@.skip(0) =~= s@);
    assert(views(out@) + split_on(s@, sep) =~= split_on(s@, sep));
    while !done
        invariant
            i <= chars.len(),
            chars@ == s@,
            !done ==> split_on(s@, sep) == views(out@) + split_on(s@.skip(i as int), sep),
            done ==> split_on(s@, sep) == views(out@),
        decreases chars.len() - i + (if done { 0int } else { 1int }),
    {
        let ghost rest = s@.skip(i as int);
        let ghost before = views(out@);
        let end = scan_to_char(&chars, i, sep);
        let piece = s.substring_char(i, end);
        out.push(piece);
        proof {
            let n = end - i;
            assert(rest.take(n) =~= s@.subrange(i as int, end as int));
            assert(views(out@) =~= before.push(piece@));
            if end < chars.len() {
                assert(rest.skip(n + 1) =~= s@.skip(end + 1));
                assert(before + (seq![rest.take(n)] + split_on(rest.skip(n + 1), sep))
                    =~= before.push(piece@) + split_on(rest.skip(n + 1), sep));
            } else {
                assert(rest.take(n) =~= rest);
                assert(before + seq![rest] =~= before.push(piece@));
            }
        }
        if end < chars.len() {
            i = end + 1;
        } else {
            done = true;
        }
    }
    out
}

/// Splits `text` into its lines, without their line endings.
pub fn lines<'a>(text: &'a str) -> (out: Vec<&'a str>)
    ensures
        views(out@) == lines_of(text@),
{
    let chars = chars_of(text);
    let mut out: Vec<&'a str> = Vec::new();
    let mut i: usize = 0;
    assert(text@.skip(0) =~= text@);
    assert(views(out@) + lines_of(text@) =~= lines_of(text@));
    while i < chars.len()
        invariant
            i <= chars.len(),
            chars@ == text@,
            lines_of(text@) == views(out@) + lines_of(text@.skip(i as int)),
        decreases chars.len() - i,
    {
        let ghost rest = text@.skip(i as int);
        let ghost before = views(out@);
        let end = scan_to_char(&chars, i, '\n');
        let stop = if end < chars.len() && end > i && chars[end - 1] == '\r' {
            end - 1
        } else {
            end
        };
        let line = text.substring_char(i, stop);
        out.push(line);
        proof {
            let n = end - i;
            assert(rest.take(n) =~= text@.subrange(i as int, end as int));
            assert(views(out@) =~= before.push(line@));
            if end < chars.len() {
                assert(strip_cr(rest.take(n)) =~= line@);
                assert(rest.skip(n + 1) =~= text@.skip(end + 1));
                assert(before + (seq![line@] + lines_of(rest.skip(n + 1)))
                    =~= before.push(line@) + lines_of(rest.skip(n + 1)));
            } else {
                assert(rest.take(n) =~= rest);
                assert(lines_of(text@.skip(end as int)) =~= Seq::<Seq<char>>::empty());
                assert(before + seq![rest] =~= before.push(line@) + Seq::<Seq<char>>::empty());
            }
        }
        i = if end < chars.len() { end + 1 } else { end };
    }
    assert(lines_of(text@.skip(i as int)) =~= Seq::<Seq<char>>::empty());
    assert(views(out@) + Seq::<Seq<char>>::empty() =~= views(out@));
    out
}

/// Reads `s` as a decimal number no greater than `max`.
///
/// Succeeds exactly when `s` is one or more ASCII digits whose value is at
/// most `max`; any number of leading zeros is accepted.
pub fn parse_decimal(s: &str, max: u32) -> (r: Option<u32>)
    ensures
        match r {
            Some(v) => decimal_up_to(s@, max as nat) == Some(v as nat),
            None => decimal_up_to(s@, max as nat) is None,
        },
{
    let chars = chars_of(s);
    if chars.len() == 0 {
        return None;
    }
    let mut acc: u32 = 0;
    let mut i: usize = 0;
    assert(s@.take(0) =~= Seq::<char>::empty());
    while i < chars.len()
        invariant
            i <= chars.len(),
            chars@ == s@,
            all_digits(s@.take(i as int)),
            acc == decimal_value(s@.take(i as int)),
            acc <= max,
        decreases chars.len() - i,
    {
        let c = chars[i];
        if c < '0' || c > '9' {
            return None;
        }
        let d: u32 = c as u32 - '0' as u32;
        proof {
            let read = s@.take(i + 1);
            assert(read.drop_last() =~= s@.take(i as int));
            assert(read.last() == c);
            assert(decimal_value(read) == acc * 10 + d);
            lemma_decimal_prefix(s@, i + 1);
            assert forall|j: int| 0 <= j < read.len() implies is_digit(#[trigger] read[j]) by {
                if j < i {
                    assert(read[j] == s@.take(i as int)[j]);
                }
            }
        }
        let next: u64 = acc as u64 * 10 + d as u64;
        if next > max as u64 {
            return None;
        }
        acc = next as u32;
        i += 1;
    }
    assert(s@.take(i as int) =~= s@);
    Some(acc)
}

} // verus!

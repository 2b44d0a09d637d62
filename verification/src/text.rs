//! Text as sequences of characters: conversions between `str`, `String` and
//! `Vec<char>`, and the searches and splits the rest of the library is built on.

use vstd::prelude::*;
use vstd::std_specs::iter::IteratorSpec;

verus! {

/// `String::push` appends one character.
pub assume_specification[ String::push ](s: &mut String, ch: char)
    ensures
        final(s)@ == old(s)@.push(ch),
;

/// The characters of `s`, in order.
pub fn to_chars(s: &str) -> (chars: Vec<char>)
    ensures
        chars@ == s@,
{
    let mut chars: Vec<char> = Vec::new();
    let mut it = s.chars();
    for c in iter: it
        invariant
            iter.seq() == s@,
            chars@ == iter.seq().take(iter.index() as int),
    {
        chars.push(c);
        assert(iter.seq().take(iter.index() + 1) == iter.seq().take(iter.index() as int).push(c));
    }
    assert(chars@ == s@.take(s@.len() as int));
    chars
}

/// The string made of `chars`, in order.
pub fn from_chars(chars: &Vec<char>) -> (s: String)
    ensures
        s@ == chars@,
{
    let mut s = String::new();
    let mut i: usize = 0;
    while i < chars.len()
        invariant
            i <= chars.len(),
            s@ == chars@.take(i as int),
        decreases chars.len() - i,
    {
        s.push(chars[i]);
        i += 1;
    }
    s
}

/// Appends the characters of `tail` to `out`.
pub fn push_chars(out: &mut Vec<char>, tail: &Vec<char>)
    ensures
        final(out)@ == old(out)@ + tail@,
{
    let mut i: usize = 0;
    while i < tail.len()
        invariant
            i <= tail.len(),
            out@ == old(out)@ + tail@.take(i as int),
        decreases tail.len() - i,
    {
        out.push(tail[i]);
        i += 1;
    }
}

/// Appends the characters of `tail` to `out`.
pub fn push_str_chars(out: &mut Vec<char>, tail: &str)
    ensures
        final(out)@ == old(out)@ + tail@,
{
    let chars = to_chars(tail);
    push_chars(out, &chars);
}

/// The characters of `text` from position `from` up to, not including, `to`.
pub fn sub_chars(text: &Vec<char>, from: usize, to: usize) -> (part: Vec<char>)
    requires
        from <= to <= text.len(),
    ensures
        part@ == text@.subrange(from as int, to as int),
{
    let mut part: Vec<char> = Vec::new();
    let mut i: usize = from;
    while i < to
        invariant
            from <= i <= to <= text.len(),
            part@ == text@.subrange(from as int, i as int),
        decreases to - i,
    {
        part.push(text[i]);
        i += 1;
    }
    part
}

/// Whether `needle` stands in `text` at position `at`.
pub open spec fn occurs_at(text: Seq<char>, needle: Seq<char>, at: int) -> bool {
    &&& 0 <= at
    &&& at + needle.len() <= text.len()
    &&& text.subrange(at, at + needle.len()) == needle
}

/// Whether `needle` stands somewhere in `text`.
pub open spec fn spec_contains(text: Seq<char>, needle: Seq<char>) -> bool {
    exists|at: int| occurs_at(text, needle, at)
}

/// Whether `needle` stands in `text` at position `at`.
pub fn matches_at(text: &Vec<char>, needle: &Vec<char>, at: usize) -> (b: bool)
    ensures
        b == occurs_at(text@, needle@, at as int),
{
    if needle.len() > text.len() || at > text.len() - needle.len() {
        return false;
    }
    let mut k: usize = 0;
    while k < needle.len()
        invariant
            k <= needle.len(),
            at + needle.len() <= text.len(),
            forall|j: int| 0 <= j < k ==> text@[at + j] == needle@[j],
        decreases needle.len() - k,
    {
        if text[at + k] != needle[k] {
            assert(text@.subrange(at as int, at + needle.len())[k as int] != needle@[k as int]);
            return false;
        }
        k += 1;
    }
    assert(text@.subrange(at as int, at + needle.len()) =~= needle@);
    true
}

/// The first position at or after `from` where `needle` stands in `text`.
pub fn find_from(text: &Vec<char>, needle: &Vec<char>, from: usize) -> (found: Option<usize>)
    ensures
        match found {
            Some(at) => {
                &&& from <= at
                &&& occurs_at(text@, needle@, at as int)
                &&& forall|j: int| from <= j < at ==> !occurs_at(text@, needle@, j)
            },
            None => forall|j: int| from <= j ==> !occurs_at(text@, needle@, j),
        },
{
    if from > text.len() {
        return None;
    }
    let mut at: usize = from;
    while at < text.len()
        invariant
            from <= at <= text.len(),
            forall|j: int| from <= j < at ==> !occurs_at(text@, needle@, j),
        decreases text.len() - at,
    {
        if matches_at(text, needle, at) {
            return Some(at);
        }
        at += 1;
    }
    if matches_at(text, needle, at) {
        Some(at)
    } else {
        None
    }
}

/// Whether `needle` stands somewhere in `text`.
pub fn contains(text: &Vec<char>, needle: &Vec<char>) -> (b: bool)
    ensures
        b == spec_contains(text@, needle@),
{
    find_from(text, needle, 0).is_some()
}

/// Whether `text` begins with `prefix`.
pub fn starts_with(text: &Vec<char>, prefix: &Vec<char>) -> (b: bool)
    ensures
        b == prefix@.is_prefix_of(text@),
{
    matches_at(text, prefix, 0)
}

/// Whether `text` ends with `suffix`.
pub fn ends_with(text: &Vec<char>, suffix: &Vec<char>) -> (b: bool)
    ensures
        b == suffix@.is_suffix_of(text@),
{
    if suffix.len() > text.len() {
        return false;
    }
    matches_at(text, suffix, text.len() - suffix.len())
}

/// What each of `lines` holds.
pub open spec fn views(lines: Seq<String>) -> Seq<Seq<char>> {
    Seq::new(lines.len(), |i: int| lines[i]@)
}

/// The number of characters of `text` before its first line feed: its whole
/// length where it holds none.
pub open spec fn first_newline(text: Seq<char>) -> nat
    decreases text.len(),
{
    if text.len() == 0 || text[0] == '\n' {
        0
    } else {
        1 + first_newline(text.drop_first())
    }
}

/// `line` without a carriage return at its end.
pub open spec fn without_cr(line: Seq<char>) -> Seq<char> {
    if line.len() > 0 && line.last() == '\r' {
        line.drop_last()
    } else {
        line
    }
}

/// The lines of `text`. A line ends at a line feed, or at a carriage return
/// followed by one; neither belongs to the line. The last line needs no line
/// ending, and an empty rest after the last line ending is no line.
pub open spec fn spec_lines(text: Seq<char>) -> Seq<Seq<char>>
    decreases text.len(),
{
    if text.len() == 0 {
        Seq::empty()
    } else {
        let k = first_newline(text);
        if k >= text.len() {
            seq![text]
        } else {
            seq![without_cr(text.subrange(0, k as int))] + spec_lines(
                text.subrange(k as int + 1, text.len() as int),
            )
        }
    }
}

/// `first_newline` is the position `k` when no line feed stands before `k`
/// and one stands at `k`, or `k` is the end.
pub proof fn lemma_first_newline(text: Seq<char>, k: int)
    requires
        0 <= k <= text.len(),
        forall|j: int| 0 <= j < k ==> text[j] != '\n',
        k == text.len() || text[k] == '\n',
    ensures
        first_newline(text) == k,
    decreases text.len(),
{
    if k > 0 {
        lemma_first_newline(text.drop_first(), k - 1);
    }
}

/// The lines of `text`, as `str::lines` gives them.
pub fn lines(text: &str) -> (out: Vec<String>)
    ensures
        views(out@) == spec_lines(text@),
{
    let chars = to_chars(text);
    let n: usize = chars.len();
    let mut out: Vec<String> = Vec::new();
    let mut start: usize = 0;
    let mut i: usize = 0;
    proof {
        assert(chars@.subrange(0, n as int) == chars@);
        assert(views(out@) + spec_lines(chars@) == spec_lines(chars@));
    }
    while i < n
        invariant
            n == chars.len(),
            chars@ == text@,
            start <= i <= n,
            forall|j: int| start <= j < i ==> chars@[j] != '\n',
            views(out@) + spec_lines(chars@.subrange(start as int, n as int)) == spec_lines(
                chars@,
            ),
        decreases n - i,
    {
        if chars[i] == '\n' {
            let end: usize = if i > start && chars[i - 1] == '\r' {
                i - 1
            } else {
                i
            };
            let line = from_chars(&sub_chars(&chars, start, end));
            proof {
                let rest = chars@.subrange(start as int, n as int);
                lemma_first_newline(rest, i - start);
                assert(rest.subrange(0, i - start) == chars@.subrange(start as int, i as int));
                assert(rest.subrange(i - start + 1, rest.len() as int) == chars@.subrange(
                    i + 1,
                    n as int,
                ));
                assert(line@ == without_cr(chars@.subrange(start as int, i as int)));
                assert(views(out@).push(line@) == views(out@) + seq![line@]);
                assert(views(out@.push(line)) == views(out@).push(line@));
            }
            out.push(line);
            start = i + 1;
        }
        i += 1;
    }
    if start < n {
        let line = from_chars(&sub_chars(&chars, start, n));
        proof {
            let rest = chars@.subrange(start as int, n as int);
            lemma_first_newline(rest, n - start);
            assert(spec_lines(rest) == seq![rest]);
            assert(views(out@.push(line)) == views(out@).push(line@));
        }
        out.push(line);
    } else {
        assert(chars@.subrange(start as int, n as int).len() == 0);
        assert(views(out@) + Seq::<Seq<char>>::empty() == views(out@));
    }
    out
}

/// Whether `c` is white space: whether it has the Unicode property
/// White_Space, as `char::is_whitespace` tells. These are the characters from
/// tab to carriage return, the space, next line, the no-break space, the
/// ogham space mark, the spaces from en quad to hair space, the line and the
/// paragraph separator, the narrow no-break space, the medium mathematical
/// space and the ideographic space.
pub open spec fn is_white_space(c: char) -> bool {
    let n = c as u32;
    ||| 0x09 <= n <= 0x0D
    ||| n == 0x20
    ||| n == 0x85
    ||| n == 0xA0
    ||| n == 0x1680
    ||| 0x2000 <= n <= 0x200A
    ||| n == 0x2028
    ||| n == 0x2029
    ||| n == 0x202F
    ||| n == 0x205F
    ||| n == 0x3000
}

/// Whether `c` is white space.
pub fn is_space(c: char) -> (b: bool)
    ensures
        b == is_white_space(c),
{
    let n: u32 = c as u32;
    (0x09 <= n && n <= 0x0D) || n == 0x20 || n == 0x85 || n == 0xA0 || n == 0x1680 || (0x2000 <= n
        && n <= 0x200A) || n == 0x2028 || n == 0x2029 || n == 0x202F || n == 0x205F || n == 0x3000
}

/// `text` without the white space at its start.
pub open spec fn spec_trim_start(text: Seq<char>) -> Seq<char>
    decreases text.len(),
{
    if text.len() > 0 && is_white_space(text[0]) {
        spec_trim_start(text.drop_first())
    } else {
        text
    }
}

/// `text` without the white space at its end.
pub open spec fn spec_trim_end(text: Seq<char>) -> Seq<char>
    decreases text.len(),
{
    if text.len() > 0 && is_white_space(text.last()) {
        spec_trim_end(text.drop_last())
    } else {
        text
    }
}

/// `text` without the white space at its start and at its end.
pub open spec fn spec_trim(text: Seq<char>) -> Seq<char> {
    spec_trim_end(spec_trim_start(text))
}

proof fn lemma_trim_start(text: Seq<char>, k: int)
    requires
        0 <= k <= text.len(),
        forall|j: int| 0 <= j < k ==> is_white_space(text[j]),
        k == text.len() || !is_white_space(text[k]),
    ensures
        spec_trim_start(text) == text.subrange(k, text.len() as int),
    decreases text.len(),
{
    if k > 0 {
        lemma_trim_start(text.drop_first(), k - 1);
        assert(text.drop_first().subrange(k - 1, text.len() - 1) == text.subrange(
            k,
            text.len() as int,
        ));
    } else {
        assert(text.subrange(0, text.len() as int) == text);
    }
}

proof fn lemma_trim_end(text: Seq<char>, k: int)
    requires
        0 <= k <= text.len(),
        forall|j: int| k <= j < text.len() ==> is_white_space(text[j]),
        k == 0 || !is_white_space(text[k - 1]),
    ensures
        spec_trim_end(text) == text.subrange(0, k),
    decreases text.len(),
{
    if k < text.len() {
        lemma_trim_end(text.drop_last(), k);
        assert(text.drop_last().subrange(0, k) == text.subrange(0, k));
    } else {
        assert(text.subrange(0, text.len() as int) == text);
    }
}

/// `text` without the white space at its start and at its end, as `str::trim`
/// gives it.
pub fn trim(text: &Vec<char>) -> (out: Vec<char>)
    ensures
        out@ == spec_trim(text@),
{
    let n: usize = text.len();
    let mut from: usize = 0;
    while from < n && is_space(text[from])
        invariant
            n == text.len(),
            from <= n,
            forall|j: int| 0 <= j < from ==> is_white_space(text@[j]),
        decreases n - from,
    {
        from += 1;
    }
    let mut to: usize = n;
    while to > from && is_space(text[to - 1])
        invariant
            from <= to <= n,
            n == text.len(),
            forall|j: int| to <= j < n ==> is_white_space(text@[j]),
        decreases to,
    {
        to -= 1;
    }
    proof {
        lemma_trim_start(text@, from as int);
        let rest = text@.subrange(from as int, n as int);
        lemma_trim_end(rest, to - from);
        assert(rest.subrange(0, to - from) == text@.subrange(from as int, to as int));
    }
    sub_chars(text, from, to)
}

/// Whether a word begins at position `at` of `text`: a character that is no
/// white space, at the start or after white space.
pub open spec fn is_word_start(text: Seq<char>, at: int) -> bool {
    &&& 0 <= at < text.len()
    &&& !is_white_space(text[at])
    &&& (at == 0 || is_white_space(text[at - 1]))
}

/// The number of words in `text`: of its longest runs without white space.
pub open spec fn spec_word_count(text: Seq<char>) -> nat
    decreases text.len(),
{
    if text.len() == 0 {
        0
    } else {
        spec_word_count(text.drop_last()) + if is_word_start(text, text.len() - 1) {
            1nat
        } else {
            0nat
        }
    }
}

/// The number of words in `text`, as counting `str::split_whitespace` gives it.
pub fn word_count(text: &Vec<char>) -> (count: usize)
    ensures
        count == spec_word_count(text@),
{
    let n: usize = text.len();
    let mut count: usize = 0;
    let mut after_space: bool = true;
    let mut i: usize = 0;
    while i < n
        invariant
            n == text.len(),
            i <= n,
            count == spec_word_count(text@.take(i as int)),
            count <= i,
            after_space == (i == 0 || is_white_space(text@[i - 1])),
        decreases n - i,
    {
        let space: bool = is_space(text[i]);
        proof {
            let next = text@.take(i + 1);
            assert(next.drop_last() == text@.take(i as int));
            assert(is_word_start(next, i as int) == (!space && after_space));
        }
        if !space && after_space {
            count += 1;
        }
        after_space = space;
        i += 1;
    }
    assert(text@.take(n as int) == text@);
    count
}

/// The character that writes the digit `d`.
pub open spec fn digit_char(d: nat) -> char {
    seq!['0', '1', '2', '3', '4', '5', '6', '7', '8', '9'][d as int]
}

/// `n` written in decimal, without leading zeros.
pub open spec fn spec_decimal(n: nat) -> Seq<char>
    decreases n,
{
    if n < 10 {
        seq![digit_char(n)]
    } else {
        spec_decimal(n / 10).push(digit_char(n % 10))
    }
}

fn digit(d: u128) -> (c: char)
    requires
        d < 10,
    ensures
        c == digit_char(d as nat),
{
    if d == 0 {
        '0'
    } else if d == 1 {
        '1'
    } else if d == 2 {
        '2'
    } else if d == 3 {
        '3'
    } else if d == 4 {
        '4'
    } else if d == 5 {
        '5'
    } else if d == 6 {
        '6'
    } else if d == 7 {
        '7'
    } else if d == 8 {
        '8'
    } else {
        '9'
    }
}

/// Appends `n`, written in decimal, to `out`.
pub fn push_decimal(out: &mut Vec<char>, n: u128)
    ensures
        final(out)@ == old(out)@ + spec_decimal(n as nat),
    decreases n,
{
    if n >= 10 {
        push_decimal(out, n / 10);
    }
    out.push(digit(n % 10));
    proof {
        if n >= 10 {
            assert(old(out)@ + spec_decimal((n / 10) as nat).push(digit_char((n % 10) as nat)) == (
            old(out)@ + spec_decimal((n / 10) as nat)).push(digit_char((n % 10) as nat)));
        } else {
            assert(old(out)@ + seq![digit_char(n as nat)] == old(out)@.push(digit_char(n as nat)));
        }
    }
}

/// `parts` written one after another, with `sep` between each two.
pub open spec fn spec_join(parts: Seq<Seq<char>>, sep: Seq<char>) -> Seq<char>
    decreases parts.len(),
{
    if parts.len() == 0 {
        Seq::empty()
    } else if parts.len() == 1 {
        parts[0]
    } else {
        spec_join(parts.drop_last(), sep) + sep + parts.last()
    }
}

/// `parts` written one after another, with `sep` between each two.
pub fn join(parts: &Vec<String>, sep: &str) -> (out: Vec<char>)
    ensures
        out@ == spec_join(views(parts@), sep@),
{
    let mut out: Vec<char> = Vec::new();
    let mut i: usize = 0;
    while i < parts.len()
        invariant
            i <= parts.len(),
            out@ == spec_join(views(parts@).take(i as int), sep@),
        decreases parts.len() - i,
    {
        proof {
            let next = views(parts@).take(i + 1);
            assert(next.drop_last() == views(parts@).take(i as int));
            assert(next.last() == parts@[i as int]@);
            if i == 0 {
                assert(Seq::<char>::empty() + parts@[0]@ == parts@[0]@);
            }
        }
        if i > 0 {
            push_str_chars(&mut out, sep);
        }
        push_str_chars(&mut out, parts[i].as_str());
        i += 1;
    }
    assert(views(parts@).take(parts.len() as int) == views(parts@));
    out
}

/// The first `limit` characters of `text`: all of it where it has no more.
pub open spec fn spec_prefix(text: Seq<char>, limit: nat) -> Seq<char> {
    if text.len() <= limit {
        text
    } else {
        text.take(limit as int)
    }
}

/// The first `limit` characters of `text`: all of it where it has no more.
pub fn prefix(text: &Vec<char>, limit: usize) -> (out: Vec<char>)
    ensures
        out@ == spec_prefix(text@, limit as nat),
{
    if text.len() <= limit {
        let out = sub_chars(text, 0, text.len());
        assert(text@.subrange(0, text.len() as int) == text@);
        out
    } else {
        sub_chars(text, 0, limit)
    }
}

/// What follows the last `sep` in `text`: all of it where it holds none.
pub open spec fn spec_after_last(text: Seq<char>, sep: char) -> Seq<char>
    decreases text.len(),
{
    if text.len() == 0 || text.last() == sep {
        Seq::empty()
    } else {
        spec_after_last(text.drop_last(), sep).push(text.last())
    }
}

proof fn lemma_after_last(text: Seq<char>, sep: char, k: int)
    requires
        0 <= k <= text.len(),
        forall|j: int| k <= j < text.len() ==> text[j] != sep,
        k == 0 || text[k - 1] == sep,
    ensures
        spec_after_last(text, sep) == text.subrange(k, text.len() as int),
    decreases text.len(),
{
    if k < text.len() {
        lemma_after_last(text.drop_last(), sep, k);
        assert(text.drop_last().subrange(k, text.len() - 1).push(text.last()) == text.subrange(
            k,
            text.len() as int,
        ));
    } else {
        assert(text.subrange(k, text.len() as int) == Seq::<char>::empty());
    }
}

/// What follows the last `sep` in `text`: all of it where it holds none.
pub fn after_last(text: &Vec<char>, sep: char) -> (out: Vec<char>)
    ensures
        out@ == spec_after_last(text@, sep),
{
    let n: usize = text.len();
    let mut from: usize = n;
    while from > 0 && text[from - 1] != sep
        invariant
            from <= n,
            n == text.len(),
            forall|j: int| from <= j < n ==> text@[j] != sep,
        decreases from,
    {
        from -= 1;
    }
    proof {
        lemma_after_last(text@, sep, from as int);
    }
    sub_chars(text, from, n)
}

/// `text` with every `suffix` at its end taken off, one after another.
pub open spec fn spec_strip_suffixes(text: Seq<char>, suffix: Seq<char>) -> Seq<char>
    decreases text.len(),
{
    if suffix.len() > 0 && suffix.is_suffix_of(text) {
        spec_strip_suffixes(text.subrange(0, text.len() - suffix.len()), suffix)
    } else {
        text
    }
}

/// `text` with every `suffix` at its end taken off, one after another.
pub fn strip_suffixes(text: &Vec<char>, suffix: &Vec<char>) -> (out: Vec<char>)
    ensures
        out@ == spec_strip_suffixes(text@, suffix@),
{
    let mut out = sub_chars(text, 0, text.len());
    assert(out@ == text@);
    if suffix.len() == 0 {
        return out;
    }
    while ends_with(&out, suffix)
        invariant
            suffix.len() > 0,
            spec_strip_suffixes(out@, suffix@) == spec_strip_suffixes(text@, suffix@),
        decreases out.len(),
    {
        let keep: usize = out.len() - suffix.len();
        out.truncate(keep);
    }
    out
}

} // verus!

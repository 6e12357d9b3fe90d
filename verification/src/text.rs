//! Text primitives: what they mean over `Seq<char>`, and functions that compute them.
//!
//! Every function here takes and returns ordinary strings; its contract speaks of the
//! sequence of characters that a string holds.

use vstd::prelude::*;

verus! {

/// `String::push` of the standard library: one character is appended at the end and
/// everything before it stays.
pub assume_specification[ String::push ](s: &mut String, c: char)
    ensures
        final(s)@ == old(s)@.push(c),
;

// ---------------------------------------------------------------------------------------
// White space
// ---------------------------------------------------------------------------------------

/// The characters with the Unicode property `White_Space`.
pub open spec fn white_space(c: char) -> bool {
    ||| '\u{9}' <= c <= '\u{d}'
    ||| c == '\u{20}'
    ||| c == '\u{85}'
    ||| c == '\u{a0}'
    ||| c == '\u{1680}'
    ||| '\u{2000}' <= c <= '\u{200a}'
    ||| c == '\u{2028}'
    ||| c == '\u{2029}'
    ||| c == '\u{202f}'
    ||| c == '\u{205f}'
    ||| c == '\u{3000}'
}

/// `s` without the white space at its start.
pub open spec fn trimmed_start(s: Seq<char>) -> Seq<char>
    decreases s.len(),
{
    if s.len() > 0 && white_space(s[0]) {
        trimmed_start(s.subrange(1, s.len() as int))
    } else {
        s
    }
}

/// `s` without the white space at its end.
pub open spec fn trimmed_end(s: Seq<char>) -> Seq<char>
    decreases s.len(),
{
    if s.len() > 0 && white_space(s.last()) {
        trimmed_end(s.drop_last())
    } else {
        s
    }
}

/// `s` without the white space at either end.
pub open spec fn trimmed(s: Seq<char>) -> Seq<char> {
    trimmed_end(trimmed_start(s))
}

// ---------------------------------------------------------------------------------------
// Searching and cutting
// ---------------------------------------------------------------------------------------

/// The position of the first `c` in `s`, or the length of `s` if there is none.
pub open spec fn first_position(s: Seq<char>, c: char) -> int
    decreases s.len(),
{
    if s.len() == 0 || s[0] == c {
        0
    } else {
        1 + first_position(s.subrange(1, s.len() as int), c)
    }
}

/// The position of the last `c` in `s`, or `-1` if there is none.
pub open spec fn last_position(s: Seq<char>, c: char) -> int
    decreases s.len(),
{
    if s.len() == 0 {
        -1
    } else if s.last() == c {
        s.len() - 1
    } else {
        last_position(s.drop_last(), c)
    }
}

/// What stands before and after the first `c` of `s`.
pub open spec fn cut_first(s: Seq<char>, c: char) -> Option<(Seq<char>, Seq<char>)> {
    let p = first_position(s, c);
    if p < s.len() {
        Some((s.subrange(0, p), s.subrange(p + 1, s.len() as int)))
    } else {
        None
    }
}

/// What stands before and after the last `c` of `s`.
pub open spec fn cut_last(s: Seq<char>, c: char) -> Option<(Seq<char>, Seq<char>)> {
    let p = last_position(s, c);
    if p >= 0 {
        Some((s.subrange(0, p), s.subrange(p + 1, s.len() as int)))
    } else {
        None
    }
}

/// The pieces of `s` between the occurrences of `sep`: always one more than there are
/// occurrences.
pub open spec fn pieces(s: Seq<char>, sep: char) -> Seq<Seq<char>>
    decreases s.len(),
{
    let p = first_position(s, sep);
    if 0 <= p < s.len() {
        seq![s.subrange(0, p)] + pieces(s.subrange(p + 1, s.len() as int), sep)
    } else {
        seq![s]
    }
}

/// A line without the carriage return that precedes its line feed.
pub open spec fn without_carriage_return(line: Seq<char>) -> Seq<char> {
    if line.len() > 0 && line.last() == '\r' {
        line.drop_last()
    } else {
        line
    }
}

/// The lines of `s`. A line ends with a line feed, or with a carriage return and a line
/// feed; what follows the last line feed is a line if it is not empty, and keeps a
/// carriage return at its end.
pub open spec fn lines_of(s: Seq<char>) -> Seq<Seq<char>>
    decreases s.len(),
{
    let p = first_position(s, '\n');
    if s.len() == 0 {
        Seq::empty()
    } else if 0 <= p < s.len() {
        seq![without_carriage_return(s.subrange(0, p))] + lines_of(
            s.subrange(p + 1, s.len() as int),
        )
    } else {
        seq![s]
    }
}

/// `parts` one after the other with `sep` between neighbours.
pub open spec fn joined(parts: Seq<Seq<char>>, sep: Seq<char>) -> Seq<char>
    decreases parts.len(),
{
    if parts.len() == 0 {
        Seq::empty()
    } else if parts.len() == 1 {
        parts[0]
    } else {
        joined(parts.drop_last(), sep) + sep + parts.last()
    }
}

/// The character sequences of a sequence of strings.
pub open spec fn texts(v: Seq<String>) -> Seq<Seq<char>> {
    v.map_values(|s: String| s@)
}

/// The character sequence of a string, where there is one.
pub open spec fn text_option(s: Option<String>) -> Option<Seq<char>> {
    match s {
        Some(t) => Some(t@),
        None => None,
    }
}

// ---------------------------------------------------------------------------------------
// Decimal numbers
// ---------------------------------------------------------------------------------------

/// `c` is one of the ten ASCII digits.
pub open spec fn decimal_digit(c: char) -> bool {
    '0' <= c <= '9'
}

/// The number that a sequence of ASCII digits writes in base ten.
pub open spec fn digits_value(s: Seq<char>) -> nat
    decreases s.len(),
{
    if s.len() == 0 {
        0
    } else {
        10 * digits_value(s.drop_last()) + (s.last() as nat - '0' as nat) as nat
    }
}

/// The digits of a number: all of `s` but for one leading `+`.
pub open spec fn unsigned_digits(s: Seq<char>) -> Seq<char> {
    if s.len() > 0 && s[0] == '+' {
        s.subrange(1, s.len() as int)
    } else {
        s
    }
}

/// The `u64` that `s` writes: an optional `+` and at least one ASCII digit, nothing else,
/// with a value that fits.
pub open spec fn decimal_u64(s: Seq<char>) -> Option<u64> {
    let d = unsigned_digits(s);
    if d.len() > 0 && (forall|i: int| 0 <= i < d.len() ==> decimal_digit(#[trigger] d[i]))
        && digits_value(d) <= u64::MAX {
        Some(digits_value(d) as u64)
    } else {
        None
    }
}

// ---------------------------------------------------------------------------------------
// Facts about the definitions
// ---------------------------------------------------------------------------------------

/// `first_position` is the least index that holds `c`.
pub proof fn lemma_first_position(s: Seq<char>, c: char)
    ensures
        0 <= first_position(s, c) <= s.len(),
        forall|i: int| 0 <= i < first_position(s, c) ==> s[i] != c,
        first_position(s, c) < s.len() ==> s[first_position(s, c)] == c,
        first_position(s, c) < s.len() <==> s.contains(c),
    decreases s.len(),
{
    if s.len() > 0 && s[0] != c {
        let t = s.subrange(1, s.len() as int);
        lemma_first_position(t, c);
        assert forall|i: int| 0 <= i < first_position(s, c) implies s[i] != c by {
            if i > 0 {
                assert(t[i - 1] == s[i]);
            }
        }
    }
    if s.contains(c) {
        let i = choose|i: int| 0 <= i < s.len() && s[i] == c;
        assert(first_position(s, c) <= i);
    }
}

/// An index that holds `c`, with no `c` before it, is the first position; and a sequence
/// without `c` has its length for it.
pub proof fn lemma_first_position_is(s: Seq<char>, c: char, p: int)
    requires
        0 <= p <= s.len(),
        forall|i: int| 0 <= i < p ==> s[i] != c,
        p < s.len() ==> s[p] == c,
    ensures
        first_position(s, c) == p,
{
    lemma_first_position(s, c);
    let q = first_position(s, c);
    if q < p {
        assert(s[q] == c);
    }
    if p < q {
        assert(s[p] != c);
    }
}

/// `last_position` is the greatest index that holds `c`.
pub proof fn lemma_last_position(s: Seq<char>, c: char)
    ensures
        -1 <= last_position(s, c) < s.len(),
        forall|i: int| last_position(s, c) < i < s.len() ==> s[i] != c,
        last_position(s, c) >= 0 ==> s[last_position(s, c)] == c,
    decreases s.len(),
{
    if s.len() > 0 && s.last() != c {
        lemma_last_position(s.drop_last(), c);
        assert forall|i: int| last_position(s, c) < i < s.len() implies s[i] != c by {
            if i < s.len() - 1 {
                assert(s.drop_last()[i] == s[i]);
            }
        }
    }
}

/// An index that holds `c`, with no `c` after it, is the last position; and a sequence
/// without `c` has `-1` for it.
pub proof fn lemma_last_position_is(s: Seq<char>, c: char, p: int)
    requires
        -1 <= p < s.len(),
        forall|i: int| p < i < s.len() ==> s[i] != c,
        p >= 0 ==> s[p] == c,
    ensures
        last_position(s, c) == p,
{
    lemma_last_position(s, c);
    let q = last_position(s, c);
    if q < p {
        assert(s[p] != c);
    }
    if p < q {
        assert(s[q] == c);
    }
}

/// Trimmed text starts and ends with no white space.
pub proof fn lemma_trimmed(s: Seq<char>)
    ensures
        trimmed(s).len() > 0 ==> !white_space(trimmed(s)[0]) && !white_space(trimmed(s).last()),
{
    lemma_trimmed_start(s);
    lemma_trimmed_end(trimmed_start(s));
}

proof fn lemma_trimmed_start(s: Seq<char>)
    ensures
        trimmed_start(s).len() > 0 ==> !white_space(trimmed_start(s)[0]),
    decreases s.len(),
{
    if s.len() > 0 && white_space(s[0]) {
        lemma_trimmed_start(s.subrange(1, s.len() as int));
    }
}

proof fn lemma_trimmed_end(s: Seq<char>)
    ensures
        trimmed_end(s).len() > 0 ==> trimmed_end(s)[0] == s[0] && !white_space(
            trimmed_end(s).last(),
        ),
    decreases s.len(),
{
    if s.len() > 0 && white_space(s.last()) {
        lemma_trimmed_end(s.drop_last());
    }
}

/// The lines of a text that ends with a line feed, followed by those of another text, are
/// the lines of the two together.
pub proof fn lemma_lines_of_concat(a: Seq<char>, b: Seq<char>)
    requires
        a.len() == 0 || a.last() == '\n',
    ensures
        lines_of(a + b) == lines_of(a) + lines_of(b),
    decreases a.len(),
{
    if a.len() == 0 {
        assert(a + b =~= b);
        assert(lines_of(a) + lines_of(b) =~= lines_of(b));
    } else {
        let s = a + b;
        lemma_first_position(a, '\n');
        assert(a.contains(a.last()));
        let p = first_position(a, '\n');
        assert forall|i: int| 0 <= i < p implies s[i] != '\n' by {
            assert(s[i] == a[i]);
        }
        assert(s[p] == a[p]);
        lemma_first_position_is(s, '\n', p);
        let rest = a.subrange(p + 1, a.len() as int);
        assert(rest.len() > 0 ==> rest.last() == a.last());
        assert(s.subrange(0, p) =~= a.subrange(0, p));
        assert(s.subrange(p + 1, s.len() as int) =~= rest + b);
        lemma_lines_of_concat(rest, b);
        let line = without_carriage_return(a.subrange(0, p));
        assert(seq![line] + (lines_of(rest) + lines_of(b)) =~= seq![line] + lines_of(rest)
            + lines_of(b));
    }
}

/// A part put in front of others is joined to them by the separator.
pub proof fn lemma_joined_first(first: Seq<char>, rest: Seq<Seq<char>>, sep: Seq<char>)
    requires
        rest.len() > 0,
    ensures
        joined(seq![first] + rest, sep) == first + sep + joined(rest, sep),
    decreases rest.len(),
{
    let all = seq![first] + rest;
    assert(all.last() == rest.last());
    assert(all.drop_last() =~= seq![first] + rest.drop_last());
    if rest.len() == 1 {
        assert(rest.drop_last() =~= Seq::<Seq<char>>::empty());
        assert(all.drop_last() =~= seq![first]);
        assert(joined(all.drop_last(), sep) == first);
    } else {
        lemma_joined_first(first, rest.drop_last(), sep);
        assert(first + sep + joined(rest.drop_last(), sep) + sep + rest.last() =~= first + sep + (
        joined(rest.drop_last(), sep) + sep + rest.last()));
    }
}

/// A text without carriage returns that does not end with a line feed is its lines, joined
/// by line feeds.
pub proof fn lemma_lines_join_back(s: Seq<char>)
    requires
        !s.contains('\r'),
        s.len() > 0 ==> s.last() != '\n',
    ensures
        joined(lines_of(s), seq!['\n']) == s,
        s.len() > 0 ==> lines_of(s).len() > 0,
    decreases s.len(),
{
    lemma_first_position(s, '\n');
    let p = first_position(s, '\n');
    if s.len() == 0 {
        assert(joined(lines_of(s), seq!['\n']) =~= s);
    } else if p < s.len() {
        let line = s.subrange(0, p);
        let rest = s.subrange(p + 1, s.len() as int);
        assert(p < s.len() - 1);
        assert(rest.last() == s.last());
        assert(!rest.contains('\r')) by {
            if rest.contains('\r') {
                let i = choose|i: int| 0 <= i < rest.len() && rest[i] == '\r';
                assert(s[p + 1 + i] == '\r');
            }
        }
        assert(line.len() > 0 ==> line.last() != '\r') by {
            if line.len() > 0 {
                assert(s.contains(s[p - 1]));
            }
        }
        lemma_lines_join_back(rest);
        lemma_joined_first(line, lines_of(rest), seq!['\n']);
        assert(line + seq!['\n'] + rest =~= s);
    }
}

/// More digits never write a smaller number.
proof fn lemma_digits_value_grows(s: Seq<char>, n: int)
    requires
        0 <= n <= s.len(),
    ensures
        digits_value(s.subrange(0, n)) <= digits_value(s),
    decreases s.len() - n,
{
    if n < s.len() {
        lemma_digits_value_grows(s, n + 1);
        assert(s.subrange(0, n + 1).drop_last() == s.subrange(0, n));
    } else {
        assert(s.subrange(0, n) == s);
    }
}

// ---------------------------------------------------------------------------------------
// Functions
// ---------------------------------------------------------------------------------------

/// Whether `c` is white space.
pub fn is_white_space(c: char) -> (r: bool)
    ensures
        r == white_space(c),
{
    ('\u{9}' <= c && c <= '\u{d}') || c == '\u{20}' || c == '\u{85}' || c == '\u{a0}' || c
        == '\u{1680}' || ('\u{2000}' <= c && c <= '\u{200a}') || c == '\u{2028}' || c
        == '\u{2029}' || c == '\u{202f}' || c == '\u{205f}' || c == '\u{3000}'
}

/// The characters of `s`, in order.
pub fn chars_of(s: &str) -> (v: Vec<char>)
    ensures
        v@ == s@,
{
    let mut v: Vec<char> = Vec::new();
    for c in it: s.chars()
        invariant
            v@ == it.seq().take(it.index()),
            it.seq() == s@,
    {
        v.push(c);
    }
    v
}

/// Whether two texts hold the same characters.
pub fn same_text(a: &str, b: &str) -> (r: bool)
    ensures
        r == (a@ == b@),
{
    let x = chars_of(a);
    let y = chars_of(b);
    if x.len() != y.len() {
        return false;
    }
    let mut i: usize = 0;
    while i < x.len()
        invariant
            i <= x.len(),
            x.len() == y.len(),
            x@ == a@,
            y@ == b@,
            forall|j: int| 0 <= j < i ==> x@[j] == y@[j],
        decreases x.len() - i,
    {
        if x[i] != y[i] {
            assert(a@[i as int] != b@[i as int]);
            return false;
        }
        i = i + 1;
    }
    assert(x@ =~= y@);
    true
}

/// `a` followed by `b`.
pub fn concat2(a: &str, b: &str) -> (r: String)
    ensures
        r@ == a@ + b@,
{
    let mut r = a.to_string();
    r.append(b);
    r
}

/// `a`, `b` and `c`, one after the other.
pub fn concat3(a: &str, b: &str, c: &str) -> (r: String)
    ensures
        r@ == a@ + b@ + c@,
{
    let mut r = concat2(a, b);
    r.append(c);
    r
}

/// `s` without the white space at either end.
pub fn trim(s: &str) -> (r: &str)
    ensures
        r@ == trimmed(s@),
{
    let v = chars_of(s);
    let n: usize = v.len();
    let mut start: usize = 0;
    proof {
        assert(s@.subrange(0, n as int) == s@);
    }
    while start < n && is_white_space(v[start])
        invariant
            start <= n,
            n == v.len(),
            v@ == s@,
            trimmed_start(s@) == trimmed_start(s@.subrange(start as int, n as int)),
        decreases n - start,
    {
        proof {
            let rest = s@.subrange(start as int, n as int);
            assert(rest.subrange(1, rest.len() as int) == s@.subrange(start + 1, n as int));
        }
        start = start + 1;
    }
    proof {
        assert(trimmed_start(s@) == s@.subrange(start as int, n as int));
    }
    let mut end: usize = n;
    while start < end && is_white_space(v[end - 1])
        invariant
            start <= end <= n,
            n == v.len(),
            v@ == s@,
            trimmed(s@) == trimmed_end(s@.subrange(start as int, end as int)),
        decreases end - start,
    {
        proof {
            let rest = s@.subrange(start as int, end as int);
            assert(rest.drop_last() == s@.subrange(start as int, end - 1));
        }
        end = end - 1;
    }
    s.substring_char(start, end)
}

/// What stands before and after the first `c` of `s`.
pub fn split_once<'a>(s: &'a str, c: char) -> (r: Option<(&'a str, &'a str)>)
    ensures
        r is Some <==> cut_first(s@, c) is Some,
        r matches Some(ab) ==> cut_first(s@, c) == Some((ab.0@, ab.1@)),
{
    let v = chars_of(s);
    let n: usize = v.len();
    let mut i: usize = 0;
    while i < n && v[i] != c
        invariant
            i <= n,
            n == v.len(),
            v@ == s@,
            forall|j: int| 0 <= j < i ==> s@[j] != c,
        decreases n - i,
    {
        i = i + 1;
    }
    proof {
        lemma_first_position_is(s@, c, i as int);
    }
    if i < n {
        Some((s.substring_char(0, i), s.substring_char(i + 1, n)))
    } else {
        None
    }
}

/// What stands before and after the last `c` of `s`.
pub fn rsplit_once<'a>(s: &'a str, c: char) -> (r: Option<(&'a str, &'a str)>)
    ensures
        r is Some <==> cut_last(s@, c) is Some,
        r matches Some(ab) ==> cut_last(s@, c) == Some((ab.0@, ab.1@)),
{
    let v = chars_of(s);
    let n: usize = v.len();
    let mut i: usize = n;
    while i > 0 && v[i - 1] != c
        invariant
            i <= n,
            n == v.len(),
            v@ == s@,
            forall|j: int| i <= j < n ==> s@[j] != c,
        decreases i,
    {
        i = i - 1;
    }
    proof {
        lemma_last_position_is(s@, c, i - 1);
    }
    if i > 0 {
        Some((s.substring_char(0, i - 1), s.substring_char(i, n)))
    } else {
        None
    }
}

/// The pieces of `s` between the occurrences of `sep`.
pub fn split(s: &str, sep: char) -> (r: Vec<String>)
    ensures
        texts(r@) == pieces(s@, sep),
{
    let v = chars_of(s);
    let n: usize = v.len();
    let mut out: Vec<String> = Vec::new();
    let mut current: String = String::new();
    let ghost mut start: int = 0;
    let mut i: usize = 0;
    proof {
        assert(s@.subrange(0, n as int) == s@);
        assert(texts(out@) + pieces(s@, sep) == pieces(s@, sep));
    }
    while i < n
        invariant
            0 <= start <= i <= n,
            n == v.len(),
            v@ == s@,
            current@ == s@.subrange(start, i as int),
            forall|j: int| start <= j < i ==> s@[j] != sep,
            texts(out@) + pieces(s@.subrange(start, n as int), sep) == pieces(s@, sep),
        decreases n - i,
    {
        let c: char = v[i];
        if c == sep {
            proof {
                let rest = s@.subrange(start, n as int);
                lemma_first_position_is(rest, sep, i - start);
                assert(rest.subrange(0, i - start) == current@);
                assert(rest.subrange(i - start + 1, rest.len() as int) == s@.subrange(
                    i + 1,
                    n as int,
                ));
                assert(texts(out@.push(current)) == texts(out@).push(current@));
                assert(texts(out@) + (seq![current@] + pieces(s@.subrange(i + 1, n as int), sep))
                    == texts(out@).push(current@) + pieces(s@.subrange(i + 1, n as int), sep));
                start = i + 1;
            }
            out.push(current);
            current = String::new();
        } else {
            current.push(c);
        }
        i = i + 1;
    }
    proof {
        let rest = s@.subrange(start, n as int);
        lemma_first_position_is(rest, sep, rest.len() as int);
        assert(texts(out@.push(current)) == texts(out@) + seq![current@]);
    }
    out.push(current);
    out
}

/// The lines of `s`.
pub fn lines(s: &str) -> (r: Vec<String>)
    ensures
        texts(r@) == lines_of(s@),
{
    let v = chars_of(s);
    let n: usize = v.len();
    let mut out: Vec<String> = Vec::new();
    let mut start: usize = 0;
    let mut i: usize = 0;
    proof {
        assert(s@.subrange(0, n as int) == s@);
        assert(texts(out@) + lines_of(s@) == lines_of(s@));
    }
    while i < n
        invariant
            start <= i <= n,
            n == v.len(),
            v@ == s@,
            forall|j: int| start <= j < i ==> s@[j] != '\n',
            texts(out@) + lines_of(s@.subrange(start as int, n as int)) == lines_of(s@),
        decreases n - i,
    {
        if v[i] == '\n' {
            let end: usize = if i > start && v[i - 1] == '\r' {
                i - 1
            } else {
                i
            };
            let line = slice_to_string(&v, start, end);
            proof {
                let rest = s@.subrange(start as int, n as int);
                let whole = rest.subrange(0, i - start);
                lemma_first_position_is(rest, '\n', i - start);
                assert(whole == s@.subrange(start as int, i as int));
                assert(without_carriage_return(whole) == line@);
                assert(rest.subrange(i - start + 1, rest.len() as int) == s@.subrange(
                    i + 1,
                    n as int,
                ));
                assert(texts(out@.push(line)) == texts(out@).push(line@));
                assert(texts(out@) + (seq![line@] + lines_of(s@.subrange(i + 1, n as int)))
                    == texts(out@).push(line@) + lines_of(s@.subrange(i + 1, n as int)));
            }
            out.push(line);
            start = i + 1;
        }
        i = i + 1;
    }
    let ghost rest = s@.subrange(start as int, n as int);
    proof {
        lemma_first_position_is(rest, '\n', rest.len() as int);
    }
    if start < n {
        let line = slice_to_string(&v, start, n);
        proof {
            assert(texts(out@.push(line)) == texts(out@) + seq![line@]);
        }
        out.push(line);
    } else {
        assert(lines_of(rest) == Seq::<Seq<char>>::empty());
        assert(texts(out@) + lines_of(rest) == texts(out@));
    }
    out
}

/// The characters of `v` from `from` up to `to`, as a string.
pub fn slice_to_string(v: &Vec<char>, from: usize, to: usize) -> (r: String)
    requires
        from <= to <= v.len(),
    ensures
        r@ == v@.subrange(from as int, to as int),
{
    let mut r: String = String::new();
    let mut i: usize = from;
    while i < to
        invariant
            from <= i <= to <= v.len(),
            r@ == v@.subrange(from as int, i as int),
        decreases to - i,
    {
        r.push(v[i]);
        i = i + 1;
    }
    r
}

/// The strings of `parts` from `from` on, joined by `sep`.
pub fn join_from(parts: &Vec<String>, from: usize, sep: &str) -> (r: String)
    requires
        from <= parts.len(),
    ensures
        r@ == joined(texts(parts@).subrange(from as int, parts.len() as int), sep@),
{
    let mut r: String = String::new();
    let mut i: usize = from;
    while i < parts.len()
        invariant
            from <= i <= parts.len(),
            r@ == joined(texts(parts@).subrange(from as int, i as int), sep@),
        decreases parts.len() - i,
    {
        let ghost next = texts(parts@).subrange(from as int, i + 1);
        assert(next.drop_last() == texts(parts@).subrange(from as int, i as int));
        assert(next.last() == parts@[i as int]@);
        if i > from {
            r.append(sep);
        }
        r.append(parts[i].as_str());
        i = i + 1;
    }
    r
}

/// The `u64` that `s` writes in base ten, as `str::parse::<u64>` reads it.
pub fn parse_u64(s: &str) -> (r: Option<u64>)
    ensures
        r == decimal_u64(s@),
{
    let v = chars_of(s);
    let n: usize = v.len();
    let first: usize = if n > 0 && v[0] == '+' {
        1
    } else {
        0
    };
    let ghost d = unsigned_digits(s@);
    proof {
        assert(d == s@.subrange(first as int, n as int));
    }
    if first == n {
        return None;
    }
    let mut value: u64 = 0;
    let mut i: usize = first;
    while i < n
        invariant
            first <= i <= n,
            first < n,
            n == v.len(),
            v@ == s@,
            d == unsigned_digits(s@),
            d == s@.subrange(first as int, n as int),
            forall|j: int| 0 <= j < i - first ==> decimal_digit(#[trigger] d[j]),
            value == digits_value(d.subrange(0, i - first)),
        decreases n - i,
    {
        let c: char = v[i];
        assert(d[i - first] == c);
        if c < '0' || c > '9' {
            assert(!decimal_digit(d[i - first]));
            return None;
        }
        let digit: u64 = (c as u32 - '0' as u32) as u64;
        proof {
            let next = d.subrange(0, i - first + 1);
            assert(next.drop_last() == d.subrange(0, i - first));
            assert(next.last() == c);
            assert(digits_value(next) == 10 * value + digit);
            lemma_digits_value_grows(d, i - first + 1);
        }
        if value > (u64::MAX - digit) / 10 {
            return None;
        }
        value = value * 10 + digit;
        i = i + 1;
    }
    assert(d.subrange(0, n - first) == d);
    Some(value)
}

// ---------------------------------------------------------------------------------------
// Laws
// ---------------------------------------------------------------------------------------

/// `s` holds nothing but white space.
pub open spec fn all_white(s: Seq<char>) -> bool {
    forall|i: int| 0 <= i < s.len() ==> white_space(#[trigger] s[i])
}

/// `s` starts and ends with no white space.
pub open spec fn bare(s: Seq<char>) -> bool {
    s.len() > 0 ==> !white_space(s[0]) && !white_space(s.last())
}

proof fn lemma_trimmed_start_is_suffix(s: Seq<char>)
    ensures
        trimmed_start(s).len() <= s.len(),
        trimmed_start(s) == s.subrange(s.len() - trimmed_start(s).len(), s.len() as int),
        all_white(s.subrange(0, s.len() - trimmed_start(s).len())),
    decreases s.len(),
{
    let n = s.len() as int;
    if s.len() > 0 && white_space(s[0]) {
        let rest = s.subrange(1, n);
        lemma_trimmed_start_is_suffix(rest);
        let lead = n - trimmed_start(s).len();
        assert(rest.subrange(lead - 1, rest.len() as int) =~= s.subrange(lead, n));
        assert forall|i: int| 0 <= i < lead implies white_space(
            #[trigger] s.subrange(0, lead)[i],
        ) by {
            if i > 0 {
                assert(rest.subrange(0, lead - 1)[i - 1] == s[i]);
            }
        }
    } else {
        assert(s.subrange(0, n) =~= s);
    }
}

proof fn lemma_trimmed_end_is_prefix(s: Seq<char>)
    ensures
        trimmed_end(s).len() <= s.len(),
        trimmed_end(s) == s.subrange(0, trimmed_end(s).len() as int),
        all_white(s.subrange(trimmed_end(s).len() as int, s.len() as int)),
    decreases s.len(),
{
    let n = s.len() as int;
    if s.len() > 0 && white_space(s.last()) {
        let rest = s.drop_last();
        lemma_trimmed_end_is_prefix(rest);
        let keep = trimmed_end(s).len() as int;
        assert(rest.subrange(0, keep) =~= s.subrange(0, keep));
        assert forall|i: int| 0 <= i < n - keep implies white_space(
            #[trigger] s.subrange(keep, n)[i],
        ) by {
            if i < n - keep - 1 {
                assert(rest.subrange(keep, n - 1)[i] == s[keep + i]);
            }
        }
    } else {
        assert(s.subrange(0, n) =~= s);
    }
}

/// What is trimmed off is white space at the ends, and nothing else: every text is white
/// space, its trimmed text, and white space.
pub proof fn law_white_space_is_trimmed_off(s: Seq<char>) -> (parts: (Seq<char>, Seq<char>))
    ensures
        s == parts.0 + trimmed(s) + parts.1,
        all_white(parts.0),
        all_white(parts.1),
        bare(trimmed(s)),
{
    let n = s.len() as int;
    let t = trimmed_start(s);
    let r = trimmed(s);
    lemma_trimmed_start_is_suffix(s);
    lemma_trimmed_end_is_prefix(t);
    lemma_trimmed(s);
    let before = s.subrange(0, n - t.len());
    let after = t.subrange(r.len() as int, t.len() as int);
    assert(t =~= r + after);
    assert(s =~= before + t);
    assert(s =~= before + r + after);
    (before, after)
}

/// A text without white space at its ends comes back from any white space put around it.
pub proof fn law_trimming_takes_the_ends_off(before: Seq<char>, t: Seq<char>, after: Seq<char>)
    requires
        all_white(before),
        all_white(after),
        bare(t),
    ensures
        trimmed(before + t + after) == t,
{
    let s = before + t + after;
    let (x, y) = law_white_space_is_trimmed_off(s);
    let r = trimmed(s);
    let i = x.len() as int;
    let j = i + r.len();
    assert(s.len() == i + r.len() + y.len());
    assert forall|k: int| 0 <= k < s.len() && (k < i || k >= j) implies white_space(
        #[trigger] s[k],
    ) by {
        if k < i {
            assert(s[k] == x[k]);
        } else if k >= j {
            assert(s[k] == y[k - j]);
        }
    }
    let b = before.len() as int;
    let e = b + t.len();
    assert forall|k: int| 0 <= k < s.len() && (k < b || k >= e) implies white_space(
        #[trigger] s[k],
    ) by {
        if k < b {
            assert(s[k] == before[k]);
        } else if k >= e {
            assert(s[k] == after[k - e]);
        }
    }
    if r.len() > 0 {
        assert(s[i] == r[0]);
        assert(s[j - 1] == r.last());
    }
    if t.len() > 0 {
        assert(s[b] == t[0]);
        assert(s[e - 1] == t.last());
    }
    if r.len() > 0 && t.len() > 0 {
        assert(i == b && j == e);
    }
    assert(r =~= t) by {
        assert forall|k: int| 0 <= k < r.len() implies r[k] == t[k] by {
            assert(s[i + k] == r[k]);
            assert(s[b + k] == t[k]);
        }
    }
}

/// A text is cut at the first occurrence of a character and nowhere else, and the two parts
/// hold all the rest.
pub proof fn law_first_cut(a: Seq<char>, c: char, b: Seq<char>)
    requires
        !a.contains(c),
    ensures
        cut_first(a + seq![c] + b, c) == Some((a, b)),
        cut_first(a, c) is None,
{
    let s = a + seq![c] + b;
    let p = a.len() as int;
    assert forall|i: int| 0 <= i < p implies s[i] != c by {
        assert(s[i] == a[i]);
    }
    lemma_first_position_is(s, c, p);
    assert(s.subrange(0, p) =~= a);
    assert(s.subrange(p + 1, s.len() as int) =~= b);
    lemma_first_position(a, c);
}

/// A text is cut at the last occurrence of a character and nowhere else, and the two parts
/// hold all the rest.
pub proof fn law_last_cut(a: Seq<char>, c: char, b: Seq<char>)
    requires
        !b.contains(c),
    ensures
        cut_last(a + seq![c] + b, c) == Some((a, b)),
        cut_last(b, c) is None,
{
    let s = a + seq![c] + b;
    let p = a.len() as int;
    assert forall|i: int| p < i < s.len() implies s[i] != c by {
        assert(s[i] == b[i - p - 1]);
    }
    lemma_last_position_is(s, c, p);
    assert(s.subrange(0, p) =~= a);
    assert(s.subrange(p + 1, s.len() as int) =~= b);
    lemma_last_position_is(b, c, -1);
}

/// A text is split at each separator, and no character is lost.
pub proof fn law_split_at_each_separator(head: Seq<char>, sep: char, tail: Seq<char>)
    requires
        !head.contains(sep),
    ensures
        pieces(head + seq![sep] + tail, sep) == seq![head] + pieces(tail, sep),
        pieces(head, sep) == seq![head],
{
    law_first_cut(head, sep, tail);
    let s = head + seq![sep] + tail;
    let p = head.len() as int;
    assert forall|i: int| 0 <= i < p implies s[i] != sep by {
        assert(s[i] == head[i]);
    }
    lemma_first_position_is(s, sep, p);
    assert(s.subrange(0, p) =~= head);
    assert(s.subrange(p + 1, s.len() as int) =~= tail);
    lemma_first_position(head, sep);
}

/// A line ends with a line feed, or with a carriage return and a line feed, neither of which
/// belongs to it. What follows the last line feed is a line as it stands, if it is not empty.
pub proof fn law_lines_end_with_line_feeds(line: Seq<char>, rest: Seq<char>)
    requires
        !line.contains('\n'),
    ensures
        lines_of(line + seq!['\r', '\n'] + rest) == seq![line] + lines_of(rest),
        (line.len() > 0 ==> line.last() != '\r') ==> lines_of(line + seq!['\n'] + rest)
            == seq![line] + lines_of(rest),
        line.len() > 0 ==> lines_of(line) == seq![line],
        line.len() == 0 ==> lines_of(line) == Seq::<Seq<char>>::empty(),
{
    let p = line.len() as int;
    lemma_first_position(line, '\n');
    let s = line + seq!['\n'] + rest;
    assert forall|i: int| 0 <= i < p implies s[i] != '\n' by {
        assert(s[i] == line[i]);
    }
    lemma_first_position_is(s, '\n', p);
    assert(s.subrange(0, p) =~= line);
    assert(s.subrange(p + 1, s.len() as int) =~= rest);
    let u = line + seq!['\r', '\n'] + rest;
    assert forall|i: int| 0 <= i < p + 1 implies u[i] != '\n' by {
        if i < p {
            assert(u[i] == line[i]);
        }
    }
    assert(u[p + 1] == '\n');
    lemma_first_position_is(u, '\n', p + 1);
    assert(u.subrange(0, p + 1) =~= line.push('\r'));
    assert(line.push('\r').drop_last() =~= line);
    assert(u.subrange(p + 2, u.len() as int) =~= rest);
}

/// Joined parts stand one after the other, whole, with the separator between neighbours and
/// nowhere else.
pub proof fn law_parts_are_joined(first: Seq<char>, rest: Seq<Seq<char>>, sep: Seq<char>)
    ensures
        joined(seq![first] + rest, sep) == if rest.len() == 0 {
            first
        } else {
            first + sep + joined(rest, sep)
        },
        joined(Seq::empty(), sep) == Seq::<char>::empty(),
{
    if rest.len() > 0 {
        lemma_joined_first(first, rest, sep);
    } else {
        assert((seq![first] + rest)[0] == first);
    }
}

/// A digit writes its own value, and a digit put in front of others is worth its value times
/// a power of ten.
pub proof fn law_digits_are_decimal(c: char, rest: Seq<char>)
    requires
        decimal_digit(c),
    ensures
        digits_value(seq![c]) == c as int - 48,
        digits_value(seq![c] + rest) == (c as int - 48) * vstd::arithmetic::power::pow(
            10,
            rest.len(),
        ) + digits_value(rest),
    decreases rest.len(),
{
    reveal(vstd::arithmetic::power::pow);
    let all = seq![c] + rest;
    assert(seq![c].drop_last() =~= Seq::<char>::empty());
    assert(digits_value(Seq::<char>::empty()) == 0);
    assert(seq![c].last() == c);
    assert('0' as int == 48);
    assert(digits_value(seq![c]) == c as int - 48);
    if rest.len() == 0 {
        assert(all =~= seq![c]);
        assert(vstd::arithmetic::power::pow(10, 0) == 1);
    } else {
        let short = rest.drop_last();
        law_digits_are_decimal(c, short);
        assert(all.drop_last() =~= seq![c] + short);
        assert(all.last() == rest.last());
        let v = c as int - 48;
        let p = vstd::arithmetic::power::pow(10, short.len());
        assert(vstd::arithmetic::power::pow(10, rest.len()) == 10 * p);
        assert(10 * (v * p) == v * (10 * p)) by (nonlinear_arith);
    }
}

/// A number is one or more digits, behind at most one plus sign, whose value fits; nothing
/// else is one.
pub proof fn law_numbers_are_digits(d: Seq<char>)
    ensures
        ({
            let digits = d.len() > 0 && forall|i: int|
                0 <= i < d.len() ==> '0' <= #[trigger] d[i] <= '9';
            &&& digits && digits_value(d) <= u64::MAX ==> decimal_u64(d) == Some(
                digits_value(d) as u64,
            )
            &&& decimal_u64(seq!['+'] + d) == if digits && digits_value(d) <= u64::MAX {
                Some(digits_value(d) as u64)
            } else {
                None
            }
            &&& (d.len() > 0 ==> d[0] != '+') && !(digits && digits_value(d) <= u64::MAX)
                ==> decimal_u64(d) is None
        }),
{
    let plus = seq!['+'] + d;
    assert(plus.subrange(1, plus.len() as int) =~= d);
    if d.len() > 0 && d[0] == '+' {
        assert(!('0' <= d[0] <= '9'));
    }
    if forall|i: int| 0 <= i < d.len() ==> '0' <= #[trigger] d[i] <= '9' {
        assert forall|i: int| 0 <= i < d.len() implies decimal_digit(#[trigger] d[i]) by {
            assert('0' <= d[i] <= '9');
        }
    } else {
        let i = choose|i: int| 0 <= i < d.len() && !('0' <= #[trigger] d[i] <= '9');
        assert(!decimal_digit(d[i]));
    }
}

/// Each string stands for its own characters.
pub proof fn law_views_are_the_strings(v: Seq<String>, o: Option<String>)
    ensures
        texts(v).len() == v.len(),
        forall|i: int| 0 <= i < v.len() ==> #[trigger] texts(v)[i] == v[i]@,
        o is None ==> text_option(o) is None,
        o matches Some(t) ==> text_option(o) == Some(t@),
{
}

}

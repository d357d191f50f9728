use vstd::prelude::*;
use vstd::slice::{slice_subrange, slice_to_vec};
use vstd::string::StringExecFns;

verus! {

broadcast use vstd::string::axiom_spec_iter;

/// The characters of `s`, in order.
pub fn chars_of(s: &str) -> (r: Vec<char>)
    ensures
        r@ == s@,
{
    let mut out: Vec<char> = Vec::new();
    for c in it: s.chars()
        invariant
            out@ == it.seq().take(it.index() as int),
            it.seq() == s@,
    {
        out.push(c);
    }
    out
}

/// The decimal digit for `d < 10`.
pub open spec fn digit_char(d: nat) -> char {
    ((d + '0' as nat) as u32) as char
}

/// The decimal digits of `n`, without leading zeros.
pub open spec fn digits_text(n: nat) -> Seq<char>
    decreases n,
{
    if n < 10 {
        seq![digit_char(n)]
    } else {
        digits_text(n / 10).push(digit_char(n % 10))
    }
}

/// `v` written in decimal, with a `-` before a negative number.
pub open spec fn int_text(v: int) -> Seq<char> {
    if v < 0 {
        seq!['-'] + digits_text((-v) as nat)
    } else {
        digits_text(v as nat)
    }
}

/// Relies on `i128`'s `ToString`, which writes the number in decimal with a
/// leading `-` when negative.
#[verifier::external_body]
pub(crate) fn decimal_string(v: i128) -> (r: String)
    ensures
        r@ == int_text(v as int),
{
    v.to_string()
}

/// `a` followed by `b`.
pub fn joined(a: String, b: &str) -> (r: String)
    ensures
        r@ == a@ + b@,
{
    let mut out = a;
    out.append(b);
    out
}

/// Unicode's `White_Space` characters, those that `char::is_whitespace` accepts.
pub open spec fn is_white(c: char) -> bool {
    ('\t' <= c <= '\r') || c == ' ' || c == '\u{85}' || c == '\u{a0}' || c == '\u{1680}' || (
    '\u{2000}' <= c <= '\u{200a}') || c == '\u{2028}' || c == '\u{2029}' || c == '\u{202f}'
        || c == '\u{205f}' || c == '\u{3000}'
}

/// The end of the run of white space that starts at `i`.
pub open spec fn lead_end(l: Seq<char>, i: int) -> int
    decreases l.len() - i,
{
    if 0 <= i < l.len() && is_white(l[i]) {
        lead_end(l, i + 1)
    } else {
        i
    }
}

/// The start of the run of white space that ends at `j`.
pub open spec fn trail_start(l: Seq<char>, j: int) -> int
    decreases j,
{
    if 0 < j <= l.len() && is_white(l[j - 1]) {
        trail_start(l, j - 1)
    } else {
        j
    }
}

/// `l` without its leading and trailing white space.
pub open spec fn trimmed(l: Seq<char>) -> Seq<char> {
    let a = lead_end(l, 0);
    if a >= l.len() {
        Seq::empty()
    } else {
        l.subrange(a, trail_start(l, l.len() as int))
    }
}

/// The lines of `s[start..]`, scanning from `i`: the pieces between `'\n'`
/// characters, with no empty piece after a final `'\n'`.
pub open spec fn lines_from(s: Seq<char>, start: int, i: int) -> Seq<Seq<char>>
    decreases s.len() - i,
{
    if i >= s.len() {
        if start < s.len() {
            seq![s.subrange(start, s.len() as int)]
        } else {
            Seq::empty()
        }
    } else if s[i] == '\n' {
        seq![s.subrange(start, i)] + lines_from(s, i + 1, i + 1)
    } else {
        lines_from(s, start, i + 1)
    }
}

/// The lines of `s`. A `'\r'` before a `'\n'` stays on its line.
pub open spec fn lines_of(s: Seq<char>) -> Seq<Seq<char>> {
    lines_from(s, 0, 0)
}

/// The lines of `s`, each trimmed of white space at both ends.
pub open spec fn trimmed_lines(s: Seq<char>) -> Seq<Seq<char>> {
    lines_of(s).map_values(|l: Seq<char>| trimmed(l))
}

pub open spec fn views(v: Seq<Vec<char>>) -> Seq<Seq<char>> {
    v.map_values(|l: Vec<char>| l@)
}

fn is_white_char(c: char) -> (r: bool)
    ensures
        r == is_white(c),
{
    ('\t' <= c && c <= '\r') || c == ' ' || c == '\u{85}' || c == '\u{a0}' || c == '\u{1680}' || (
    '\u{2000}' <= c && c <= '\u{200a}') || c == '\u{2028}' || c == '\u{2029}' || c == '\u{202f}'
        || c == '\u{205f}' || c == '\u{3000}'
}

/// `l` without its leading and trailing white space.
pub fn trim(l: &[char]) -> (r: &[char])
    ensures
        r@ == trimmed(l@),
{
    let mut a: usize = 0;
    while a < l.len() && is_white_char(l[a])
        invariant
            a <= l@.len(),
            lead_end(l@, a as int) == lead_end(l@, 0),
        decreases l@.len() - a,
    {
        a = a + 1;
    }
    if a >= l.len() {
        return slice_subrange(l, 0, 0);
    }
    let mut b: usize = l.len();
    while is_white_char(l[b - 1])
        invariant
            a < b <= l@.len(),
            !is_white(l@[a as int]),
            trail_start(l@, b as int) == trail_start(l@, l@.len() as int),
        decreases b,
    {
        b = b - 1;
    }
    slice_subrange(l, a, b)
}

/// The lines of `s`, each trimmed of white space at both ends.
pub fn trimmed_lines_of(s: &[char]) -> (r: Vec<Vec<char>>)
    ensures
        views(r@) == trimmed_lines(s@),
{
    let mut out: Vec<Vec<char>> = Vec::new();
    let ghost mut raw: Seq<Seq<char>> = Seq::empty();
    let mut start: usize = 0;
    let mut i: usize = 0;
    while i < s.len()
        invariant
            start <= i <= s@.len(),
            raw + lines_from(s@, start as int, i as int) == lines_of(s@),
            views(out@) == raw.map_values(|l: Seq<char>| trimmed(l)),
        decreases s@.len() - i,
    {
        if s[i] == '\n' {
            let t = trim(slice_subrange(s, start, i));
            let line = slice_to_vec(t);
            proof {
                let piece = s@.subrange(start as int, i as int);
                assert(raw.push(piece) + lines_from(s@, i + 1, i + 1) == raw + lines_from(s@, start as int, i as int));
                assert(views(out@.push(line)) == views(out@).push(line@));
                assert(raw.push(piece).map_values(|l: Seq<char>| trimmed(l)) == raw.map_values(|l: Seq<char>| trimmed(l)).push(trimmed(piece)));
                raw = raw.push(piece);
            }
            out.push(line);
            start = i + 1;
        }
        i = i + 1;
    }
    if start < s.len() {
        let t = trim(slice_subrange(s, start, s.len()));
        let line = slice_to_vec(t);
        proof {
            let piece = s@.subrange(start as int, s@.len() as int);
            assert(raw.push(piece) == raw + lines_from(s@, start as int, i as int));
            assert(views(out@.push(line)) == views(out@).push(line@));
            assert(raw.push(piece).map_values(|l: Seq<char>| trimmed(l)) == raw.map_values(|l: Seq<char>| trimmed(l)).push(trimmed(piece)));
            raw = raw.push(piece);
        }
        out.push(line);
    } else {
        proof {
            assert(raw + Seq::<Seq<char>>::empty() == raw);
        }
    }
    out
}

} // verus!

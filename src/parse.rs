use vstd::prelude::*;
use vstd::slice::slice_subrange;

use crate::enums::{
    direction_of_letter, instruction_of_letter, Coordinate, Direction, Instruction, ParsingErr,
};

verus! {

pub open spec fn is_digit(c: char) -> bool {
    '0' <= c <= '9'
}

/// A character that may continue a number: a digit or the `_` that groups digits.
pub open spec fn is_digit_or_sep(c: char) -> bool {
    is_digit(c) || c == '_'
}

/// The whitespace that separates tokens on a line.
pub open spec fn is_space(c: char) -> bool {
    c == ' ' || c == '\t' || c == '\r' || c == '\n'
}

pub open spec fn digit_value(c: char) -> int {
    c as int - '0' as int
}

/// The end of the run of digits and `_` that starts at `i`.
pub open spec fn digits_end(s: Seq<char>, i: int) -> int
    decreases s.len() - i,
{
    if 0 <= i < s.len() && is_digit_or_sep(s[i]) {
        digits_end(s, i + 1)
    } else {
        i
    }
}

/// The end of the run of whitespace that starts at `i`.
pub open spec fn spaces_end(s: Seq<char>, i: int) -> int
    decreases s.len() - i,
{
    if 0 <= i < s.len() && is_space(s[i]) {
        spaces_end(s, i + 1)
    } else {
        i
    }
}

/// The number written by the digits of `s[i..j]`, the `_` separators ignored.
pub open spec fn digits_value(s: Seq<char>, i: int, j: int) -> int
    decreases j - i,
{
    if j <= i {
        0
    } else if s[j - 1] == '_' {
        digits_value(s, i, j - 1)
    } else {
        digits_value(s, i, j - 1) * 10 + digit_value(s[j - 1])
    }
}

/// A number at `i`: where it ends and its value. There is none unless `i`
/// holds a digit and the value fits in `isize`.
pub open spec fn decimal_at(s: Seq<char>, i: int) -> Option<(int, int)> {
    let e = digits_end(s, i);
    if 0 <= i < s.len() && is_digit(s[i]) && digits_value(s, i, e) <= isize::MAX {
        Some((e, digits_value(s, i, e)))
    } else {
        None
    }
}

/// Two numbers at `i` separated by at least one whitespace character.
pub open spec fn coordinate_at(s: Seq<char>, i: int) -> Option<(int, (int, int))> {
    match decimal_at(s, i) {
        None => None,
        Some((j, x)) => {
            let k = spaces_end(s, j);
            if k == j {
                None
            } else {
                match decimal_at(s, k) {
                    None => None,
                    Some((e, y)) => Some((e, (x, y))),
                }
            }
        },
    }
}

/// A direction letter at `i`.
pub open spec fn direction_at(s: Seq<char>, i: int) -> Option<(int, Direction)> {
    if 0 <= i < s.len() && direction_of_letter(s[i]) is Some {
        Some((i + 1, direction_of_letter(s[i])->0))
    } else {
        None
    }
}

/// An instruction letter at `i`.
pub open spec fn instruction_at(s: Seq<char>, i: int) -> Option<(int, Instruction)> {
    if 0 <= i < s.len() && instruction_of_letter(s[i]) is Some {
        Some((i + 1, instruction_of_letter(s[i])->0))
    } else {
        None
    }
}

/// A coordinate, at least one whitespace character, then a direction.
pub open spec fn starting_position_at(s: Seq<char>, i: int) -> Option<(int, ((int, int), Direction))> {
    match coordinate_at(s, i) {
        None => None,
        Some((j, c)) => {
            let k = spaces_end(s, j);
            if k == j {
                None
            } else {
                match direction_at(s, k) {
                    None => None,
                    Some((e, d)) => Some((e, (c, d))),
                }
            }
        },
    }
}

/// What follows the first letter of an instruction stream from `i`: any
/// mixture of instruction letters and whitespace. Gives where it ends and
/// the instructions read.
pub open spec fn stream_rest(s: Seq<char>, i: int) -> (int, Seq<Instruction>)
    decreases s.len() - i,
{
    if 0 <= i < s.len() && is_space(s[i]) {
        stream_rest(s, i + 1)
    } else if 0 <= i < s.len() && instruction_of_letter(s[i]) is Some {
        let r = stream_rest(s, i + 1);
        (r.0, seq![instruction_of_letter(s[i])->0] + r.1)
    } else {
        (i, Seq::empty())
    }
}

/// One or more instructions from `i`, each followed by any whitespace.
pub open spec fn instruction_stream_at(s: Seq<char>, i: int) -> Option<(int, Seq<Instruction>)> {
    if instruction_at(s, i) is Some {
        Some(stream_rest(s, i))
    } else {
        None
    }
}

proof fn lemma_digits_end_bounds(s: Seq<char>, i: int)
    requires
        0 <= i <= s.len(),
    ensures
        i <= digits_end(s, i) <= s.len(),
        forall|k: int| i <= k < digits_end(s, i) ==> is_digit_or_sep(#[trigger] s[k]),
    decreases s.len() - i,
{
    if i < s.len() && is_digit_or_sep(s[i]) {
        lemma_digits_end_bounds(s, i + 1);
    }
}

proof fn lemma_spaces_end_bounds(s: Seq<char>, i: int)
    requires
        0 <= i <= s.len(),
    ensures
        i <= spaces_end(s, i) <= s.len(),
    decreases s.len() - i,
{
    if i < s.len() && is_space(s[i]) {
        lemma_spaces_end_bounds(s, i + 1);
    }
}

proof fn lemma_digits_value_monotone(s: Seq<char>, i: int, j: int, k: int)
    requires
        i <= j <= k,
        forall|m: int| i <= m < k ==> is_digit_or_sep(#[trigger] s[m]),
    ensures
        0 <= digits_value(s, i, j) <= digits_value(s, i, k),
    decreases k - i,
{
    if k > j {
        lemma_digits_value_monotone(s, i, j, k - 1);
        assert(is_digit_or_sep(s[k - 1]));
    } else if j > i {
        lemma_digits_value_monotone(s, i, j - 1, j - 1);
        assert(is_digit_or_sep(s[j - 1]));
    }
}

fn is_space_char(c: char) -> (r: bool)
    ensures
        r == is_space(c),
{
    c == ' ' || c == '\t' || c == '\r' || c == '\n'
}

/// Index of the first character at or after `i` that is not whitespace.
fn skip_spaces(s: &[char], i: usize) -> (r: usize)
    requires
        i <= s@.len(),
    ensures
        r == spaces_end(s@, i as int),
{
    let mut k = i;
    while k < s.len() && is_space_char(s[k])
        invariant
            i <= k <= s@.len(),
            spaces_end(s@, k as int) == spaces_end(s@, i as int),
        decreases s@.len() - k,
    {
        k = k + 1;
    }
    k
}

fn decimal_from(s: &[char], i: usize) -> (r: Option<(usize, isize)>)
    requires
        i <= s@.len(),
    ensures
        match decimal_at(s@, i as int) {
            Some((e, v)) => r matches Some((re, rv)) && re == e && rv == v,
            None => r is None,
        },
        r matches Some((e, v)) ==> i < e <= s@.len() && v >= 0,
{
    if i >= s.len() || !('0' <= s[i] && s[i] <= '9') {
        return None;
    }
    proof {
        lemma_digits_end_bounds(s@, i as int);
        lemma_digits_end_bounds(s@, i as int + 1);
        assert(digits_end(s@, i as int) == digits_end(s@, i as int + 1));
    }
    let ghost e = digits_end(s@, i as int);
    let mut k = i;
    let mut v: isize = 0;
    while k < s.len() && ('0' <= s[k] && s[k] <= '9' || s[k] == '_')
        invariant
            i <= k <= e,
            e == digits_end(s@, i as int),
            e <= s@.len(),
            digits_end(s@, k as int) == e,
            forall|m: int| i <= m < e ==> is_digit_or_sep(#[trigger] s@[m]),
            v == digits_value(s@, i as int, k as int),
            v >= 0,
        decreases s@.len() - k,
    {
        let c = s[k];
        proof {
            assert(digits_end(s@, k as int) == digits_end(s@, k as int + 1));
            lemma_digits_end_bounds(s@, k as int + 1);
        }
        if c != '_' {
            let d = (c as u32 - '0' as u32) as isize;
            match v.checked_mul(10) {
                None => {
                    proof {
                        lemma_digits_value_monotone(s@, i as int, k as int + 1, e);
                    }
                    return None;
                },
                Some(t) => match t.checked_add(d) {
                    None => {
                        proof {
                            lemma_digits_value_monotone(s@, i as int, k as int + 1, e);
                        }
                        return None;
                    },
                    Some(w) => {
                        v = w;
                    },
                },
            }
        }
        k = k + 1;
    }
    proof {
        lemma_digits_value_monotone(s@, i as int, k as int, k as int);
    }
    Some((k, v))
}

fn coordinate_from(s: &[char], i: usize) -> (r: Option<(usize, (isize, isize))>)
    requires
        i <= s@.len(),
    ensures
        match coordinate_at(s@, i as int) {
            Some((e, (x, y))) => r matches Some((re, rc)) && re == e && rc.0 == x && rc.1 == y,
            None => r is None,
        },
        r matches Some((e, _)) ==> i < e <= s@.len(),
{
    match decimal_from(s, i) {
        None => None,
        Some((j, x)) => {
            proof {
                lemma_digits_end_bounds(s@, i as int);
            }
            let k = skip_spaces(s, j);
            if k == j {
                return None;
            }
            proof {
                lemma_spaces_end_bounds(s@, j as int);
            }
            match decimal_from(s, k) {
                None => None,
                Some((e, y)) => Some((e, (x, y))),
            }
        },
    }
}

fn direction_from(s: &[char], i: usize) -> (r: Option<(usize, Direction)>)
    requires
        i <= s@.len(),
    ensures
        match direction_at(s@, i as int) {
            Some((e, d)) => r matches Some((re, rd)) && re == e && rd == d,
            None => r is None,
        },
        r matches Some((e, _)) ==> i < e <= s@.len(),
{
    if i >= s.len() {
        return None;
    }
    match Direction::from_letter(s[i]) {
        Some(d) => Some((i + 1, d)),
        None => None,
    }
}

fn instruction_from(s: &[char], i: usize) -> (r: Option<(usize, Instruction)>)
    requires
        i <= s@.len(),
    ensures
        match instruction_at(s@, i as int) {
            Some((e, d)) => r matches Some((re, rd)) && re == e && rd == d,
            None => r is None,
        },
        r matches Some((e, _)) ==> i < e <= s@.len(),
{
    if i >= s.len() {
        return None;
    }
    match Instruction::from_letter(s[i]) {
        Some(d) => Some((i + 1, d)),
        None => None,
    }
}

fn starting_position_from(s: &[char], i: usize) -> (r: Option<(usize, (Coordinate, Direction))>)
    requires
        i <= s@.len(),
    ensures
        match starting_position_at(s@, i as int) {
            Some((e, ((x, y), d))) => r matches Some((re, rp)) && re == e && rp.0.0 == x && rp.0.1 == y
                && rp.1 == d,
            None => r is None,
        },
        r matches Some((e, _)) ==> i < e <= s@.len(),
{
    match coordinate_from(s, i) {
        None => None,
        Some((j, c)) => {
            let k = skip_spaces(s, j);
            if k == j {
                return None;
            }
            proof {
                lemma_spaces_end_bounds(s@, j as int);
            }
            match direction_from(s, k) {
                None => None,
                Some((e, d)) => Some((e, (c, d))),
            }
        },
    }
}

fn instruction_stream_from(s: &[char], i: usize) -> (r: Option<(usize, Vec<Instruction>)>)
    requires
        i <= s@.len(),
    ensures
        match instruction_stream_at(s@, i as int) {
            Some((e, l)) => r matches Some((re, rl)) && re == e && rl@ == l,
            None => r is None,
        },
        r matches Some((e, _)) ==> i < e <= s@.len(),
{
    if instruction_from(s, i).is_none() {
        return None;
    }
    let mut k = i;
    let mut out: Vec<Instruction> = Vec::new();
    loop
        invariant
            i <= k <= s@.len(),
            stream_rest(s@, i as int) == (stream_rest(s@, k as int).0, out@ + stream_rest(s@, k as int).1),
            instruction_stream_at(s@, i as int) == Some(stream_rest(s@, i as int)),
        decreases s@.len() - k,
    {
        if k < s.len() && is_space_char(s[k]) {
            k = k + 1;
        } else if k < s.len() && Instruction::from_letter(s[k]).is_some() {
            let ins = Instruction::from_letter(s[k]).unwrap();
            proof {
                let t = stream_rest(s@, k as int + 1);
                assert(out@ + (seq![ins] + t.1) == out@.push(ins) + t.1);
            }
            out.push(ins);
            k = k + 1;
        } else {
            proof {
                assert(out@ + Seq::<Instruction>::empty() == out@);
            }
            return Some((k, out));
        }
    }
}

/// The error that a parser below gives where its grammar does not match.
pub open spec fn no_match<T>(r: Result<T, ParsingErr>) -> bool {
    r == Err::<T, ParsingErr>(ParsingErr::UnexpectedToken)
}

/// Reads a number: a digit, then any digits and `_` separators (`1_000` is
/// 1000). Fails where the input does not start with a digit, or where the
/// number does not fit in `isize`.
pub fn decimal(input: &[char]) -> (r: Result<(&[char], isize), ParsingErr>)
    ensures
        match decimal_at(input@, 0) {
            Some((e, v)) => 0 < e <= input@.len() && (r matches Ok((rest, rv)) && rest@ == input@.subrange(e, input@.len() as int)
                && rv == v),
            None => no_match(r),
        },
{
    match decimal_from(input, 0) {
        Some((e, v)) => {
            proof {
                lemma_digits_end_bounds(input@, 0);
            }
            Ok((slice_subrange(input, e, input.len()), v))
        },
        None => Err(ParsingErr::UnexpectedToken),
    }
}

/// Reads two numbers separated by one or more whitespace characters.
/// Whitespace before or after the pair is not read.
pub fn coordinate(input: &[char]) -> (r: Result<(&[char], Coordinate), ParsingErr>)
    ensures
        match coordinate_at(input@, 0) {
            Some((e, (x, y))) => 0 < e <= input@.len() && (r matches Ok((rest, c)) && rest@ == input@.subrange(e, input@.len() as int)
                && c.0 == x && c.1 == y),
            None => no_match(r),
        },
{
    match coordinate_from(input, 0) {
        Some((e, c)) => {
            proof {
                lemma_digits_end_bounds(input@, 0);
                let j = digits_end(input@, 0);
                lemma_spaces_end_bounds(input@, j);
                lemma_digits_end_bounds(input@, spaces_end(input@, j));
            }
            Ok((slice_subrange(input, e, input.len()), c))
        },
        None => Err(ParsingErr::UnexpectedToken),
    }
}

/// Reads one of the letters `N`, `E`, `S`, `W`, in either case.
pub fn direction(input: &[char]) -> (r: Result<(&[char], Direction), ParsingErr>)
    ensures
        match direction_at(input@, 0) {
            Some((e, d)) => 0 < e <= input@.len() && (r matches Ok((rest, rd)) && rest@ == input@.subrange(e, input@.len() as int)
                && rd == d),
            None => no_match(r),
        },
{
    match direction_from(input, 0) {
        Some((e, d)) => Ok((slice_subrange(input, e, input.len()), d)),
        None => Err(ParsingErr::UnexpectedToken),
    }
}

/// Reads one of the letters `M`, `L`, `R`, in either case.
pub fn instruction(input: &[char]) -> (r: Result<(&[char], Instruction), ParsingErr>)
    ensures
        match instruction_at(input@, 0) {
            Some((e, d)) => 0 < e <= input@.len() && (r matches Ok((rest, rd)) && rest@ == input@.subrange(e, input@.len() as int)
                && rd == d),
            None => no_match(r),
        },
{
    match instruction_from(input, 0) {
        Some((e, d)) => Ok((slice_subrange(input, e, input.len()), d)),
        None => Err(ParsingErr::UnexpectedToken),
    }
}

/// Reads a rover's starting position: a coordinate, one or more whitespace
/// characters, then a direction.
pub fn starting_position(input: &[char]) -> (r: Result<(&[char], (Coordinate, Direction)), ParsingErr>)
    ensures
        match starting_position_at(input@, 0) {
            Some((e, ((x, y), d))) => 0 < e <= input@.len() && (r matches Ok((rest, p)) && rest@ == input@.subrange(e, input@.len() as int)
                && p.0.0 == x && p.0.1 == y && p.1 == d),
            None => no_match(r),
        },
{
    match starting_position_from(input, 0) {
        Some((e, p)) => Ok((slice_subrange(input, e, input.len()), p)),
        None => Err(ParsingErr::UnexpectedToken),
    }
}

/// Reads one or more instruction letters, each followed by any whitespace,
/// so that `LMR` and `L M  R` read alike.
pub fn instruction_stream(input: &[char]) -> (r: Result<(&[char], Vec<Instruction>), ParsingErr>)
    ensures
        match instruction_stream_at(input@, 0) {
            Some((e, l)) => 0 < e <= input@.len() && (r matches Ok((rest, v)) && rest@ == input@.subrange(e, input@.len() as int)
                && v@ == l),
            None => no_match(r),
        },
{
    match instruction_stream_from(input, 0) {
        Some((e, v)) => Ok((slice_subrange(input, e, input.len()), v)),
        None => Err(ParsingErr::UnexpectedToken),
    }
}

} // verus!

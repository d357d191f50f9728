use vstd::prelude::*;

use crate::enums::{
    direction_letter, direction_of_letter, instruction_of_letter, left_of, right_of, Coordinate,
    Direction, Instruction, RoverErr,
};
use crate::parse::{
    decimal_at, digits_end, digits_value, direction_at, instruction_at, is_digit, is_digit_or_sep,
};
use crate::rover::{
    line_coordinate, line_instructions, line_position, message_outcome, outside, run, run_from,
    step_fits, stepped, Rover,
};

verus! {

proof fn lemma_digits_end_all(s: Seq<char>, i: int)
    requires
        0 <= i <= s.len(),
        forall|k: int| i <= k < s.len() ==> is_digit_or_sep(#[trigger] s[k]),
    ensures
        digits_end(s, i) == s.len(),
    decreases s.len() - i,
{
    if i < s.len() {
        lemma_digits_end_all(s, i + 1);
    }
}

/// A token of digits, possibly grouped by `_`, that starts with a digit and
/// whose value fits in `isize` is read whole, as its value; text that does
/// not start with a digit is not a number.
pub proof fn decimal_reads_whole_token(s: Seq<char>)
    ensures
        s.len() > 0 && is_digit(s[0]) && (forall|k: int| 0 <= k < s.len() ==> is_digit_or_sep(#[trigger] s[k]))
            && digits_value(s, 0, s.len() as int) <= isize::MAX ==> decimal_at(s, 0) == Some(
            (s.len() as int, digits_value(s, 0, s.len() as int)),
        ),
        s.len() == 0 || !is_digit(s[0]) ==> decimal_at(s, 0) is None,
{
    if s.len() > 0 && is_digit(s[0]) && (forall|k: int| 0 <= k < s.len() ==> is_digit_or_sep(#[trigger] s[k])) {
        lemma_digits_end_all(s, 0);
    }
}

/// The direction parser reads exactly the letters `N`, `E`, `S`, `W` in
/// either case, each to its own direction, and every direction has its letter.
pub proof fn direction_letters_are_exact(c: char, d: Direction)
    ensures
        direction_at(seq![c], 0) is Some <==> (c == 'N' || c == 'E' || c == 'S' || c == 'W' || c == 'n'
            || c == 'e' || c == 's' || c == 'w'),
        direction_at(seq![c], 0) matches Some((e, rd)) ==> e == 1 && rd == direction_of_letter(c)->0,
        direction_of_letter(direction_letter(d)) == Some(d),
        direction_of_letter(((direction_letter(d) as u32) + 32) as char) == Some(d),
        direction_of_letter(c) == Some(d) ==> c == direction_letter(d) || c as u32 == direction_letter(d) as u32 + 32,
{
}

/// The instruction parser reads exactly the letters `M`, `L`, `R` in either
/// case, each to its own instruction, and every instruction has its letter.
pub proof fn instruction_letters_are_exact(c: char, i: Instruction)
    ensures
        instruction_at(seq![c], 0) is Some <==> (c == 'M' || c == 'L' || c == 'R' || c == 'm' || c == 'l'
            || c == 'r'),
        instruction_at(seq![c], 0) matches Some((e, ri)) ==> e == 1 && ri == instruction_of_letter(c)->0,
        instruction_of_letter('M') == Some(Instruction::Move),
        instruction_of_letter('L') == Some(Instruction::Left),
        instruction_of_letter('R') == Some(Instruction::Right),
        instruction_of_letter(c) == Some(i) ==> (c == 'M' || c == 'm') == (i == Instruction::Move) && (c
            == 'L' || c == 'l') == (i == Instruction::Left) && (c == 'R' || c == 'r') == (i
            == Instruction::Right),
{
}

/// Four quarter turns the same way bring a rover back to its heading, and a
/// turn undone by the opposite turn changes nothing; with no boundary, such
/// a programme returns the rover as it was.
pub proof fn turns_cancel(r: Rover)
    ensures
        right_of(right_of(right_of(right_of(r.facing)))) == r.facing,
        left_of(left_of(left_of(left_of(r.facing)))) == r.facing,
        left_of(right_of(r.facing)) == r.facing,
        right_of(left_of(r.facing)) == r.facing,
        run(r, seq![Instruction::Right, Instruction::Right, Instruction::Right, Instruction::Right], None)
            == Ok::<Rover, RoverErr>(r),
        run(r, seq![Instruction::Left, Instruction::Left, Instruction::Left, Instruction::Left], None)
            == Ok::<Rover, RoverErr>(r),
        run(r, seq![Instruction::Right, Instruction::Left], None) == Ok::<Rover, RoverErr>(r),
        run(r, seq![Instruction::Left, Instruction::Right], None) == Ok::<Rover, RoverErr>(r),
{
    reveal_with_fuel(run_from, 5);
}

/// One move forward goes one unit north, east, south or west, as the rover faces.
pub proof fn move_goes_one_unit(r: Rover)
    requires
        step_fits(r, Instruction::Move),
    ensures
        run(r, seq![Instruction::Move], None) == Ok::<Rover, RoverErr>(
            match r.facing {
                Direction::North => Rover { y: (r.y + 1) as isize, ..r },
                Direction::East => Rover { x: (r.x + 1) as isize, ..r },
                Direction::South => Rover { y: (r.y - 1) as isize, ..r },
                Direction::West => Rover { x: (r.x - 1) as isize, ..r },
            },
        ),
{
    let s = seq![Instruction::Move];
    assert(run_from(r, s, 0, None) == run_from(stepped(r, Instruction::Move), s, 1, None));
}

/// The rover after the first `n` instructions of `s`.
pub open spec fn state_after(r: Rover, s: Seq<Instruction>, n: int) -> Rover
    decreases n,
{
    if n <= 0 {
        r
    } else {
        stepped(state_after(r, s, n - 1), s[n - 1])
    }
}

proof fn lemma_run_prefix(r: Rover, s: Seq<Instruction>, b: Option<Coordinate>, i: int)
    requires
        0 <= i <= s.len(),
        forall|j: int| 0 <= j < i ==> step_fits(#[trigger] state_after(r, s, j), s[j]),
        forall|j: int| 0 <= j < i ==> !outside(#[trigger] state_after(r, s, j + 1), b),
    ensures
        run(r, s, b) == run_from(state_after(r, s, i), s, i, b),
    decreases i,
{
    if i > 0 {
        lemma_run_prefix(r, s, b, i - 1);
        assert(step_fits(state_after(r, s, i - 1), s[i - 1]));
        assert(!outside(state_after(r, s, i - 1 + 1), b));
    }
}

/// With a boundary, the first instruction after which the rover stands off
/// the plateau ends the run: the error gives that instruction's index and the
/// rover as it stood then, and no later instruction is applied.
pub proof fn boundary_stops_at_first_exit(r: Rover, s: Seq<Instruction>, b: Coordinate, i: int)
    requires
        0 <= i < s.len(),
        forall|j: int|
            0 <= j <= i ==> step_fits(#[trigger] state_after(r, s, j), s[j]),
        forall|j: int| 0 <= j < i ==> !outside(#[trigger] state_after(r, s, j + 1), Some(b)),
        outside(state_after(r, s, i + 1), Some(b)),
    ensures
        run(r, s, Some(b)) == Err::<Rover, RoverErr>(RoverErr::Boundery(state_after(r, s, i + 1), i as usize)),
{
    lemma_run_prefix(r, s, Some(b), i);
    assert(state_after(r, s, i + 1) == stepped(state_after(r, s, i), s[i]));
}

/// Without a boundary every instruction is applied, wherever the rover goes.
pub proof fn unbounded_applies_all(r: Rover, s: Seq<Instruction>)
    requires
        forall|j: int| 0 <= j < s.len() ==> step_fits(#[trigger] state_after(r, s, j), s[j]),
    ensures
        run(r, s, None) == Ok::<Rover, RoverErr>(state_after(r, s, s.len() as int)),
{
    lemma_run_prefix(r, s, None, s.len() as int);
}

/// Reading depends on the text alone: the same line reads the same way, and
/// the same message gives the same outcome, each time.
pub proof fn reading_is_pure(a: Seq<char>, b: Seq<char>, unbounded: bool)
    requires
        a == b,
    ensures
        line_coordinate(a) == line_coordinate(b),
        line_position(a) == line_position(b),
        line_instructions(a) == line_instructions(b),
        message_outcome(a, unbounded) == message_outcome(b, unbounded),
{
}

} // verus!

use vstd::prelude::*;
use vstd::string::StringExecFns;

use crate::rover::Rover;
use crate::text::{decimal_string, int_text, joined};

verus! {

/// What went wrong while reading a message or running a rover.
#[derive(Clone, Copy, Debug, PartialEq, Eq, Structural)]
pub enum RoverErr {
    /// A line did not parse; the `usize` is the 0-based index of the line.
    Parse(ParsingErr, usize),
    /// The rover left the plateau; it is given as it stood after the
    /// offending instruction, whose 0-based index follows.
    Boundery(Rover, usize),
    /// A move would have taken the rover's position out of the range of
    /// `isize`; the rover is given as it stood before that move, whose
    /// 0-based index follows.
    Overflow(Rover, usize),
}

impl RoverErr {
    /// The value read from line `line_index`, where the parse read the whole
    /// line; otherwise an unexpected-token error on that line.
    pub fn from_parse_result<T>(input: Result<(&[char], T), ParsingErr>, line_index: usize) -> (r: Result<T, RoverErr>)
        ensures
            match input {
                Ok((rest, t)) if rest@.len() == 0 => r == Ok::<T, RoverErr>(t),
                _ => r == Err::<T, RoverErr>(RoverErr::Parse(ParsingErr::UnexpectedToken, line_index)),
            },
    {
        match input {
            Ok((rest, t)) => {
                if rest.len() == 0 {
                    Ok(t)
                } else {
                    Err(RoverErr::Parse(ParsingErr::UnexpectedToken, line_index))
                }
            },
            Err(_) => Err(RoverErr::Parse(ParsingErr::UnexpectedToken, line_index)),
        }
    }
}

/// How a reading error is described to a person.
pub open spec fn parsing_text(e: ParsingErr) -> Seq<char> {
    match e {
        ParsingErr::MissingPlateauBounderies => "Missing plateau bounderies"@,
        ParsingErr::MissingInstructions => "Missing instructions for rover"@,
        ParsingErr::UnexpectedToken => "Unexpected token encountered"@,
    }
}

/// How an error is described to a person. Lines and instructions are counted
/// from 1; rover `n`'s instructions stand on line `2n + 1`.
pub open spec fn error_text(e: RoverErr) -> Seq<char> {
    match e {
        RoverErr::Parse(p, i) => "Rover Error 🤖 - Issue whilst parsing instructions file: "@ + parsing_text(p)
            + ", At line: "@ + int_text(i + 1),
        RoverErr::Boundery(r, i) => "Rover Error 🤖 - Rover "@ + int_text(r.id as int)
            + " crossed the plateau's boundery at position ("@ + int_text(r.x as int) + ", "@ + int_text(
            r.y as int,
        ) + "): Instruction "@ + int_text(i + 1) + ", At Line: "@ + int_text(r.id * 2 + 1)
            + ".\n\nPlease send help! 😞"@,
        RoverErr::Overflow(r, i) => "Rover Error 🤖 - Rover "@ + int_text(r.id as int)
            + " would leave the range of coordinates at position ("@ + int_text(r.x as int) + ", "@
            + int_text(r.y as int) + "): Instruction "@ + int_text(i + 1) + ", At Line: "@ + int_text(
            r.id * 2 + 1,
        ) + "."@,
    }
}

impl ParsingErr {
    /// A short description of the error.
    pub fn message(&self) -> (r: &'static str)
        ensures
            r@ == parsing_text(*self),
    {
        match self {
            ParsingErr::MissingPlateauBounderies => "Missing plateau bounderies",
            ParsingErr::MissingInstructions => "Missing instructions for rover",
            ParsingErr::UnexpectedToken => "Unexpected token encountered",
        }
    }
}

impl RoverErr {
    /// A description of the error for a person.
    pub fn message(&self) -> (r: String)
        ensures
            r@ == error_text(*self),
    {
        match self {
            RoverErr::Parse(p, i) => {
                let out = joined(String::from_str("Rover Error 🤖 - Issue whilst parsing instructions file: "), p.message());
                let out = joined(out, ", At line: ");
                joined(out, decimal_string(*i as i128 + 1).as_str())
            },
            RoverErr::Boundery(r, i) => {
                let out = joined(String::from_str("Rover Error 🤖 - Rover "), decimal_string(r.id as i128).as_str());
                let out = joined(out, " crossed the plateau's boundery at position (");
                let out = joined(out, decimal_string(r.x as i128).as_str());
                let out = joined(out, ", ");
                let out = joined(out, decimal_string(r.y as i128).as_str());
                let out = joined(out, "): Instruction ");
                let out = joined(out, decimal_string(*i as i128 + 1).as_str());
                let out = joined(out, ", At Line: ");
                let out = joined(out, decimal_string(r.id as i128 * 2 + 1).as_str());
                joined(out, ".\n\nPlease send help! 😞")
            },
            RoverErr::Overflow(r, i) => {
                let out = joined(String::from_str("Rover Error 🤖 - Rover "), decimal_string(r.id as i128).as_str());
                let out = joined(out, " would leave the range of coordinates at position (");
                let out = joined(out, decimal_string(r.x as i128).as_str());
                let out = joined(out, ", ");
                let out = joined(out, decimal_string(r.y as i128).as_str());
                let out = joined(out, "): Instruction ");
                let out = joined(out, decimal_string(*i as i128 + 1).as_str());
                let out = joined(out, ", At Line: ");
                let out = joined(out, decimal_string(r.id as i128 * 2 + 1).as_str());
                joined(out, ".")
            },
        }
    }
}

/// Why a line could not be read.
#[derive(Clone, Copy, Debug, PartialEq, Eq, Structural)]
pub enum ParsingErr {
    MissingPlateauBounderies,
    MissingInstructions,
    UnexpectedToken,
}

/// A compass heading, ordered clockwise: North, East, South, West.
#[derive(Clone, Copy, Debug, PartialEq, Eq, Structural)]
pub enum Direction {
    North,
    East,
    South,
    West,
}

/// One step of a rover's programme.
#[derive(Clone, Copy, Debug, PartialEq, Eq, Structural)]
pub enum Instruction {
    Move,
    Left,
    Right,
}

/// A point on the plateau: `(x, y)`.
pub type Coordinate = (isize, isize);

/// Position of a direction in the clockwise cycle.
pub open spec fn dir_index(d: Direction) -> int {
    match d {
        Direction::North => 0,
        Direction::East => 1,
        Direction::South => 2,
        Direction::West => 3,
    }
}

/// The direction at position `i` (taken modulo 4) of the clockwise cycle.
pub open spec fn dir_at(i: int) -> Direction {
    let k = i % 4;
    if k == 0 {
        Direction::North
    } else if k == 1 {
        Direction::East
    } else if k == 2 {
        Direction::South
    } else {
        Direction::West
    }
}

/// The upper-case letter that names a direction.
pub open spec fn direction_letter(d: Direction) -> char {
    match d {
        Direction::North => 'N',
        Direction::East => 'E',
        Direction::South => 'S',
        Direction::West => 'W',
    }
}

/// One step clockwise.
pub open spec fn right_of(d: Direction) -> Direction {
    dir_at(dir_index(d) + 1)
}

/// One step anticlockwise.
pub open spec fn left_of(d: Direction) -> Direction {
    dir_at(dir_index(d) + 3)
}

/// The direction named by a letter, in either case.
pub open spec fn direction_of_letter(c: char) -> Option<Direction> {
    if c == 'N' || c == 'n' {
        Some(Direction::North)
    } else if c == 'E' || c == 'e' {
        Some(Direction::East)
    } else if c == 'S' || c == 's' {
        Some(Direction::South)
    } else if c == 'W' || c == 'w' {
        Some(Direction::West)
    } else {
        None
    }
}

/// The instruction named by a letter, in either case.
pub open spec fn instruction_of_letter(c: char) -> Option<Instruction> {
    if c == 'M' || c == 'm' {
        Some(Instruction::Move)
    } else if c == 'L' || c == 'l' {
        Some(Instruction::Left)
    } else if c == 'R' || c == 'r' {
        Some(Instruction::Right)
    } else {
        None
    }
}

impl Direction {
    /// The heading after a quarter turn clockwise.
    pub fn turned_right(self) -> (r: Direction)
        ensures
            r == right_of(self),
    {
        match self {
            Direction::North => Direction::East,
            Direction::East => Direction::South,
            Direction::South => Direction::West,
            Direction::West => Direction::North,
        }
    }

    /// The heading after a quarter turn anticlockwise.
    pub fn turned_left(self) -> (r: Direction)
        ensures
            r == left_of(self),
    {
        match self {
            Direction::North => Direction::West,
            Direction::East => Direction::North,
            Direction::South => Direction::East,
            Direction::West => Direction::South,
        }
    }

    /// The direction named by `c` (`N`, `E`, `S` or `W`, in either case), if any.
    pub fn from_letter(c: char) -> (r: Option<Direction>)
        ensures
            r == direction_of_letter(c),
    {
        if c == 'N' || c == 'n' {
            Some(Direction::North)
        } else if c == 'E' || c == 'e' {
            Some(Direction::East)
        } else if c == 'S' || c == 's' {
            Some(Direction::South)
        } else if c == 'W' || c == 'w' {
            Some(Direction::West)
        } else {
            None
        }
    }

    /// The upper-case letter that names this direction.
    pub fn letter(&self) -> (r: char)
        ensures
            r == direction_letter(*self),
    {
        match self {
            Direction::North => 'N',
            Direction::East => 'E',
            Direction::South => 'S',
            Direction::West => 'W',
        }
    }
}

impl Instruction {
    /// The instruction named by `c` (`M`, `L` or `R`, in either case), if any.
    pub fn from_letter(c: char) -> (r: Option<Instruction>)
        ensures
            r == instruction_of_letter(c),
    {
        if c == 'M' || c == 'm' {
            Some(Instruction::Move)
        } else if c == 'L' || c == 'l' {
            Some(Instruction::Left)
        } else if c == 'R' || c == 'r' {
            Some(Instruction::Right)
        } else {
            None
        }
    }
}

impl Default for Direction {
    fn default() -> (r: Direction)
        ensures
            r == Direction::North,
    {
        Direction::North
    }
}

impl Default for Instruction {
    fn default() -> (r: Instruction)
        ensures
            r == Instruction::Move,
    {
        Instruction::Move
    }
}

} // verus!

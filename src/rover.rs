use vstd::prelude::*;

use crate::enums::{
    direction_letter, left_of, right_of, Coordinate, Direction, Instruction, ParsingErr, RoverErr,
};
use crate::parse::{
    coordinate, coordinate_at, instruction_stream, instruction_stream_at, starting_position,
    starting_position_at,
};
use crate::text::{chars_of, decimal_string, int_text, joined, trimmed_lines, trimmed_lines_of, views};

verus! {

/// A rover: its number, its position and its heading.
#[derive(Clone, Copy, Debug, PartialEq, Eq, Structural)]
pub struct Rover {
    pub id: usize,
    pub x: isize,
    pub y: isize,
    pub facing: Direction,
}

/// The position reached by one move forward from `(x, y)` facing `d`.
pub open spec fn moved(x: int, y: int, d: Direction) -> (int, int) {
    match d {
        Direction::North => (x, y + 1),
        Direction::East => (x + 1, y),
        Direction::South => (x, y - 1),
        Direction::West => (x - 1, y),
    }
}

/// Whether `v` is a value of `isize`.
pub open spec fn fits_isize(v: int) -> bool {
    isize::MIN <= v <= isize::MAX
}

/// Whether applying `i` to `r` keeps the position within the range of `isize`.
pub open spec fn step_fits(r: Rover, i: Instruction) -> bool {
    match i {
        Instruction::Move => {
            let p = moved(r.x as int, r.y as int, r.facing);
            fits_isize(p.0) && fits_isize(p.1)
        },
        _ => true,
    }
}

/// The rover after applying `i` (meaningful where `step_fits(r, i)`).
pub open spec fn stepped(r: Rover, i: Instruction) -> Rover {
    match i {
        Instruction::Left => Rover { facing: left_of(r.facing), ..r },
        Instruction::Right => Rover { facing: right_of(r.facing), ..r },
        Instruction::Move => {
            let p = moved(r.x as int, r.y as int, r.facing);
            Rover { x: p.0 as isize, y: p.1 as isize, ..r }
        },
    }
}

/// Whether `r` stands outside the plateau `[0, max_x] x [0, max_y]`; never
/// when no boundary is given.
pub open spec fn outside(r: Rover, boundery: Option<Coordinate>) -> bool {
    match boundery {
        Some((mx, my)) => r.x < 0 || r.y < 0 || r.x > mx || r.y > my,
        None => false,
    }
}

/// The outcome of running the instructions `s[i..]` on `r`, one after the other,
/// checking the boundary after each.
pub open spec fn run_from(r: Rover, s: Seq<Instruction>, i: int, boundery: Option<Coordinate>) -> Result<Rover, RoverErr>
    decreases s.len() - i,
{
    if i < 0 || i >= s.len() {
        Ok(r)
    } else if !step_fits(r, s[i]) {
        Err(RoverErr::Overflow(r, i as usize))
    } else {
        let n = stepped(r, s[i]);
        if outside(n, boundery) {
            Err(RoverErr::Boundery(n, i as usize))
        } else {
            run_from(n, s, i + 1, boundery)
        }
    }
}

/// The outcome of running all of `s` on `r`.
pub open spec fn run(r: Rover, s: Seq<Instruction>, boundery: Option<Coordinate>) -> Result<Rover, RoverErr> {
    run_from(r, s, 0, boundery)
}

impl Rover {
    pub fn new(id: usize, coordinates: Coordinate, facing: Direction) -> (r: Rover)
        ensures
            r == (Rover { id, x: coordinates.0, y: coordinates.1, facing }),
    {
        Rover { id, x: coordinates.0, y: coordinates.1, facing }
    }

    /// Applies one instruction, or returns `None` where a move would leave the
    /// range of `isize`.
    fn step(self, i: Instruction) -> (r: Option<Rover>)
        ensures
            step_fits(self, i) ==> r == Some(stepped(self, i)),
            !step_fits(self, i) ==> r is None,
    {
        match i {
            Instruction::Left => Some(Rover { facing: self.facing.turned_left(), ..self }),
            Instruction::Right => Some(Rover { facing: self.facing.turned_right(), ..self }),
            Instruction::Move => match self.facing {
                Direction::North => if self.y < isize::MAX {
                    Some(Rover { y: self.y + 1, ..self })
                } else {
                    None
                },
                Direction::East => if self.x < isize::MAX {
                    Some(Rover { x: self.x + 1, ..self })
                } else {
                    None
                },
                Direction::South => if self.y > isize::MIN {
                    Some(Rover { y: self.y - 1, ..self })
                } else {
                    None
                },
                Direction::West => if self.x > isize::MIN {
                    Some(Rover { x: self.x - 1, ..self })
                } else {
                    None
                },
            },
        }
    }

    /// Runs `instructions` in order. With a boundary, stops at the first
    /// instruction after which the rover stands outside the plateau.
    pub fn execute_commands(self, instructions: Vec<Instruction>, boundery: Option<Coordinate>) -> (r: Result<Rover, RoverErr>)
        ensures
            r == run(self, instructions@, boundery),
    {
        let mut cur = self;
        let mut i: usize = 0;
        while i < instructions.len()
            invariant
                i <= instructions@.len(),
                run_from(cur, instructions@, i as int, boundery) == run(self, instructions@, boundery),
            decreases instructions@.len() - i,
        {
            let ins = instructions[i];
            match cur.step(ins) {
                None => {
                    return Err(RoverErr::Overflow(cur, i));
                },
                Some(n) => {
                    if n.has_crossed_boundery(boundery) {
                        return Err(RoverErr::Boundery(n, i));
                    }
                    cur = n;
                },
            }
            i = i + 1;
        }
        Ok(cur)
    }

    /// The rover as `x y D`, with `D` the letter of its heading.
    pub fn to_string(&self) -> (r: String)
        ensures
            r@ == int_text(self.x as int) + seq![' '] + int_text(self.y as int) + seq![' ', direction_letter(self.facing)],
    {
        let letter: &str = match self.facing {
            Direction::North => " N",
            Direction::East => " E",
            Direction::South => " S",
            Direction::West => " W",
        };
        proof {
            reveal_strlit(" N");
            reveal_strlit(" E");
            reveal_strlit(" S");
            reveal_strlit(" W");
            reveal_strlit(" ");
        }
        let out = joined(decimal_string(self.x as i128), " ");
        let out = joined(out, decimal_string(self.y as i128).as_str());
        let out = joined(out, letter);
        proof {
            assert(out@ == int_text(self.x as int) + seq![' '] + int_text(self.y as int) + seq![' ', direction_letter(self.facing)]);
        }
        out
    }

    pub fn has_crossed_boundery(&self, boundery: Option<Coordinate>) -> (r: bool)
        ensures
            r == outside(*self, boundery),
    {
        match boundery {
            Some((x, y)) => self.x < 0 || self.y < 0 || self.x > x || self.y > y,
            None => false,
        }
    }
}

/// A whole line read as a coordinate.
pub open spec fn line_coordinate(l: Seq<char>) -> Option<Coordinate> {
    match coordinate_at(l, 0) {
        Some((e, (x, y))) => if e == l.len() {
            Some((x as isize, y as isize))
        } else {
            None
        },
        None => None,
    }
}

/// A whole line read as a starting position.
pub open spec fn line_position(l: Seq<char>) -> Option<(Coordinate, Direction)> {
    match starting_position_at(l, 0) {
        Some((e, ((x, y), d))) => if e == l.len() {
            Some(((x as isize, y as isize), d))
        } else {
            None
        },
        None => None,
    }
}

/// A whole line read as an instruction stream.
pub open spec fn line_instructions(l: Seq<char>) -> Option<Seq<Instruction>> {
    match instruction_stream_at(l, 0) {
        Some((e, v)) => if e == l.len() {
            Some(v)
        } else {
            None
        },
        None => None,
    }
}

/// The plateau's upper corner, read from the first line of a message, if there is one.
pub open spec fn boundary_of_line(line: Option<Seq<char>>) -> Result<Coordinate, RoverErr> {
    match line {
        None => Err(RoverErr::Parse(ParsingErr::MissingPlateauBounderies, 0)),
        Some(l) => match line_coordinate(l) {
            Some(c) => Ok(c),
            None => Err(RoverErr::Parse(ParsingErr::UnexpectedToken, 0)),
        },
    }
}

/// A rover's starting position and instructions, read from a pair of
/// numbered lines: nothing where the first is absent, an error where only the
/// second is.
pub open spec fn pair_entry(pos: Option<(usize, Seq<char>)>, ins: Option<(usize, Seq<char>)>) -> Result<
    Option<((Coordinate, Direction), Seq<Instruction>)>,
    RoverErr,
> {
    match (pos, ins) {
        (Some((pi, p)), Some((ii, l))) => match line_position(p) {
            None => Err(RoverErr::Parse(ParsingErr::UnexpectedToken, pi)),
            Some(sp) => match line_instructions(l) {
                None => Err(RoverErr::Parse(ParsingErr::UnexpectedToken, ii)),
                Some(v) => Ok(Some((sp, v))),
            },
        },
        (Some((pi, _)), None) => Err(RoverErr::Parse(ParsingErr::MissingInstructions, pi)),
        _ => Ok(None),
    }
}

pub open spec fn line_at(lines: Seq<Seq<char>>, i: int) -> Option<(usize, Seq<char>)> {
    if 0 <= i < lines.len() {
        Some((i as usize, lines[i]))
    } else {
        None
    }
}

/// `acc` followed by the list in `r`, or the error in `r`.
pub open spec fn prepend<T>(acc: Seq<T>, r: Result<Seq<T>, RoverErr>) -> Result<Seq<T>, RoverErr> {
    match r {
        Ok(rest) => Ok(acc + rest),
        Err(e) => Err(e),
    }
}

/// The rovers described by `lines[i..]`, read two lines at a time.
pub open spec fn entries_from(lines: Seq<Seq<char>>, i: int) -> Result<
    Seq<((Coordinate, Direction), Seq<Instruction>)>,
    RoverErr,
>
    decreases lines.len() - i,
{
    if i < 0 || i >= lines.len() {
        Ok(Seq::empty())
    } else {
        match pair_entry(line_at(lines, i), line_at(lines, i + 1)) {
            Err(e) => Err(e),
            Ok(None) => Ok(Seq::empty()),
            Ok(Some(en)) => prepend(seq![en], entries_from(lines, i + 2)),
        }
    }
}

/// The rover numbered `k + 1` at the start given by `en`.
pub open spec fn rover_of_entry(k: int, en: ((Coordinate, Direction), Seq<Instruction>)) -> Rover {
    Rover { id: (k + 1) as usize, x: en.0.0.0, y: en.0.0.1, facing: en.0.1 }
}

/// The final states of the rovers `entries[k..]`, numbered from `k + 1`, or
/// the first failure.
pub open spec fn rovers_from(
    entries: Seq<((Coordinate, Direction), Seq<Instruction>)>,
    k: int,
    boundery: Option<Coordinate>,
) -> Result<Seq<Rover>, RoverErr>
    decreases entries.len() - k,
{
    if k < 0 || k >= entries.len() {
        Ok(Seq::empty())
    } else {
        match run(rover_of_entry(k, entries[k]), entries[k].1, boundery) {
            Err(e) => Err(e),
            Ok(r) => prepend(seq![r], rovers_from(entries, k + 1, boundery)),
        }
    }
}

/// The outcome of a whole message: its trimmed lines are the plateau's
/// corner, then pairs of starting position and instructions; every rover is
/// run, in order, checked against the plateau unless `unbounded`.
pub open spec fn message_outcome(message: Seq<char>, unbounded: bool) -> Result<Seq<Rover>, RoverErr> {
    let lines = trimmed_lines(message);
    match boundary_of_line(if lines.len() > 0 { Some(lines[0]) } else { None }) {
        Err(e) => Err(e),
        Ok(b) => match entries_from(lines, 1) {
            Err(e) => Err(e),
            Ok(es) => rovers_from(es, 0, if unbounded { None } else { Some(b) }),
        },
    }
}

pub open spec fn line_view(l: Option<(usize, &str)>) -> Option<(usize, Seq<char>)> {
    match l {
        Some((i, s)) => Some((i, s@)),
        None => None,
    }
}

pub open spec fn slice_line_view(l: Option<(usize, &[char])>) -> Option<(usize, Seq<char>)> {
    match l {
        Some((i, s)) => Some((i, s@)),
        None => None,
    }
}

pub open spec fn entry_views(v: Seq<((Coordinate, Direction), Vec<Instruction>)>) -> Seq<
    ((Coordinate, Direction), Seq<Instruction>),
> {
    v.map_values(|e: ((Coordinate, Direction), Vec<Instruction>)| (e.0, e.1@))
}

/// Reads and runs whole messages.
pub struct RoverControlSatellite;

impl RoverControlSatellite {
    fn bounderies_from(input: Option<(usize, &[char])>) -> (r: Result<Coordinate, RoverErr>)
        ensures
            r == boundary_of_line(
                match slice_line_view(input) {
                    Some((_, l)) => Some(l),
                    None => None,
                },
            ),
    {
        match input {
            Some((_, line)) => RoverErr::from_parse_result(coordinate(line), 0),
            None => Err(RoverErr::Parse(ParsingErr::MissingPlateauBounderies, 0)),
        }
    }

    fn entry_from(pos: Option<(usize, &[char])>, ins: Option<(usize, &[char])>) -> (r: Result<
        Option<((Coordinate, Direction), Vec<Instruction>)>,
        RoverErr,
    >)
        ensures
            match pair_entry(slice_line_view(pos), slice_line_view(ins)) {
                Ok(Some((sp, v))) => r matches Ok(Some((rsp, rv))) && rsp == sp && rv@ == v,
                Ok(None) => r matches Ok(None),
                Err(e) => r matches Err(re) && re == e,
            },
    {
        match (pos, ins) {
            (Some((pi, p)), Some((ii, l))) => {
                let sp = match RoverErr::from_parse_result(starting_position(p), pi) {
                    Ok(sp) => sp,
                    Err(e) => return Err(e),
                };
                let v = match RoverErr::from_parse_result(instruction_stream(l), ii) {
                    Ok(v) => v,
                    Err(e) => return Err(e),
                };
                Ok(Some((sp, v)))
            },
            (Some((pi, _)), None) => Err(RoverErr::Parse(ParsingErr::MissingInstructions, pi)),
            _ => Ok(None),
        }
    }

    /// Reads a whole message and runs its rovers in order, numbered from 1.
    /// The first failure, in reading or in running, ends the whole run.
    pub fn parse_and_execute_incoming_message(message: String, unbounded: bool) -> (r: Result<Vec<Rover>, RoverErr>)
        ensures
            match message_outcome(message@, unbounded) {
                Ok(rs) => r matches Ok(v) && v@ == rs,
                Err(e) => r matches Err(re) && re == e,
            },
    {
        let chars = chars_of(message.as_str());
        let lines = trimmed_lines_of(chars.as_slice());
        let ghost ls = trimmed_lines(message@);
        let first = if lines.len() > 0 {
            Some((0usize, lines[0].as_slice()))
        } else {
            None
        };
        proof {
            if lines@.len() > 0 {
                assert(ls[0] == lines@[0]@);
            }
        }
        let bounderies = match Self::bounderies_from(first) {
            Ok(b) => b,
            Err(e) => return Err(e),
        };
        let mut entries: Vec<((Coordinate, Direction), Vec<Instruction>)> = Vec::new();
        let mut i: usize = 1;
        loop
            invariant
                views(lines@) == ls,
                ls == trimmed_lines(message@),
                1 <= i <= lines@.len() + 1,
                entries_from(ls, 1) == prepend(entry_views(entries@), entries_from(ls, i as int)),
                boundary_of_line(if ls.len() > 0 { Some(ls[0]) } else { None }) == Ok::<_, RoverErr>(bounderies),
            ensures
                views(lines@) == ls,
                entries_from(ls, 1) == Ok::<_, RoverErr>(entry_views(entries@)),
            decreases lines@.len() + 1 - i,
        {
            let pos = if i < lines.len() {
                Some((i, lines[i].as_slice()))
            } else {
                None
            };
            let ins = if i < lines.len() && i + 1 < lines.len() {
                Some((i + 1, lines[i + 1].as_slice()))
            } else {
                None
            };
            proof {
                assert(slice_line_view(pos) == line_at(ls, i as int));
                assert(slice_line_view(ins) == line_at(ls, i + 1));
            }
            match Self::entry_from(pos, ins) {
                Err(e) => {
                    proof {
                        assert(entries_from(ls, i as int) == Err::<Seq<((Coordinate, Direction), Seq<Instruction>)>, RoverErr>(e));
                    }
                    return Err(e);
                },
                Ok(None) => {
                    proof {
                        assert(entries_from(ls, i as int) == Ok::<_, RoverErr>(Seq::<((Coordinate, Direction), Seq<Instruction>)>::empty()));
                        assert(entry_views(entries@) + Seq::empty() == entry_views(entries@));
                    }
                    break;
                },
                Ok(Some(en)) => {
                    proof {
                        let ev = (en.0, en.1@);
                        assert(entry_views(entries@.push(en)) == entry_views(entries@).push(ev));
                        match entries_from(ls, i + 2) {
                            Ok(rest) => {
                                assert(entry_views(entries@) + (seq![ev] + rest) == entry_views(entries@).push(ev) + rest);
                            },
                            Err(_) => {},
                        }
                    }
                    entries.push(en);
                    i = i + 2;
                },
            }
        }
        let ghost es = entry_views(entries@);
        proof {
            assert(message_outcome(message@, unbounded) == rovers_from(es, 0, if unbounded { None } else { Some(bounderies) }));
        }
        let boundery = if unbounded {
            None
        } else {
            Some(bounderies)
        };
        let mut rovers: Vec<Rover> = Vec::new();
        let mut k: usize = 0;
        while k < entries.len()
            invariant
                k <= entries@.len(),
                es == entry_views(entries@),
                entries_from(ls, 1) == Ok::<_, RoverErr>(es),
                rovers_from(es, 0, boundery) == prepend(rovers@, rovers_from(es, k as int, boundery)),
                message_outcome(message@, unbounded) == rovers_from(es, 0, boundery),
            decreases entries@.len() - k,
        {
            let start = entries[k].0;
            let program = entries[k].1.clone();
            proof {
                assert(program@ == es[k as int].1);
            }
            let rover = Rover::new(k + 1, start.0, start.1);
            proof {
                assert(rover == rover_of_entry(k as int, es[k as int]));
            }
            match rover.execute_commands(program, boundery) {
                Err(e) => {
                    proof {
                        assert(rovers_from(es, k as int, boundery) == Err::<Seq<Rover>, RoverErr>(e));
                    }
                    return Err(e);
                },
                Ok(done) => {
                    proof {
                        match rovers_from(es, k + 1, boundery) {
                            Ok(rest) => {
                                assert(rovers@ + (seq![done] + rest) == rovers@.push(done) + rest);
                            },
                            Err(_) => {},
                        }
                    }
                    rovers.push(done);
                },
            }
            k = k + 1;
        }
        proof {
            assert(rovers@ + Seq::<Rover>::empty() == rovers@);
        }
        Ok(rovers)
    }

    /// Reads the plateau's upper corner from the first line of a message.
    pub fn parse_bounderies(input: Option<(usize, &str)>) -> (r: Result<Coordinate, RoverErr>)
        ensures
            r == boundary_of_line(
                match line_view(input) {
                    Some((_, l)) => Some(l),
                    None => None,
                },
            ),
    {
        match input {
            Some((i, line)) => {
                let cs = chars_of(line);
                Self::bounderies_from(Some((i, cs.as_slice())))
            },
            None => Self::bounderies_from(None),
        }
    }

    /// Reads a rover's starting position and instructions from a pair of
    /// numbered lines.
    pub fn parse_instructions_and_position(input: (Option<(usize, &str)>, Option<(usize, &str)>)) -> (r: Result<
        Option<((Coordinate, Direction), Vec<Instruction>)>,
        RoverErr,
    >)
        ensures
            match pair_entry(line_view(input.0), line_view(input.1)) {
                Ok(Some((sp, v))) => r matches Ok(Some((rsp, rv))) && rsp == sp && rv@ == v,
                Ok(None) => r matches Ok(None),
                Err(e) => r matches Err(re) && re == e,
            },
    {
        let pc: Vec<char> = match input.0 {
            Some((_, p)) => chars_of(p),
            None => Vec::new(),
        };
        let ic: Vec<char> = match input.1 {
            Some((_, l)) => chars_of(l),
            None => Vec::new(),
        };
        let pos = match input.0 {
            Some((i, _)) => Some((i, pc.as_slice())),
            None => None,
        };
        let ins = match input.1 {
            Some((i, _)) => Some((i, ic.as_slice())),
            None => None,
        };
        Self::entry_from(pos, ins)
    }
}

} // verus!

use mars_rover::enums::{Direction, Instruction, ParsingErr, RoverErr};
use mars_rover::parse::{coordinate, decimal, direction, instruction, instruction_stream, starting_position};
use mars_rover::rover::{Rover, RoverControlSatellite};
use mars_rover::text::{chars_of, trim, trimmed_lines_of};

fn cs(s: &str) -> Vec<char> {
    s.chars().collect()
}

fn run(message: &str, unbounded: bool) -> Result<Vec<Rover>, RoverErr> {
    RoverControlSatellite::parse_and_execute_incoming_message(message.to_string(), unbounded)
}

#[test]
fn decimal_with_grouping() {
    let input = cs("1_000 rest");
    let (rest, v) = decimal(&input).unwrap();
    assert_eq!(v, 1000);
    assert_eq!(rest, &cs(" rest")[..]);
    let input = cs("1__2_");
    assert_eq!(decimal(&input).unwrap(), (&[][..], 12));
}

#[test]
fn decimal_leading_underscore_fails() {
    let input = cs("_1");
    assert_eq!(decimal(&input), Err(ParsingErr::UnexpectedToken));
    let input = cs("");
    assert_eq!(decimal(&input), Err(ParsingErr::UnexpectedToken));
}

#[test]
fn decimal_largest_and_overflow() {
    let input = cs("9223372036854775807");
    assert_eq!(decimal(&input).unwrap().1, isize::MAX);
    let input = cs("9223372036854775808");
    assert!(decimal(&input).is_err());
}

#[test]
fn decimal_same_text_same_result() {
    let input = cs("42 7");
    assert_eq!(decimal(&input), decimal(&input));
    let line = cs("3 3 E");
    assert_eq!(starting_position(&line), starting_position(&line));
}

#[test]
fn coordinate_leaves_remainder() {
    let input = cs("1\t2 N");
    let (rest, c) = coordinate(&input).unwrap();
    assert_eq!(c, (1, 2));
    assert_eq!(rest, &cs(" N")[..]);
    let input = cs("12");
    assert!(coordinate(&input).is_err());
}

#[test]
fn letters_in_both_cases() {
    for (c, d) in [('N', Direction::North), ('e', Direction::East), ('S', Direction::South), ('w', Direction::West)] {
        let input = vec![c];
        assert_eq!(direction(&input).unwrap().1, d);
    }
    for (c, i) in [('m', Instruction::Move), ('L', Instruction::Left), ('r', Instruction::Right)] {
        let input = vec![c];
        assert_eq!(instruction(&input).unwrap().1, i);
    }
    let input = cs("x");
    assert!(direction(&input).is_err());
    assert!(instruction(&input).is_err());
}

#[test]
fn instruction_stream_stops_at_other_text() {
    let input = cs("LM x");
    let (rest, v) = instruction_stream(&input).unwrap();
    assert_eq!(v, vec![Instruction::Left, Instruction::Move]);
    assert_eq!(rest, &cs("x")[..]);
    let input = cs("");
    assert!(instruction_stream(&input).is_err());
}

#[test]
fn four_right_turns_return() {
    for d in [Direction::North, Direction::East, Direction::South, Direction::West] {
        let rover = Rover::new(3, (2, 2), d);
        let right = rover.execute_commands(vec![Instruction::Right; 4], None).unwrap();
        assert_eq!(right, rover);
        let left = rover.execute_commands(vec![Instruction::Left; 4], None).unwrap();
        assert_eq!(left, rover);
        let back = rover.execute_commands(vec![Instruction::Right, Instruction::Left], None).unwrap();
        assert_eq!(back, rover);
    }
    assert_eq!(Direction::North.turned_right(), Direction::East);
    assert_eq!(Direction::North.turned_left(), Direction::West);
}

#[test]
fn moves_one_unit() {
    let cases = [
        (Direction::North, (4, 6)),
        (Direction::East, (5, 5)),
        (Direction::South, (4, 4)),
        (Direction::West, (3, 5)),
    ];
    for (d, p) in cases {
        let rover = Rover::new(1, (4, 5), d).execute_commands(vec![Instruction::Move], None).unwrap();
        assert_eq!(rover, Rover::new(1, p, d));
    }
}

#[test]
fn boundary_stops_at_first_exit() {
    let rover = Rover::new(2, (1, 1), Direction::East);
    let program = vec![Instruction::Move, Instruction::Move, Instruction::Move, Instruction::Left];
    let result = rover.execute_commands(program.clone(), Some((2, 2)));
    assert_eq!(result, Err(RoverErr::Boundery(Rover::new(2, (3, 1), Direction::East), 1)));
    let free = rover.execute_commands(program, None).unwrap();
    assert_eq!(free, Rover::new(2, (4, 1), Direction::North));
}

#[test]
fn move_past_isize_fails() {
    let rover = Rover::new(1, (isize::MAX, 0), Direction::East);
    let result = rover.execute_commands(vec![Instruction::Left, Instruction::Move], None);
    assert_eq!(result, Ok(Rover::new(1, (isize::MAX, 1), Direction::North)));
    let result = rover.execute_commands(vec![Instruction::Move], None);
    assert_eq!(result, Err(RoverErr::Overflow(rover, 0)));
}

#[test]
fn scenario_two_rovers() {
    let result = run("5 5\n1 2 N\nLMLMLMLMM\n3 3 E\nMMRMMRMRRM", false);
    assert_eq!(
        result,
        Ok(vec![Rover::new(1, (1, 3), Direction::North), Rover::new(2, (5, 1), Direction::East)])
    );
}

#[test]
fn scenario_unbounded_and_bounded() {
    assert_eq!(run("2 2\n0 0 N\nLM", true), Ok(vec![Rover::new(1, (-1, 0), Direction::West)]));
    assert_eq!(
        run("2 2\n0 0 N\nLM", false),
        Err(RoverErr::Boundery(Rover::new(1, (-1, 0), Direction::West), 1))
    );
}

#[test]
fn scenario_only_boundary() {
    assert_eq!(run("5 5", false), Ok(vec![]));
    assert_eq!(run("5 5\n", false), Ok(vec![]));
}

#[test]
fn scenario_missing_instructions() {
    assert_eq!(
        run("5 5\n1 2 N\nM\n3 3 E", false),
        Err(RoverErr::Parse(ParsingErr::MissingInstructions, 3))
    );
}

#[test]
fn missing_boundary_and_bad_lines() {
    assert_eq!(run("", false), Err(RoverErr::Parse(ParsingErr::MissingPlateauBounderies, 0)));
    assert_eq!(run("5 x", false), Err(RoverErr::Parse(ParsingErr::UnexpectedToken, 0)));
    assert_eq!(run("5 5\n1 2 N\nMQ", false), Err(RoverErr::Parse(ParsingErr::UnexpectedToken, 2)));
    assert_eq!(run("5 5\n1 2\nM", false), Err(RoverErr::Parse(ParsingErr::UnexpectedToken, 1)));
}

#[test]
fn parse_error_comes_before_running() {
    assert_eq!(
        run("1 1\n0 0 S\nM\n0 0 N\nX", false),
        Err(RoverErr::Parse(ParsingErr::UnexpectedToken, 4))
    );
}

#[test]
fn lines_are_trimmed() {
    let result = run(" \u{a0}5 5\r\n  1 2 n \r\n\tlmr m\r\n", false);
    assert_eq!(result, Ok(vec![Rover::new(1, (0, 3), Direction::North)]));
}

#[test]
fn text_helpers() {
    assert_eq!(chars_of("añb"), vec!['a', 'ñ', 'b']);
    let line = cs("\u{3000} a b \t");
    assert_eq!(trim(&line), &cs("a b")[..]);
    let text = cs("a\n\n b \r\nc");
    assert_eq!(trimmed_lines_of(&text), vec![cs("a"), cs(""), cs("b"), cs("c")]);
}

#[test]
fn rover_text() {
    assert_eq!(Rover::new(1, (-12, 30), Direction::South).to_string(), "-12 30 S");
    assert_eq!(Rover::new(1, (0, 7), Direction::East).to_string(), "0 7 E");
}

#[test]
fn error_text() {
    assert_eq!(
        RoverErr::Parse(ParsingErr::UnexpectedToken, 2).message(),
        "Rover Error 🤖 - Issue whilst parsing instructions file: Unexpected token encountered, At line: 3"
    );
    assert_eq!(
        RoverErr::Boundery(Rover::new(1, (-1, 0), Direction::West), 1).message(),
        "Rover Error 🤖 - Rover 1 crossed the plateau's boundery at position (-1, 0): Instruction 2, At Line: 3.\n\nPlease send help! 😞"
    );
    assert_eq!(ParsingErr::MissingInstructions.message(), "Missing instructions for rover");
}

#[test]
fn defaults() {
    assert_eq!(Direction::default(), Direction::North);
    assert_eq!(Instruction::default(), Instruction::Move);
    assert_eq!(Direction::from_letter('q'), None);
    assert_eq!(Instruction::from_letter('R'), Some(Instruction::Right));
    assert_eq!(Direction::West.letter(), 'W');
}

use mars_rover::enums::{Direction, Instruction};
use mars_rover::rover::{Rover, RoverControlSatellite};

#[test]
fn none_input() {
    let rover = Rover::new(0, (-1, -1), Direction::North);
    assert!(!rover.has_crossed_boundery(None));
}

#[test]
fn out_of_supplied_bounds() {
    let rover = Rover::new(0, (5, 5), Direction::North);
    assert!(rover.has_crossed_boundery(Some((2, 2))));
}

#[test]
fn out_of_implied_bounds() {
    let rover = Rover::new(0, (-1, -1), Direction::North);
    assert!(rover.has_crossed_boundery(Some((2, 2))));
}

#[test]
fn valid_input_with_all_directions() {
    let rover = Rover::new(0, (0, 0), Direction::North);
    let result = rover.execute_commands(
        vec![
            Instruction::Move,
            Instruction::Right,
            Instruction::Move,
            Instruction::Right,
            Instruction::Move,
            Instruction::Right,
            Instruction::Move,
            Instruction::Right,
        ],
        None,
    );
    assert!(result.is_ok());
    assert_eq!(result.unwrap(), Rover::new(0, (0, 0), Direction::North));
}

#[test]
fn crosses_boundery() {
    let rover = Rover::new(0, (0, 0), Direction::North);
    let result = rover.execute_commands(vec![Instruction::Left, Instruction::Move], Some((5, 5)));
    assert!(result.is_err());
}

#[test]
fn rover_valid_input() {
    let result = RoverControlSatellite::parse_bounderies(Some((0, "5 5")));
    assert!(result.is_ok());
    assert_eq!(result.unwrap(), (5, 5))
}

#[test]
fn alphabetic_input() {
    let result = RoverControlSatellite::parse_bounderies(Some((0, "foo bar")));
    assert!(result.is_err());
}

#[test]
fn valid_input() {
    let result =
        RoverControlSatellite::parse_instructions_and_position((Some((0, "1 1 N")), Some((0, "M"))));
    assert!(result.is_ok());
    assert_eq!(result.unwrap(), Some((((1, 1), Direction::North), vec![Instruction::Move])))
}

#[test]
fn invalid_position() {
    let result =
        RoverControlSatellite::parse_instructions_and_position((Some((0, "1 N")), Some((0, "M"))));
    assert!(result.is_err());
}

#[test]
fn invalid_instructions() {
    let result =
        RoverControlSatellite::parse_instructions_and_position((Some((0, "1 1 N")), Some((0, "d"))));
    assert!(result.is_err());
}

#[test]
fn only_one_input() {
    let result = RoverControlSatellite::parse_instructions_and_position((Some((0, "1 1 N")), None));
    assert!(result.is_err());
}

#[test]
fn no_inputs() {
    let result = RoverControlSatellite::parse_instructions_and_position((None, None));
    assert!(result.is_ok());
    assert!(result.unwrap().is_none())
}

#[test]
fn message_valid_input() {
    let result = RoverControlSatellite::parse_and_execute_incoming_message(
        r#"5 5
                    1 2 N
                    LMLMLMLMM
                    3 3 E
                    MMRMMRMRRM"#
            .to_string(),
        false,
    );
    assert!(result.is_ok());
    assert_eq!(
        result.unwrap(),
        vec![Rover::new(1, (1, 3), Direction::North), Rover::new(2, (5, 1), Direction::East)]
    )
}

#[test]
fn crosses_boundery_unbounded() {
    let result = RoverControlSatellite::parse_and_execute_incoming_message(
        r#"2 2
                    0 0 N
                    LM"#
            .to_string(),
        true,
    );
    assert!(result.is_ok());
    assert_eq!(result.unwrap(), vec![Rover::new(1, (-1, 0), Direction::West),])
}

#[test]
fn crosses_boundery_bounded() {
    let result = RoverControlSatellite::parse_and_execute_incoming_message(
        r#"2 2
                    0 0 N
                    LM"#
            .to_string(),
        false,
    );
    assert!(result.is_err());
}

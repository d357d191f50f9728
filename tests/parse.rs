use mars_rover::enums::{Direction, Instruction};
use mars_rover::parse::{coordinate, decimal, direction, instruction, instruction_stream, starting_position};

fn cs(s: &str) -> Vec<char> {
    s.chars().collect()
}

const EMPTY: &[char] = &[];

#[test]
fn parse_valid_input() {
    let input = cs("123");
    let result = decimal(&input);
    assert_eq!(result, Ok((EMPTY, 123)));
}

#[test]
fn alphabetic_characters() {
    let input = cs("abc");
    let result = decimal(&input);
    assert!(result.is_err());
}

#[test]
fn negative_number() {
    let input = cs("-1");
    let result = decimal(&input);
    assert!(result.is_err());
}

#[test]
fn coordinate_valid_input() {
    let input = cs("123   456");
    let result = coordinate(&input);
    assert_eq!(result, Ok((EMPTY, (123, 456))));
}

#[test]
fn external_whitespace() {
    let input = cs("  123   456  ");
    let result = coordinate(&input);
    assert!(result.is_err());
}

#[test]
fn direction_valid_input() {
    let upper = cs("N");
    let lower = cs("n");
    let results = (direction(&upper), direction(&lower));
    assert_eq!(results.0, Ok((EMPTY, Direction::North)));
    assert_eq!(results.1, Ok((EMPTY, Direction::North)));
}

#[test]
fn parse_invalid_tag() {
    let input = cs("c");
    let result = direction(&input);
    assert!(result.is_err());
}

#[test]
fn instruction_valid_input() {
    let upper = cs("M");
    let lower = cs("m");
    let results = (instruction(&upper), instruction(&lower));
    assert_eq!(results.0, Ok((EMPTY, Instruction::Move)));
    assert_eq!(results.1, Ok((EMPTY, Instruction::Move)));
}

#[test]
fn instruction_invalid_tag() {
    let input = cs("c");
    let result = instruction(&input);
    assert!(result.is_err());
}

#[test]
fn starting_position_valid_input() {
    let input = cs("0 0 E");
    let result = starting_position(&input);
    assert_eq!(result, Ok((EMPTY, ((0, 0), Direction::East))));
}

#[test]
fn missing_direction() {
    let input = cs("2 2");
    let result = starting_position(&input);
    assert!(result.is_err())
}

#[test]
fn instruction_stream_valid_input() {
    let input = cs("LMR");
    let result = instruction_stream(&input);
    assert_eq!(
        result,
        Ok((EMPTY, vec![Instruction::Left, Instruction::Move, Instruction::Right]))
    );
}

#[test]
fn valid_input_with_spaces() {
    let input = cs("L M  R   ");
    let result = instruction_stream(&input);
    assert_eq!(
        result,
        Ok((EMPTY, vec![Instruction::Left, Instruction::Move, Instruction::Right]))
    );
}

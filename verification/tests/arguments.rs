use cave_map::arguments::{process_args, process_argument_result, ArgumentError};
use cave_map::generation_rule::GenerationRule;

fn line(words: &[&str]) -> Vec<String> {
    words.iter().map(|word| word.to_string()).collect()
}

#[test]
fn reads_a_size_a_percentage_and_one_rule() {
    let result = process_args(&line(&["cave_map", "45", "30", "40", "5", "1", "6"]));
    assert_eq!(result, Ok((45, 30, 40, vec![GenerationRule::new(5, 1, 6)])));
}

#[test]
fn reads_the_rules_in_the_order_given() {
    let result = process_args(&line(&["cave_map", "45", "45", "45", "5", "2", "4", "5", "-1", "3", "0", "7", "1"]));
    let rules = vec![GenerationRule::new(5, 2, 4), GenerationRule::new(5, -1, 3), GenerationRule::new(0, 7, 1)];
    assert_eq!(result, Ok((45, 45, 45, rules)));
}

#[test]
fn leaves_judging_the_numbers_to_the_generator() {
    let result = process_args(&line(&["cave_map", "-3", "0", "+250", "-5", "-1", "-6"]));
    assert_eq!(result, Ok((-3, 0, 250, vec![GenerationRule::new(-5, -1, -6)])));
}

#[test]
fn ignores_what_the_program_is_called() {
    let result = process_args(&line(&["", "3", "3", "0", "9", "0", "1"]));
    assert_eq!(result, Ok((3, 3, 0, vec![GenerationRule::new(9, 0, 1)])));
    let result = process_args(&line(&["not a number", "3", "3", "0", "9", "0", "1"]));
    assert!(result.is_ok());
}

#[test]
fn too_few_arguments_are_a_usage_error() {
    for count in 0..7 {
        let words: Vec<String> = (0..count).map(|i: usize| i.to_string()).collect();
        assert_eq!(process_args(&words), Err(ArgumentError::Usage));
    }
}

#[test]
fn incomplete_rule_is_a_usage_error() {
    for count in [8, 9, 11, 12, 14] {
        let words: Vec<String> = (0..count).map(|i: usize| i.to_string()).collect();
        assert_eq!(process_args(&words), Err(ArgumentError::Usage));
    }
    for count in [7, 10, 13, 16] {
        let words: Vec<String> = (0..count).map(|i: usize| i.to_string()).collect();
        assert_eq!(process_args(&words).map(|parsed| parsed.3.len()), Ok((count - 4) / 3));
    }
}

#[test]
fn count_is_judged_before_the_numbers() {
    assert_eq!(process_args(&line(&["cave_map", "x", "y"])), Err(ArgumentError::Usage));
    assert_eq!(process_args(&line(&["cave_map", "x", "3", "0", "9", "0", "1", "2"])), Err(ArgumentError::Usage));
}

#[test]
fn first_argument_that_is_no_number_is_reported() {
    let report = |position: usize| Err(ArgumentError::NotAnInteger(position));
    assert_eq!(process_args(&line(&["cave_map", "x", "30", "40", "5", "1", "6"])), report(1));
    assert_eq!(process_args(&line(&["cave_map", "45", "3.0", "40", "5", "1", "6"])), report(2));
    assert_eq!(process_args(&line(&["cave_map", "45", "30", "", "5", "1", "6"])), report(3));
    assert_eq!(process_args(&line(&["cave_map", "45", "30", "40", "five", "1", "6"])), report(4));
    assert_eq!(process_args(&line(&["cave_map", "45", "30", "40", "5", "1 ", "6"])), report(5));
    assert_eq!(process_args(&line(&["cave_map", "45", "30", "40", "5", "1", "2147483648"])), report(6));
    assert_eq!(
        process_args(&line(&["cave_map", "45", "30", "40", "5", "1", "6", "5", "-", "6"])),
        report(8)
    );
    assert_eq!(
        process_args(&line(&["cave_map", "45", "b", "40", "5", "c", "6", "5", "d", "6"])),
        report(2)
    );
}

#[test]
fn outcome_of_reading_one_argument() {
    assert_eq!(process_argument_result(3, Some(-7)), Ok(-7));
    assert_eq!(process_argument_result(3, None), Err(ArgumentError::NotAnInteger(3)));
}

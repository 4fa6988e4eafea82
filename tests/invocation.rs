use algorithm::decimal::{decimal_string, parse_count};
use algorithm::invocation::{iterations_from_args, ArgError};
use algorithm::runner::{iteration_line, Runner};

fn args(list: &[&str]) -> Vec<String> {
    list.iter().map(|s| s.to_string()).collect()
}

/// Runs the whole program on `list` and returns what it writes to standard
/// output and to the error stream.
fn run(list: &[&str]) -> (Vec<String>, Vec<String>) {
    match iterations_from_args(&args(list)) {
        Ok(n) => {
            let mut runner = Runner::new(n);
            let mut out = Vec::new();
            while let Some(line) = runner.next_line() {
                out.push(line);
            }
            (out, Vec::new())
        }
        Err(e) => (Vec::new(), vec![e.message()]),
    }
}

#[test]
fn usage_on_missing_argument() {
    let (out, err) = run(&["algorithm.exe"]);
    assert!(out.is_empty());
    assert_eq!(err, vec!["Usage: algorithm.exe <iterations>".to_string()]);
}

#[test]
fn usage_on_empty_argument_list() {
    assert_eq!(iterations_from_args(&Vec::new()), Err(ArgError::MissingArgument));
}

#[test]
fn rejects_non_numeric() {
    let (out, err) = run(&["algorithm.exe", "abc"]);
    assert!(out.is_empty());
    assert_eq!(err, vec!["Please provide a valid number for iterations.".to_string()]);
}

#[test]
fn rejects_negative() {
    let (out, err) = run(&["algorithm.exe", "-1"]);
    assert!(out.is_empty());
    assert_eq!(err, vec!["Please provide a valid number for iterations.".to_string()]);
}

#[test]
fn rejects_empty_blank_and_overflowing_counts() {
    for bad in ["", "+", " 3", "3 ", "1.5", "18446744073709551616000", "0x10"] {
        assert_eq!(
            iterations_from_args(&args(&["algorithm.exe", bad])),
            Err(ArgError::InvalidIterationCount),
            "{:?}",
            bad
        );
    }
}

#[test]
fn zero_is_valid_and_writes_nothing() {
    let (out, err) = run(&["algorithm.exe", "0"]);
    assert!(out.is_empty());
    assert!(err.is_empty());
}

#[test]
fn three_iterations_exact_output() {
    let (out, err) = run(&["algorithm.exe", "3"]);
    assert_eq!(
        out,
        vec![
            "Iteration 1: Hello, world!".to_string(),
            "Iteration 2: Hello, world!".to_string(),
            "Iteration 3: Hello, world!".to_string(),
        ]
    );
    assert!(err.is_empty());
}

#[test]
fn extra_arguments_are_ignored() {
    assert_eq!(iterations_from_args(&args(&["algorithm.exe", "2", "x"])), Ok(2));
}

#[test]
fn each_line_carries_its_own_index() {
    let (out, _) = run(&["algorithm.exe", "120"]);
    assert_eq!(out.len(), 120);
    for (k, line) in out.iter().enumerate() {
        assert_eq!(line, &format!("Iteration {}: Hello, world!", k + 1));
    }
}

#[test]
fn same_arguments_same_output() {
    let first = run(&["algorithm.exe", "7"]);
    let second = run(&["algorithm.exe", "7"]);
    assert_eq!(first, second);
    assert_eq!(run(&["algorithm.exe", "x"]), run(&["algorithm.exe", "x"]));
}

#[test]
fn parse_count_follows_usize_from_str() {
    assert_eq!(parse_count("42"), Some(42));
    assert_eq!(parse_count("+7"), Some(7));
    assert_eq!(parse_count("007"), Some(7));
    assert_eq!(parse_count("-0"), None);
    assert_eq!(parse_count("٣"), None);
    let max = usize::MAX.to_string();
    assert_eq!(parse_count(&max), Some(usize::MAX));
    for s in ["", "+", "-1", "abc", "1_000", "+-1"] {
        assert_eq!(parse_count(s), s.parse::<usize>().ok(), "{:?}", s);
    }
}

#[test]
fn parse_count_rejects_one_past_the_largest() {
    let over = (usize::MAX as u128 + 1).to_string();
    assert_eq!(parse_count(&over), None);
}

#[test]
fn decimal_string_writes_base_ten() {
    assert_eq!(decimal_string(0), "0");
    assert_eq!(decimal_string(9), "9");
    assert_eq!(decimal_string(10), "10");
    assert_eq!(decimal_string(1203), "1203");
    assert_eq!(decimal_string(usize::MAX), usize::MAX.to_string());
}

#[test]
fn iteration_line_text() {
    assert_eq!(iteration_line(1), "Iteration 1: Hello, world!");
    assert_eq!(iteration_line(45), "Iteration 45: Hello, world!");
}

#[test]
fn error_messages() {
    assert_eq!(ArgError::MissingArgument.message(), "Usage: algorithm.exe <iterations>");
    assert_eq!(
        ArgError::InvalidIterationCount.message(),
        "Please provide a valid number for iterations."
    );
}

#[test]
fn runner_stops_after_the_last_line() {
    let mut runner = Runner::new(1);
    assert_eq!(runner.next_line(), Some("Iteration 1: Hello, world!".to_string()));
    assert_eq!(runner.next_line(), None);
    assert_eq!(runner.next_line(), None);
}

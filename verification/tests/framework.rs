//! The parser's grammar and the driver loop's case-by-case verdicts.

use vectest::driver::format_attr_line;
use vectest::driver::format_failure_header;
use vectest::driver::ring_src_path;
use vectest::driver::CallbackOutcome;
use vectest::driver::Driver;
use vectest::errors::TestError;

fn driver_over(lines: &[&str]) -> Driver {
    Driver::new(lines.iter().map(|l| (*l).to_string()).collect())
}

#[test]
fn one_case_with_comments_and_blanks() {
    let mut driver = driver_over(&["# a comment", "", "", "Key = Value", "Count = 3"]);
    let mut case = driver.next_case().unwrap().unwrap();
    assert_eq!(case.attr_count(), 2);
    assert_eq!(case.consume_string("Key"), Ok("Value".to_string()));
    assert_eq!(case.consume_usize("Count"), Ok(3));
    assert!(driver.next_case().unwrap().is_none());
}

#[test]
fn keys_and_values_are_trimmed_at_first_separator() {
    let mut driver = driver_over(&["  Key   =   a = b  "]);
    let mut case = driver.next_case().unwrap().unwrap();
    assert_eq!(case.consume_string("Key"), Ok("a = b".to_string()));
}

#[test]
fn sections_persist_until_replaced() {
    let mut driver = driver_over(&["[first section]", "A = 1", "", "B = 2", "", "[next]", "C = 3"]);
    let case = driver.next_case().unwrap().unwrap();
    assert_eq!(driver.current_section(), "first section");
    assert_eq!(case.attr_count(), 1);
    driver.next_case().unwrap().unwrap();
    assert_eq!(driver.current_section(), "first section");
    driver.next_case().unwrap().unwrap();
    assert_eq!(driver.current_section(), "next");
    assert!(driver.next_case().unwrap().is_none());
}

#[test]
fn bare_quoted_empty_value_yields_empty_bytes() {
    let mut driver = driver_over(&["Key = \"\""]);
    let mut case = driver.next_case().unwrap().unwrap();
    assert_eq!(case.consume_bytes("Key"), Ok(vec![]));
}

#[test]
fn line_without_separator_is_a_syntax_error() {
    let mut driver = driver_over(&["KeyValue"]);
    assert_eq!(driver.next_case().unwrap_err(), TestError::SyntaxError);
}

#[test]
fn empty_unquoted_value_is_a_syntax_error() {
    let mut driver = driver_over(&["Key = "]);
    assert_eq!(driver.next_case().unwrap_err(), TestError::SyntaxError);
}

#[test]
fn misplaced_section_marker_is_a_syntax_error() {
    let mut driver = driver_over(&["A = 1", "[late]"]);
    assert_eq!(driver.next_case().unwrap_err(), TestError::SyntaxError);
}

#[test]
fn unterminated_section_marker_is_a_syntax_error() {
    let mut driver = driver_over(&["[open", "A = 1"]);
    assert_eq!(driver.next_case().unwrap_err(), TestError::SyntaxError);
}

#[test]
fn fully_consumed_case_passes() {
    let mut driver = driver_over(&["Key = Value"]);
    let mut case = driver.next_case().unwrap().unwrap();
    case.consume_string("Key").unwrap();
    assert_eq!(driver.finish_case(&case, CallbackOutcome::Success), None);
    assert!(driver.next_case().unwrap().is_none());
    assert!(!driver.any_failed());
}

#[test]
fn unconsumed_attribute_fails_and_scan_continues() {
    let mut driver = driver_over(&["Key = a", "Extra = b", "", "Key = c"]);
    let mut case = driver.next_case().unwrap().unwrap();
    case.consume_string("Key").unwrap();
    assert_eq!(
        driver.finish_case(&case, CallbackOutcome::Success),
        Some(TestError::UnconsumedAttributes)
    );
    let mut next = driver.next_case().unwrap().unwrap();
    assert_eq!(next.consume_string("Key"), Ok("c".to_string()));
    assert!(driver.any_failed());
}

#[test]
fn domain_error_fails_case() {
    let mut driver = driver_over(&["Key = Value"]);
    let mut case = driver.next_case().unwrap().unwrap();
    case.consume_string("Key").unwrap();
    assert_eq!(
        driver.finish_case(&case, CallbackOutcome::DomainError),
        Some(TestError::CallbackReturnedError)
    );
    assert!(driver.any_failed());
}

#[test]
fn panicked_callback_fails_case() {
    let mut driver = driver_over(&["Key = Value"]);
    let mut case = driver.next_case().unwrap().unwrap();
    case.consume_string("Key").unwrap();
    assert_eq!(
        driver.finish_case(&case, CallbackOutcome::Panicked),
        Some(TestError::CallbackPanicked)
    );
    assert!(driver.any_failed());
}

#[test]
fn only_the_erring_case_gets_a_diagnostic() {
    let mut driver = driver_over(&["Key = a", "", "Key = b", "", "Key = c"]);
    let mut diagnostics = Vec::new();
    let mut index = 0;
    while let Some(mut case) = driver.next_case().unwrap() {
        case.consume_string("Key").unwrap();
        let outcome = if index == 1 {
            CallbackOutcome::DomainError
        } else {
            CallbackOutcome::Success
        };
        if let Some(err) = driver.finish_case(&case, outcome) {
            diagnostics.push((index, err));
        }
        index += 1;
    }
    assert_eq!(index, 3);
    assert_eq!(diagnostics, vec![(1, TestError::CallbackReturnedError)]);
    assert!(driver.any_failed());
}

#[test]
fn empty_input_has_no_cases() {
    let mut driver = driver_over(&[]);
    assert!(driver.next_case().unwrap().is_none());
    assert!(!driver.any_failed());

    let mut blanks = driver_over(&["", "# note", ""]);
    assert!(blanks.next_case().unwrap().is_none());
}

#[test]
fn dump_format_matches_the_interface() {
    assert_eq!(
        format_failure_header("src/example_tests.txt", &TestError::CallbackPanicked),
        "src/example_tests.txt: Test panicked."
    );
    assert_eq!(
        format_failure_header("f.txt", &TestError::UnconsumedAttributes),
        "f.txt: Test didn't consume all attributes."
    );
    let mut driver = driver_over(&["Key = Value", "Other = 7"]);
    let mut case = driver.next_case().unwrap().unwrap();
    case.consume_string("Key").unwrap();
    assert_eq!(format_attr_line(&case, 0), "Key = Value");
    assert_eq!(format_attr_line(&case, 1), "Other (unconsumed) = 7");
}

#[test]
fn base_path_is_the_working_directory() {
    assert_eq!(ring_src_path(), ".");
}

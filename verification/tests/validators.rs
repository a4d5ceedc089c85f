use cocox::constants::COMMIT_HEADER_MAX_LENGTH;
use cocox::messages::{
    header_length_error, COMMIT_TYPE_MISSING_ERROR, DESCRIPTION_FULL_STOP_END_ERROR,
    INCORRECT_FORMAT_ERROR,
};
use cocox::validators::{
    run_validators, validate_detailed_pattern, validate_header_length, validate_simple_pattern,
};

#[test]
fn simple_pattern_accepts_valid_commit() {
    assert!(validate_simple_pattern("feat: add new feature").is_none());
}

#[test]
fn simple_pattern_rejects_invalid_commit() {
    assert_eq!(
        validate_simple_pattern("not a conventional commit"),
        Some(INCORRECT_FORMAT_ERROR.to_string())
    );
}

#[test]
fn header_length_rejects_long_header() {
    let message = format!("feat: {}", "a".repeat(COMMIT_HEADER_MAX_LENGTH));
    assert_eq!(
        validate_header_length(&message, COMMIT_HEADER_MAX_LENGTH),
        Some(header_length_error(COMMIT_HEADER_MAX_LENGTH))
    );
}

#[test]
fn header_length_passes_within_limit() {
    let message = format!("feat: {}", "a".repeat(COMMIT_HEADER_MAX_LENGTH - 10));
    assert!(validate_header_length(&message, COMMIT_HEADER_MAX_LENGTH).is_none());
}

#[test]
fn skip_detail_returns_only_header_length_error() {
    let message = format!("Test {}", "a".repeat(COMMIT_HEADER_MAX_LENGTH + 1));
    let (success, errors) = run_validators(&message, true, Some(COMMIT_HEADER_MAX_LENGTH));
    assert!(!success);
    assert_eq!(errors, vec![header_length_error(COMMIT_HEADER_MAX_LENGTH)]);
}

#[test]
fn skip_detail_returns_only_incorrect_format_error() {
    let (success, errors) = run_validators("Test invalid commit message", true, None);
    assert!(!success);
    assert_eq!(errors, vec![INCORRECT_FORMAT_ERROR.to_string()]);
}

#[test]
fn no_header_length_check_when_none() {
    // Without a limit, long headers are accepted.
    let message = format!("feat: {}", "a".repeat(COMMIT_HEADER_MAX_LENGTH + 100));
    let (success, errors) = run_validators(&message, false, None);
    assert!(success);
    assert!(errors.is_empty());
}

#[test]
fn custom_max_header_length_is_respected() {
    let message = "feat: this is exactly 25 characters long";
    let (success, errors) = run_validators(message, false, Some(10));
    assert!(!success);
    assert!(errors.contains(&header_length_error(10).to_string()));
}

#[test]
fn detailed_pattern_reports_missing_type() {
    let errors = validate_detailed_pattern(": add new feature");
    assert!(errors.contains(&COMMIT_TYPE_MISSING_ERROR.to_string()));
}

#[test]
fn detailed_pattern_reports_trailing_period() {
    let errors = validate_detailed_pattern("feat: add new feature.");
    assert!(errors.contains(&DESCRIPTION_FULL_STOP_END_ERROR.to_string()));
}

use cocox::config::Config;
use cocox::constants::COMMIT_TYPES;
use cocox::linter::{lint_commit_message, lint_commit_message_with_errors, LintOutcome};
use cocox::messages::{
    COMMIT_TYPE_MISSING_ERROR, DESCRIPTION_FULL_STOP_END_ERROR, DESCRIPTION_LINE_BREAK_ERROR,
    DESCRIPTION_MULTIPLE_SPACE_START_ERROR, DESCRIPTION_NO_LEADING_SPACE_ERROR,
    INCORRECT_FORMAT_ERROR, SCOPE_EMPTY_ERROR, SCOPE_WHITESPACE_ERROR,
    SPACE_AFTER_COMMIT_TYPE_ERROR, SPACE_AFTER_SCOPE_ERROR,
};
use cocox::validators::{run_validators, validate_detailed_pattern, validate_header_length};

fn errors(message: &str) -> Vec<String> {
    validate_detailed_pattern(message)
}

fn strs(v: &[&str]) -> Vec<String> {
    v.iter().map(|s| s.to_string()).collect()
}

#[test]
fn no_colon_is_a_format_error() {
    assert_eq!(errors("feat add new feature"), strs(&[INCORRECT_FORMAT_ERROR]));
    assert_eq!(errors(""), strs(&[INCORRECT_FORMAT_ERROR]));
}

#[test]
fn each_check_reports_its_error() {
    assert_eq!(errors("feat : add"), strs(&[SPACE_AFTER_COMMIT_TYPE_ERROR]));
    assert_eq!(errors("feat(): add"), strs(&[SCOPE_EMPTY_ERROR]));
    assert_eq!(errors("feat(a b): add"), strs(&[SCOPE_WHITESPACE_ERROR]));
    assert_eq!(errors("feat(api) : add"), strs(&[SPACE_AFTER_SCOPE_ERROR]));
    assert_eq!(errors("feat:add"), strs(&[DESCRIPTION_NO_LEADING_SPACE_ERROR]));
    assert_eq!(errors("feat:  add"), strs(&[DESCRIPTION_MULTIPLE_SPACE_START_ERROR]));
    assert_eq!(errors("feat: add\nbody"), strs(&[DESCRIPTION_LINE_BREAK_ERROR]));
    assert_eq!(errors("feat: add. "), strs(&[DESCRIPTION_FULL_STOP_END_ERROR]));
    assert_eq!(errors(": add"), strs(&[COMMIT_TYPE_MISSING_ERROR]));
    assert_eq!(errors("wip: add"), strs(&["Invalid commit type 'wip'."]));
    assert!(errors("feat: add").is_empty());
    assert!(errors("feat(api)!: add\n\nbody").is_empty());
}

#[test]
fn errors_come_in_check_order() {
    assert_eq!(
        errors("wip (a b) :  add."),
        strs(&[
            "Invalid commit type 'wip'.",
            SPACE_AFTER_COMMIT_TYPE_ERROR,
            SCOPE_WHITESPACE_ERROR,
            SPACE_AFTER_SCOPE_ERROR,
            DESCRIPTION_MULTIPLE_SPACE_START_ERROR,
            DESCRIPTION_FULL_STOP_END_ERROR,
        ])
    );
}

#[test]
fn colon_without_description_reports_nothing_about_it() {
    assert!(errors("feat:").is_empty());
}

#[test]
fn unicode_word_characters_form_the_type() {
    // `é` is a word character, `«` is not.
    assert_eq!(errors("fé: add"), strs(&["Invalid commit type 'fé'."]));
    assert_eq!(errors("«: add"), strs(&[INCORRECT_FORMAT_ERROR]));
    assert_eq!(errors("feat\u{a0}: add"), strs(&[]));
}

#[test]
fn header_length_counts_utf8_bytes_of_the_first_line() {
    assert!(validate_header_length("feat: é", 8).is_none());
    assert!(validate_header_length("feat: é", 7).is_some());
    assert!(validate_header_length("feat\r\nlong body line", 4).is_none());
    assert!(validate_header_length("feat\rx", 5).is_some());
    assert!(validate_header_length("", 0).is_none());
}

#[test]
fn header_error_comes_before_the_detailed_errors() {
    let (success, errors) = run_validators("wip: add", false, Some(3));
    assert!(!success);
    assert_eq!(
        errors,
        strs(&["Header must not be longer than 3 bytes.", "Invalid commit type 'wip'."])
    );
}

#[test]
fn every_known_type_passes_strict_and_limited_checks() {
    let options = Config {
        skip_detail: true,
        max_header_length: Some(72),
        ..Default::default()
    };
    for kind in COMMIT_TYPES {
        let message = format!("{}: do the thing", kind);
        assert_eq!(lint_commit_message(&message, &options), LintOutcome::Valid);
        assert_eq!(lint_commit_message(&message, &Config::default()), LintOutcome::Valid);
    }
}

#[test]
fn errors_are_reported_only_for_invalid_messages() {
    for message in ["feat: ok", "", "Initial commit", "bad", "feat:bad."] {
        let result = lint_commit_message_with_errors(message, &Config::default());
        assert_eq!(result.outcome == LintOutcome::Invalid, !result.errors.is_empty());
    }
}

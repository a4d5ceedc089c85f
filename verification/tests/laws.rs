use cocox::command::{handle_multiple_commit_messages, Stream};
use cocox::config::Config;
use cocox::git_helpers::commit_messages_from_log;
use cocox::linter::{lint_commit_message_with_errors, LintOutcome};
use cocox::validators::run_validators;

#[test]
fn stripping_comments_changes_nothing_without_comment_lines() {
    let strip = Config { strip_comments: true, ..Default::default() };
    for message in [
        "feat: add new feature",
        "feat: add\n\nbody with a # inside\n",
        "wip:bad.",
        "   ",
        "Merge pull request #1",
        "",
    ] {
        let kept = lint_commit_message_with_errors(message, &Config::default());
        let stripped = lint_commit_message_with_errors(message, &strip);
        assert_eq!(kept, stripped, "message {:?}", message);
    }
}

#[test]
fn stripping_comments_matters_only_with_comment_lines() {
    let strip = Config { strip_comments: true, ..Default::default() };
    let message = "#comment\nfeat: add";
    assert_eq!(lint_commit_message_with_errors(message, &strip).outcome, LintOutcome::Valid);
    assert_eq!(
        lint_commit_message_with_errors(message, &Config::default()).outcome,
        LintOutcome::Invalid
    );
}

#[test]
fn a_range_fails_exactly_when_a_message_fails() {
    let cases: [(&[&str], bool); 5] = [
        (&["feat: a b", "fix: c d"], false),
        (&["feat: a b", "Initial commit", "Revert \"x\""], false),
        (&["feat: a b", "nope"], true),
        (&["", "feat: a b"], true),
        (&[], false),
    ];
    for (messages, fails) in cases {
        let messages: Vec<String> = messages.iter().map(|m| m.to_string()).collect();
        let report = handle_multiple_commit_messages(&messages, &Config::default());
        assert_eq!(report.failed, fails);
        let ends_with_success = report.lines.last().map_or(false, |l| l.stream == Stream::Success);
        assert_eq!(ends_with_success, !fails);
    }
}

#[test]
fn passing_means_no_errors() {
    for (message, skip, max) in [
        ("feat: a", false, None),
        ("feat: a", true, None),
        ("feat: abc", true, Some(3)),
        ("x", false, Some(100)),
        ("x", true, None),
    ] {
        let (success, errors) = run_validators(message, skip, max);
        assert_eq!(success, errors.is_empty());
        if skip {
            assert!(errors.len() <= 1);
        }
    }
}

#[test]
fn log_messages_are_trimmed_and_not_empty() {
    for m in commit_messages_from_log(b" a \n\0\0\t\0 b\r\n\0c") {
        assert_eq!(m.trim(), m);
        assert!(!m.is_empty());
    }
}

#[test]
fn detailed_errors_are_distinct_and_the_format_error_stands_alone() {
    use_detailed(&["wip (a b) :  add.", "feat add", "", ": x\ny", "feat(): a.", "x:y"]);
}

fn use_detailed(messages: &[&str]) {
    for m in messages {
        let errors = cocox::validators::validate_detailed_pattern(m);
        assert!(errors.len() <= 8);
        for (i, a) in errors.iter().enumerate() {
            for b in &errors[i + 1..] {
                assert_ne!(a, b);
            }
        }
        let format = cocox::messages::INCORRECT_FORMAT_ERROR.to_string();
        if errors.contains(&format) {
            assert_eq!(errors, vec![format]);
        }
    }
}

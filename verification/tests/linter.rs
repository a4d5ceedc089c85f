use cocox::config::Config;
use cocox::constants::COMMIT_TYPES;
use cocox::linter::{lint_commit_message, lint_commit_message_with_errors, LintOutcome};

fn lint(message: &str) -> LintOutcome {
    lint_commit_message(message, &Config::default())
}

#[test]
fn accepts_basic_conventional_commit() {
    assert_eq!(lint("feat: add new feature"), LintOutcome::Valid);
}

#[test]
fn accepts_every_known_commit_type() {
    for kind in COMMIT_TYPES {
        assert_eq!(lint(&format!("{}: do the thing", kind)), LintOutcome::Valid);
    }
}

#[test]
fn accepts_commit_with_scope() {
    assert_eq!(lint("feat(parser): add new feature"), LintOutcome::Valid);
    assert_eq!(
        lint("build(deps-dev): bump @babel/traverse from 7.22.17 to 7.24.0"),
        LintOutcome::Valid
    );
}

#[test]
fn accepts_breaking_change_marker() {
    assert_eq!(lint("feat!: breaking feature"), LintOutcome::Valid);
    assert_eq!(lint("feat(api)!: breaking feature"), LintOutcome::Valid);
}

#[test]
fn accepts_body_separated_by_blank_line() {
    assert_eq!(lint("feat: add new feature\n\nthis is body"), LintOutcome::Valid);
    assert_eq!(
        lint("feat: add new feature\n\nthis is body\n\ntest"),
        LintOutcome::Valid
    );
}

#[test]
fn accepts_trailing_newline() {
    assert_eq!(lint("feat: add new feature\n"), LintOutcome::Valid);
}

#[test]
fn rejects_empty_message() {
    assert_eq!(lint(""), LintOutcome::Empty);
}

#[test]
fn rejects_missing_colon() {
    assert_eq!(lint("feat add new feature"), LintOutcome::Invalid);
}

#[test]
fn rejects_unknown_type() {
    assert_eq!(lint("invalid: add new feature"), LintOutcome::Invalid);
}

#[test]
fn rejects_description_without_leading_space() {
    assert_eq!(lint("feat:add new feature"), LintOutcome::Invalid);
}

#[test]
fn rejects_description_with_trailing_period() {
    assert_eq!(lint("feat: trailing period."), LintOutcome::Invalid);
}

#[test]
fn strip_comments_allows_valid_message_with_git_comments() {
    let options = Config {
        strip_comments: true,
        ..Default::default()
    };
    let message = "feat(scope): add new feature\n#this is a comment";
    let result = lint_commit_message_with_errors(message, &options);
    assert_eq!(result.outcome, LintOutcome::Valid);
    assert!(result.errors.is_empty());
}

#[test]
fn returns_outcome_empty() {
    assert_eq!(lint(""), LintOutcome::Empty);
    assert_eq!(lint("   "), LintOutcome::Empty);
    assert_eq!(lint("\n\n"), LintOutcome::Empty);
}

#[test]
fn returns_outcome_ignored() {
    assert_eq!(lint("Merge branch 'main' into develop"), LintOutcome::Ignored);
    assert_eq!(lint("Initial commit"), LintOutcome::Ignored);
}

#[test]
fn returns_outcome_invalid() {
    assert_eq!(lint("not a conventional commit"), LintOutcome::Invalid);
}

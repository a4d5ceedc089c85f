use cocox::cli::Cli;
use cocox::command::{
    handle_commit_message, handle_multiple_commit_messages, message_source, run_options,
    show_errors, trim_message, ConsoleLine, MessageSource, Stream,
};
use cocox::config::{Config, OutputConfig};
use cocox::messages::{EMPTY_MESSAGE_ERROR, VALIDATION_FAILED, VALIDATION_SUCCESSFUL};

fn line(stream: Stream, text: &str) -> ConsoleLine {
    ConsoleLine { stream, text: text.to_string() }
}

fn args() -> Cli {
    Cli {
        message: None,
        file: None,
        hash: None,
        from_hash: None,
        to_hash: "HEAD".to_string(),
        skip_detail: false,
        hide_input: false,
        quiet: false,
        verbose: false,
        max_header_length: None,
    }
}

#[test]
fn show_errors_lists_input_count_and_errors() {
    let errors = vec!["first".to_string(), "second".to_string()];
    let lines = show_errors("feat:x", &errors, &Config::default());
    assert_eq!(
        lines,
        vec![
            line(Stream::Error, "⧗ Input:\nfeat:x\n"),
            line(Stream::Error, "✖ Found 2 error(s)."),
            line(Stream::Error, "- first"),
            line(Stream::Error, "- second"),
            line(Stream::Error, VALIDATION_FAILED),
        ]
    );
}

#[test]
fn show_errors_hides_input_and_skips_details() {
    let options = Config { hide_input: true, skip_detail: true, ..Default::default() };
    let lines = show_errors("bad", &["x".to_string()], &options);
    assert_eq!(lines, vec![line(Stream::Error, VALIDATION_FAILED)]);
}

#[test]
fn show_errors_drops_the_verbose_diff() {
    let message = "bad message\n# ------------------------ >8 ------------------------\ndiff --git a b";
    let lines = show_errors(message, &[], &Config::default());
    assert_eq!(lines[0], line(Stream::Error, "⧗ Input:\nbad message\n"));
    assert_eq!(lines[1], line(Stream::Error, "✖ Found 0 error(s)."));
}

#[test]
fn valid_message_reports_success() {
    let report = handle_commit_message("feat: add", &Config::default());
    assert!(!report.failed);
    assert_eq!(
        report.lines,
        vec![
            line(Stream::Verbose, "linting commit message:"),
            line(Stream::Verbose, "----------\nfeat: add\n----------"),
            line(Stream::Success, VALIDATION_SUCCESSFUL),
        ]
    );
}

#[test]
fn empty_message_aborts_with_error() {
    let report = handle_commit_message("   \n\t ", &Config::default());
    assert!(report.failed);
    assert_eq!(report.lines[2], line(Stream::Error, EMPTY_MESSAGE_ERROR));
    assert!(EMPTY_MESSAGE_ERROR.contains("Aborting commit due to empty commit message"));
}

#[test]
fn ignored_message_prints_only_verbose_lines() {
    let report = handle_commit_message("Merge pull request #123", &Config::default());
    assert!(!report.failed);
    assert!(report.lines.iter().all(|l| l.stream == Stream::Verbose));
    assert_eq!(report.lines[2].text, "commit message ignored, skipping lint");
}

#[test]
fn invalid_message_reports_errors_and_fails() {
    let report = handle_commit_message("wip: something", &Config::default());
    assert!(report.failed);
    let texts: Vec<&str> = report.lines.iter().map(|l| l.text.as_str()).collect();
    assert!(texts.contains(&"- Invalid commit type 'wip'."));
    assert!(texts.contains(&VALIDATION_FAILED));
}

#[test]
fn range_with_all_valid_messages_succeeds() {
    let messages = vec!["feat: a b".to_string(), "Merge pull request #123".to_string(), "fix: c d".to_string()];
    let report = handle_multiple_commit_messages(&messages, &Config::default());
    assert!(!report.failed);
    assert_eq!(
        report.lines,
        vec![
            line(Stream::Verbose, "lint success"),
            line(Stream::Verbose, "lint success"),
            line(Stream::Verbose, "lint success"),
            line(Stream::Success, VALIDATION_SUCCESSFUL),
        ]
    );
}

#[test]
fn range_with_an_invalid_message_fails() {
    let options = Config { skip_detail: true, hide_input: true, ..Default::default() };
    let messages = vec!["feat: abc".to_string(), "not a conventional commit".to_string(), "fix: abc".to_string()];
    let report = handle_multiple_commit_messages(&messages, &options);
    assert!(report.failed);
    assert_eq!(
        report.lines,
        vec![
            line(Stream::Verbose, "lint success"),
            line(Stream::Error, VALIDATION_FAILED),
            line(Stream::Error, ""),
            line(Stream::Verbose, "lint success"),
        ]
    );
}

#[test]
fn range_stops_at_an_empty_message() {
    let messages = vec!["feat: abc".to_string(), " ".to_string(), "bad".to_string()];
    let report = handle_multiple_commit_messages(&messages, &Config::default());
    assert!(report.failed);
    assert_eq!(report.lines, vec![line(Stream::Verbose, "lint success")]);
}

#[test]
fn empty_range_succeeds() {
    let report = handle_multiple_commit_messages(&[], &Config::default());
    assert!(!report.failed);
    assert_eq!(report.lines, vec![line(Stream::Success, VALIDATION_SUCCESSFUL)]);
}

#[test]
fn message_source_prefers_message_then_file_then_hash_then_range() {
    let mut a = args();
    assert_eq!(message_source(&a), None);
    a.from_hash = Some("abc".to_string());
    a.to_hash = "def".to_string();
    assert_eq!(message_source(&a), Some(MessageSource::Range("abc".to_string(), "def".to_string())));
    a.hash = Some("123".to_string());
    assert_eq!(message_source(&a), Some(MessageSource::Hash("123".to_string())));
    a.file = Some("msg.txt".to_string());
    assert_eq!(message_source(&a), Some(MessageSource::File("msg.txt".to_string())));
    a.message = Some("  feat: x y \n".to_string());
    assert_eq!(message_source(&a), Some(MessageSource::Message("feat: x y".to_string())));
}

#[test]
fn run_options_strip_comments_only_for_files() {
    let mut a = args();
    a.quiet = true;
    a.skip_detail = true;
    a.max_header_length = Some(50);
    let file = run_options(&a, &MessageSource::File("f".to_string()));
    assert_eq!(
        file,
        Config {
            output: OutputConfig::new(true, false),
            skip_detail: true,
            hide_input: false,
            strip_comments: true,
            max_header_length: Some(50),
        }
    );
    let direct = run_options(&a, &MessageSource::Message("m".to_string()));
    assert!(!direct.strip_comments);
    assert_eq!(Config::from_cli(&a), direct);
}

#[test]
fn trim_message_removes_surrounding_whitespace() {
    assert_eq!(trim_message("\u{a0} feat: x \t\n"), "feat: x");
    assert_eq!(trim_message(" \n "), "");
}

#[test]
fn quiet_hides_everything_and_verbose_shows_progress() {
    let plain = OutputConfig::new(false, false);
    let quiet = OutputConfig::new(true, false);
    let verbose = OutputConfig::new(false, true);
    assert!(cocox::command::is_shown(Stream::Error, &plain));
    assert!(cocox::command::is_shown(Stream::Success, &plain));
    assert!(!cocox::command::is_shown(Stream::Verbose, &plain));
    assert!(!cocox::command::is_shown(Stream::Error, &quiet));
    assert!(!cocox::command::is_shown(Stream::Success, &quiet));
    assert!(cocox::command::is_shown(Stream::Verbose, &verbose));
}

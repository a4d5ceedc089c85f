//! The decisions of the command line tool: which messages to lint, under
//! which options, and what to print for each verdict. The caller prints the
//! lines and sets the exit status.

use vstd::prelude::*;
use crate::cli::Cli;
use crate::config::{Config, OutputConfig};
use crate::linter::{lint_commit_message_with_errors, lint_errors, lint_outcome, LintOutcome};
use crate::messages::{
    decimal, push_decimal, EMPTY_MESSAGE_ERROR, VALIDATION_FAILED, VALIDATION_SUCCESSFUL,
};
use crate::text::{chars_of, push_chars, string_of, trim, trim_bounds, slice_chars};
use crate::utils::{remove_diff_from_commit_message, without_diff};
use crate::validators::views;

verus! {

/// Where a line of output goes.
#[derive(Debug, Clone, Copy, PartialEq, Eq, Structural)]
pub enum Stream {
    /// Standard error, unless output is quiet.
    Error,
    /// Standard output, unless output is quiet.
    Success,
    /// Printed only when output is verbose.
    Verbose,
}

/// A line of output.
#[derive(Debug, PartialEq, Eq)]
pub struct ConsoleLine {
    pub stream: Stream,
    pub text: String,
}

/// A line on `stream` is printed: nothing is printed when output is quiet,
/// and verbose lines only when output is verbose.
pub open spec fn shown(stream: Stream, output: OutputConfig) -> bool {
    !output.quiet && (stream != Stream::Verbose || output.verbose)
}

/// Whether a line on `stream` is printed under `output`.
pub fn is_shown(stream: Stream, output: &OutputConfig) -> (r: bool)
    ensures
        r == shown(stream, *output),
{
    !output.quiet && (!matches!(stream, Stream::Verbose) || output.verbose)
}

/// What a run prints, in order, and whether it fails (exit status 1).
#[derive(Debug, PartialEq, Eq)]
pub struct Report {
    pub lines: Vec<ConsoleLine>,
    pub failed: bool,
}

/// A line of output as its stream and characters.
pub open spec fn line_view(l: ConsoleLine) -> (Stream, Seq<char>) {
    (l.stream, l.text@)
}

/// The lines of output as streams and characters.
pub open spec fn lines_view(v: Seq<ConsoleLine>) -> Seq<(Stream, Seq<char>)> {
    v.map_values(|l: ConsoleLine| line_view(l))
}

fn line(stream: Stream, text: String) -> (l: ConsoleLine)
    ensures
        line_view(l) == (stream, text@),
{
    ConsoleLine { stream, text }
}

fn push_line(lines: &mut Vec<ConsoleLine>, stream: Stream, text: String)
    ensures
        lines_view(final(lines)@) == lines_view(old(lines)@).push((stream, text@)),
{
    let ghost before = lines@;
    lines.push(line(stream, text));
    assert(lines_view(lines@) =~= lines_view(before).push((stream, text@)));
}

/// The heading of the repeated input.
pub const INPUT_HEADING: &'static str = "⧗ Input:\n";

/// The text before the number of errors.
pub const FOUND_PREFIX: &'static str = "✖ Found ";

/// The text after the number of errors.
pub const FOUND_SUFFIX: &'static str = " error(s).";

/// The text before each error.
pub const ERROR_BULLET: &'static str = "- ";

/// Verbose line before the linted message.
pub const LINTING_MESSAGE: &'static str = "linting commit message:";

/// Verbose rule around the linted message.
pub const RULE: &'static str = "----------";

/// Verbose line for an ignored message.
pub const IGNORED_MESSAGE: &'static str = "commit message ignored, skipping lint";

/// Verbose line for a message of a range that passes.
pub const LINT_SUCCESS: &'static str = "lint success";

/// The lines that report the `errors` of an invalid `message`: the message
/// itself (without the verbose diff) unless the input is hidden, then either
/// the bare failure line (details skipped) or the count of errors, each
/// error, and the failure line.
pub open spec fn error_report(
    message: Seq<char>,
    errors: Seq<Seq<char>>,
    options: Config,
) -> Seq<(Stream, Seq<char>)> {
    let input = if options.hide_input {
        Seq::<(Stream, Seq<char>)>::empty()
    } else {
        seq![(Stream::Error, INPUT_HEADING@ + without_diff(message) + seq!['\n'])]
    };
    if options.skip_detail {
        input + seq![(Stream::Error, VALIDATION_FAILED@)]
    } else {
        input + seq![(Stream::Error, FOUND_PREFIX@ + decimal(errors.len()) + FOUND_SUFFIX@)]
            + errors.map_values(|e: Seq<char>| (Stream::Error, ERROR_BULLET@ + e)) + seq![
            (Stream::Error, VALIDATION_FAILED@),
        ]
    }
}

/// The lines that report the errors of an invalid message.
pub fn show_errors(message: &str, errors: &[String], options: &Config) -> (lines: Vec<ConsoleLine>)
    ensures
        lines_view(lines@) == error_report(message@, views(errors@), *options),
{
    let mut lines: Vec<ConsoleLine> = Vec::new();
    push_error_report(&mut lines, message, errors, options);
    assert(lines_view(lines@) =~= error_report(message@, views(errors@), *options));
    lines
}

fn push_error_report(lines: &mut Vec<ConsoleLine>, message: &str, errors: &[String], options: &Config)
    ensures
        lines_view(final(lines)@) == lines_view(old(lines)@) + error_report(message@, views(errors@), *options),
{
    let ghost start = lines_view(lines@);
    if !options.hide_input {
        let shown = remove_diff_from_commit_message(message);
        let mut text = INPUT_HEADING.to_owned();
        let shown_chars = chars_of(shown.as_str());
        push_chars(&mut text, &shown_chars);
        text.push('\n');
        assert(text@ =~= INPUT_HEADING@ + without_diff(message@) + seq!['\n']);
        push_line(lines, Stream::Error, text);
    }
    let ghost input = if options.hide_input {
        Seq::<(Stream, Seq<char>)>::empty()
    } else {
        seq![(Stream::Error, INPUT_HEADING@ + without_diff(message@) + seq!['\n'])]
    };
    assert(lines_view(lines@) =~= start + input);
    if options.skip_detail {
        push_line(lines, Stream::Error, VALIDATION_FAILED.to_owned());
        assert(lines_view(lines@) =~= start + error_report(message@, views(errors@), *options));
        return;
    }
    let mut count = FOUND_PREFIX.to_owned();
    push_decimal(&mut count, errors.len());
    let suffix = chars_of(FOUND_SUFFIX);
    push_chars(&mut count, &suffix);
    assert(count@ =~= FOUND_PREFIX@ + decimal(errors@.len() as nat) + FOUND_SUFFIX@);
    push_line(lines, Stream::Error, count);
    let ghost head = lines_view(lines@);
    let ghost bullets = views(errors@).map_values(|e: Seq<char>| (Stream::Error, ERROR_BULLET@ + e));
    let mut i: usize = 0;
    while i < errors.len()
        invariant
            i <= errors@.len(),
            bullets == views(errors@).map_values(|e: Seq<char>| (Stream::Error, ERROR_BULLET@ + e)),
            lines_view(lines@) == head + bullets.subrange(0, i as int),
        decreases errors.len() - i,
    {
        let mut text = ERROR_BULLET.to_owned();
        let e = chars_of(errors[i].as_str());
        push_chars(&mut text, &e);
        assert(bullets[i as int] == (Stream::Error, ERROR_BULLET@ + errors@[i as int]@));
        push_line(lines, Stream::Error, text);
        assert(bullets.subrange(0, i + 1) =~= bullets.subrange(0, i as int).push(bullets[i as int]));
        i = i + 1;
    }
    assert(bullets.subrange(0, errors@.len() as int) =~= bullets);
    push_line(lines, Stream::Error, VALIDATION_FAILED.to_owned());
    assert(lines_view(lines@) =~= start + error_report(message@, views(errors@), *options));
}


/// The lines that report the verdict on one message: the empty-message
/// error, the verbose note on an ignored message, the success line, or the
/// error report.
pub open spec fn verdict_lines(message: Seq<char>, options: Config) -> Seq<(Stream, Seq<char>)> {
    match lint_outcome(message, options) {
        LintOutcome::Empty => seq![(Stream::Error, EMPTY_MESSAGE_ERROR@)],
        LintOutcome::Ignored => seq![(Stream::Verbose, IGNORED_MESSAGE@)],
        LintOutcome::Valid => seq![(Stream::Success, VALIDATION_SUCCESSFUL@)],
        LintOutcome::Invalid => error_report(message, lint_errors(message, options), options),
    }
}

/// The verdict fails the run: the message is empty or invalid.
pub open spec fn fails(outcome: LintOutcome) -> bool {
    outcome == LintOutcome::Empty || outcome == LintOutcome::Invalid
}

/// What linting one message prints, and whether the run fails.
pub open spec fn single_report(message: Seq<char>, options: Config) -> (Seq<(Stream, Seq<char>)>, bool) {
    (
        seq![
            (Stream::Verbose, LINTING_MESSAGE@),
            (Stream::Verbose, RULE@ + seq!['\n'] + message + seq!['\n'] + RULE@),
        ] + verdict_lines(message, options),
        fails(lint_outcome(message, options)),
    )
}

/// Lints one message and reports the verdict.
pub fn handle_commit_message(message: &str, options: &Config) -> (r: Report)
    ensures
        lines_view(r.lines@) == single_report(message@, *options).0,
        r.failed == single_report(message@, *options).1,
{
    let mut lines: Vec<ConsoleLine> = Vec::new();
    push_line(&mut lines, Stream::Verbose, LINTING_MESSAGE.to_owned());
    let mut framed = RULE.to_owned();
    framed.push('\n');
    let m = chars_of(message);
    push_chars(&mut framed, &m);
    framed.push('\n');
    let rule = chars_of(RULE);
    push_chars(&mut framed, &rule);
    assert(framed@ =~= RULE@ + seq!['\n'] + message@ + seq!['\n'] + RULE@);
    push_line(&mut lines, Stream::Verbose, framed);
    let ghost head = lines_view(lines@);
    let result = lint_commit_message_with_errors(message, options);
    let failed = match result.outcome {
        LintOutcome::Empty => {
            push_line(&mut lines, Stream::Error, EMPTY_MESSAGE_ERROR.to_owned());
            true
        },
        LintOutcome::Ignored => {
            push_line(&mut lines, Stream::Verbose, IGNORED_MESSAGE.to_owned());
            false
        },
        LintOutcome::Valid => {
            push_line(&mut lines, Stream::Success, VALIDATION_SUCCESSFUL.to_owned());
            false
        },
        LintOutcome::Invalid => {
            push_error_report(&mut lines, message, &result.errors, options);
            true
        },
    };
    assert(lines_view(lines@) =~= single_report(message@, *options).0);
    Report { lines, failed }
}

/// What linting a range of messages has printed, whether it stopped at an
/// empty message, and whether an invalid message was found. Each message
/// gets a verbose success note or its error report and a blank error line;
/// an empty message stops the run at once, without a line of its own.
pub open spec fn batch_state(messages: Seq<Seq<char>>, options: Config) -> (
    Seq<(Stream, Seq<char>)>,
    bool,
    bool,
)
    decreases messages.len(),
{
    if messages.len() == 0 {
        (seq![], false, false)
    } else {
        let prev = batch_state(messages.drop_last(), options);
        let m = messages.last();
        if prev.1 {
            prev
        } else if lint_outcome(m, options) == LintOutcome::Empty {
            (prev.0, true, prev.2)
        } else if lint_outcome(m, options) == LintOutcome::Invalid {
            (
                prev.0 + error_report(m, lint_errors(m, options), options) + seq![
                    (Stream::Error, Seq::<char>::empty()),
                ],
                false,
                true,
            )
        } else {
            (prev.0.push((Stream::Verbose, LINT_SUCCESS@)), false, prev.2)
        }
    }
}

/// What linting a range of messages prints, and whether the run fails: it
/// fails when a message is empty or invalid, and otherwise ends with the
/// success line.
pub open spec fn batch_report(messages: Seq<Seq<char>>, options: Config) -> (
    Seq<(Stream, Seq<char>)>,
    bool,
) {
    let st = batch_state(messages, options);
    if st.1 || st.2 {
        (st.0, true)
    } else {
        (st.0.push((Stream::Success, VALIDATION_SUCCESSFUL@)), false)
    }
}

/// Lints the messages of a range of commits, in order, and reports the verdicts.
pub fn handle_multiple_commit_messages(messages: &[String], options: &Config) -> (r: Report)
    ensures
        lines_view(r.lines@) == batch_report(views(messages@), *options).0,
        r.failed == batch_report(views(messages@), *options).1,
{
    let ghost ms = views(messages@);
    let mut lines: Vec<ConsoleLine> = Vec::new();
    let mut has_error = false;
    let mut i: usize = 0;
    while i < messages.len()
        invariant
            i <= messages@.len(),
            ms == views(messages@),
            lines_view(lines@) == batch_state(ms.subrange(0, i as int), *options).0,
            !batch_state(ms.subrange(0, i as int), *options).1,
            has_error == batch_state(ms.subrange(0, i as int), *options).2,
        decreases messages.len() - i,
    {
        let message = messages[i].as_str();
        let ghost prefix = ms.subrange(0, i + 1);
        assert(prefix.drop_last() =~= ms.subrange(0, i as int));
        assert(prefix.last() == message@);
        let result = lint_commit_message_with_errors(message, options);
        match result.outcome {
            LintOutcome::Empty => {
                proof {
                    lemma_batch_stops(ms, i as int + 1, *options);
                }
                assert(ms.subrange(0, ms.len() as int) =~= ms);
                return Report { lines, failed: true };
            },
            LintOutcome::Invalid => {
                has_error = true;
                push_error_report(&mut lines, message, &result.errors, options);
                push_line(&mut lines, Stream::Error, String::new());
                assert(lines_view(lines@) =~= batch_state(prefix, *options).0);
            },
            _ => {
                push_line(&mut lines, Stream::Verbose, LINT_SUCCESS.to_owned());
            },
        }
        i = i + 1;
    }
    assert(ms.subrange(0, ms.len() as int) =~= ms);
    if has_error {
        Report { lines, failed: true }
    } else {
        push_line(&mut lines, Stream::Success, VALIDATION_SUCCESSFUL.to_owned());
        Report { lines, failed: false }
    }
}

proof fn lemma_batch_stops(ms: Seq<Seq<char>>, k: int, options: Config)
    requires
        0 <= k <= ms.len(),
        batch_state(ms.subrange(0, k), options).1,
    ensures
        batch_state(ms, options) == batch_state(ms.subrange(0, k), options),
    decreases ms.len() - k,
{
    if k < ms.len() {
        let next = ms.subrange(0, k + 1);
        assert(next.drop_last() =~= ms.subrange(0, k));
        lemma_batch_stops(ms, k + 1, options);
    } else {
        assert(ms.subrange(0, k) =~= ms);
    }
}


/// The trimmed `message`, as the tool lints a message given on the command
/// line or read from a file.
pub fn trim_message(message: &str) -> (r: String)
    ensures
        r@ == trim(message@),
{
    let s = chars_of(message);
    let (a, b) = trim_bounds(&s);
    let t = slice_chars(&s, a, b);
    string_of(&t)
}

/// Where the messages to lint come from.
#[derive(Debug, PartialEq, Eq)]
pub enum MessageSource {
    /// A message given on the command line, trimmed.
    Message(String),
    /// The path of a file that holds the message.
    File(String),
    /// A commit, by hash.
    Hash(String),
    /// The commits from the first hash to the second, both included.
    Range(String, String),
}

/// The source of the messages: the first of message, file, hash and range
/// start that is given (the argument parser admits only one); `None` when
/// none is.
pub fn message_source(args: &Cli) -> (r: Option<MessageSource>)
    ensures
        match r {
            Some(MessageSource::Message(m)) => args.message is Some && m@ == trim(args.message->0@),
            Some(MessageSource::File(f)) => args.message is None && args.file is Some && f@
                == args.file->0@,
            Some(MessageSource::Hash(h)) => args.message is None && args.file is None
                && args.hash is Some && h@ == args.hash->0@,
            Some(MessageSource::Range(from, to)) => args.message is None && args.file is None
                && args.hash is None && args.from_hash is Some && from@ == args.from_hash->0@ && to@
                == args.to_hash@,
            None => args.message is None && args.file is None && args.hash is None
                && args.from_hash is None,
        },
{
    if let Some(message) = &args.message {
        Some(MessageSource::Message(trim_message(message.as_str())))
    } else if let Some(file) = &args.file {
        Some(MessageSource::File(file.clone()))
    } else if let Some(hash) = &args.hash {
        Some(MessageSource::Hash(hash.clone()))
    } else if let Some(from_hash) = &args.from_hash {
        Some(MessageSource::Range(from_hash.clone(), args.to_hash.clone()))
    } else {
        None
    }
}

/// The options of the run: those of the command line, and comments are
/// removed from a message read from a file (a commit message file that git
/// prepared).
pub fn run_options(args: &Cli, source: &MessageSource) -> (r: Config)
    ensures
        r.output.quiet == args.quiet,
        r.output.verbose == args.verbose,
        r.skip_detail == args.skip_detail,
        r.hide_input == args.hide_input,
        r.max_header_length == args.max_header_length,
        r.strip_comments == (source is File),
{
    let mut options = Config::from_cli(args);
    if let MessageSource::File(_) = source {
        options.strip_comments = true;
    }
    options
}

} // verus!

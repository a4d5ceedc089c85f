//! Linting a commit message: empty and ignored messages first, then the validators.

use vstd::prelude::*;
use crate::config::Config;
use crate::text::all_ws;
use crate::utils::{ignored, is_empty, is_ignored, remove_comments, without_comments};
use crate::validators::{run_validators, validation, views};

verus! {

/// The verdict on a commit message.
#[derive(Debug, PartialEq, Eq, Structural)]
pub enum LintOutcome {
    /// The message follows the format.
    Valid,
    /// The message breaks the format; the errors say how.
    Invalid,
    /// The message is a merge, a revert, a bump or the initial commit, and is not linted.
    Ignored,
    /// The message holds nothing but whitespace.
    Empty,
}

/// The verdict on a commit message and, when it is invalid, the errors found.
#[derive(Debug, PartialEq, Eq)]
pub struct LintResult {
    pub outcome: LintOutcome,
    pub errors: Vec<String>,
}

/// The message the validators see: without comments when the options ask for it.
pub open spec fn prepared(s: Seq<char>, options: Config) -> Seq<char> {
    if options.strip_comments {
        without_comments(s)
    } else {
        s
    }
}

/// The verdict on `s` under `options`.
pub open spec fn lint_outcome(s: Seq<char>, options: Config) -> LintOutcome {
    let m = prepared(s, options);
    if all_ws(m) {
        LintOutcome::Empty
    } else if ignored(m) {
        LintOutcome::Ignored
    } else if validation(m, options.skip_detail, options.max_header_length).0 {
        LintOutcome::Valid
    } else {
        LintOutcome::Invalid
    }
}

/// The errors reported on `s` under `options`: those of the validators when
/// the message is invalid, none otherwise.
pub open spec fn lint_errors(s: Seq<char>, options: Config) -> Seq<Seq<char>> {
    if lint_outcome(s, options) == LintOutcome::Invalid {
        validation(prepared(s, options), options.skip_detail, options.max_header_length).1
    } else {
        seq![]
    }
}

/// Lints `message` under `options`. Errors are reported exactly when the
/// message is invalid.
pub fn lint_commit_message_with_errors(message: &str, options: &Config) -> (r: LintResult)
    ensures
        r.outcome == lint_outcome(message@, *options),
        views(r.errors@) == lint_errors(message@, *options),
        r.outcome == LintOutcome::Invalid <==> r.errors@.len() > 0,
{
    let prepared_message = if options.strip_comments {
        remove_comments(message)
    } else {
        message.to_owned()
    };
    let m = prepared_message.as_str();
    if is_empty(m) {
        let errors: Vec<String> = Vec::new();
        assert(views(errors@) =~= Seq::<Seq<char>>::empty());
        return LintResult { outcome: LintOutcome::Empty, errors };
    }
    if is_ignored(m) {
        let errors: Vec<String> = Vec::new();
        assert(views(errors@) =~= Seq::<Seq<char>>::empty());
        return LintResult { outcome: LintOutcome::Ignored, errors };
    }
    let (success, errors) = run_validators(m, options.skip_detail, options.max_header_length);
    if success {
        let none: Vec<String> = Vec::new();
        assert(views(none@) =~= Seq::<Seq<char>>::empty());
        LintResult { outcome: LintOutcome::Valid, errors: none }
    } else {
        LintResult { outcome: LintOutcome::Invalid, errors }
    }
}

/// The verdict on `message` under `options`.
pub fn lint_commit_message(message: &str, options: &Config) -> (r: LintOutcome)
    ensures
        r == lint_outcome(message@, *options),
{
    lint_commit_message_with_errors(message, options).outcome
}

} // verus!

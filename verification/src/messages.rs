//! The texts the linter reports.

use vstd::prelude::*;
use crate::text::push_chars;

verus! {

/// Printed when every checked message is valid.
pub const VALIDATION_SUCCESSFUL: &'static str = "Commit validation: successful!";

/// Printed in place of the detailed errors when details are skipped.
pub const VALIDATION_FAILED: &'static str = "Commit validation: failed!";

/// Printed when the message holds nothing but whitespace.
pub const EMPTY_MESSAGE_ERROR: &'static str = "Aborting commit due to empty commit message.";

/// The message does not follow the Conventional Commits format at all.
pub const INCORRECT_FORMAT_ERROR: &'static str =
    "Commit message does not follow the Conventional Commits format.";

/// The header has no commit type.
pub const COMMIT_TYPE_MISSING_ERROR: &'static str = "Type is missing.";

/// The commit type is followed by a space.
pub const SPACE_AFTER_COMMIT_TYPE_ERROR: &'static str = "Type must not be followed by a space.";

/// The scope between the parentheses is empty.
pub const SCOPE_EMPTY_ERROR: &'static str = "Scope must not be empty.";

/// The scope holds a space.
pub const SCOPE_WHITESPACE_ERROR: &'static str = "Scope must not contain whitespace.";

/// The closing parenthesis of the scope is followed by a space.
pub const SPACE_AFTER_SCOPE_ERROR: &'static str = "Scope must not be followed by a space.";

/// The header has no description.
pub const DESCRIPTION_MISSING_ERROR: &'static str = "Description is missing.";

/// The colon is not followed by a space.
pub const DESCRIPTION_NO_LEADING_SPACE_ERROR: &'static str =
    "Description must start with a space after the colon.";

/// The description starts with more than one space.
pub const DESCRIPTION_MULTIPLE_SPACE_START_ERROR: &'static str =
    "Description must not start with more than one space.";

/// The body follows the description after a single line break.
pub const DESCRIPTION_LINE_BREAK_ERROR: &'static str =
    "Description and body must be separated by a blank line.";

/// The description ends with a full stop.
pub const DESCRIPTION_FULL_STOP_END_ERROR: &'static str =
    "Description must not end with a full stop.";

/// The text before the commit type in the invalid-type error.
pub const COMMIT_TYPE_INVALID_PREFIX: &'static str = "Invalid commit type '";

/// The text after the commit type in the invalid-type error.
pub const COMMIT_TYPE_INVALID_SUFFIX: &'static str = "'.";

/// The text before the limit in the header-length error.
pub const HEADER_LENGTH_PREFIX: &'static str = "Header must not be longer than ";

/// The text after the limit in the header-length error.
pub const HEADER_LENGTH_SUFFIX: &'static str = " bytes.";

/// The decimal digit `d`.
pub open spec fn digit(d: nat) -> char {
    if d == 0 { '0' }
    else if d == 1 { '1' }
    else if d == 2 { '2' }
    else if d == 3 { '3' }
    else if d == 4 { '4' }
    else if d == 5 { '5' }
    else if d == 6 { '6' }
    else if d == 7 { '7' }
    else if d == 8 { '8' }
    else { '9' }
}

/// The decimal notation of `n`, without leading zeros.
pub open spec fn decimal(n: nat) -> Seq<char>
    decreases n,
{
    if n < 10 {
        seq![digit(n)]
    } else {
        decimal(n / 10).push(digit(n % 10))
    }
}

fn digit_char(d: usize) -> (c: char)
    requires
        d < 10,
    ensures
        c == digit(d as nat),
{
    if d == 0 { '0' }
    else if d == 1 { '1' }
    else if d == 2 { '2' }
    else if d == 3 { '3' }
    else if d == 4 { '4' }
    else if d == 5 { '5' }
    else if d == 6 { '6' }
    else if d == 7 { '7' }
    else if d == 8 { '8' }
    else { '9' }
}

/// Appends the decimal notation of `n` to `s`.
pub fn push_decimal(s: &mut String, n: usize)
    ensures
        final(s)@ == old(s)@ + decimal(n as nat),
    decreases n,
{
    if n >= 10 {
        push_decimal(s, n / 10);
    }
    s.push(digit_char(n % 10));
    assert(decimal(n as nat) =~= if n < 10 { seq![digit(n as nat)] } else { decimal((n / 10) as nat).push(digit((n % 10) as nat)) });
}

/// The text of the invalid-type error for the commit type `t`.
pub open spec fn commit_type_invalid_text(t: Seq<char>) -> Seq<char> {
    COMMIT_TYPE_INVALID_PREFIX@ + t + COMMIT_TYPE_INVALID_SUFFIX@
}

/// The text of the header-length error for the limit `max`.
pub open spec fn header_length_text(max: nat) -> Seq<char> {
    HEADER_LENGTH_PREFIX@ + decimal(max) + HEADER_LENGTH_SUFFIX@
}

/// The error for a commit type that is not one of the commit types.
pub fn commit_type_invalid_error(commit_type: &str) -> (r: String)
    ensures
        r@ == commit_type_invalid_text(commit_type@),
{
    let t = crate::text::chars_of(commit_type);
    commit_type_invalid_error_of(&t)
}

/// `commit_type_invalid_error` for a type given as characters.
pub fn commit_type_invalid_error_of(t: &[char]) -> (r: String)
    ensures
        r@ == commit_type_invalid_text(t@),
{
    let mut s = COMMIT_TYPE_INVALID_PREFIX.to_owned();
    push_chars(&mut s, t);
    let suffix = crate::text::chars_of(COMMIT_TYPE_INVALID_SUFFIX);
    push_chars(&mut s, &suffix);
    s
}

/// The error for a header longer than `max` bytes (of its UTF-8 encoding).
pub fn header_length_error(max: usize) -> (r: String)
    ensures
        r@ == header_length_text(max as nat),
{
    let mut s = HEADER_LENGTH_PREFIX.to_owned();
    push_decimal(&mut s, max);
    let suffix = crate::text::chars_of(HEADER_LENGTH_SUFFIX);
    push_chars(&mut s, &suffix);
    s
}

} // verus!

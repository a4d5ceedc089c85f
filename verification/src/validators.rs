//! The validators: the header length, the strict pattern, and the detailed
//! checks that name each way a header departs from the format.

use vstd::prelude::*;
use crate::constants::{is_commit_type, is_known_commit_type};
use crate::grammar::{
    Captures, body_separation_span, body_span, colon_span, description_span, lenient_captures,
    matches_strict_pattern, scope_span, space_after_scope_span, strict_match, type_span,
};
use crate::messages::{
    COMMIT_TYPE_MISSING_ERROR, DESCRIPTION_FULL_STOP_END_ERROR, DESCRIPTION_LINE_BREAK_ERROR,
    DESCRIPTION_MISSING_ERROR, DESCRIPTION_MULTIPLE_SPACE_START_ERROR,
    DESCRIPTION_NO_LEADING_SPACE_ERROR, INCORRECT_FORMAT_ERROR, SCOPE_EMPTY_ERROR,
    SCOPE_WHITESPACE_ERROR, SPACE_AFTER_COMMIT_TYPE_ERROR, SPACE_AFTER_SCOPE_ERROR,
    commit_type_invalid_error_of, commit_type_invalid_text, header_length_error,
    header_length_text,
};
use crate::text::{chars_of, slice_chars, trim, trim_bounds};

verus! {

// ---------------------------------------------------------------------------
// Views of reported errors

/// The characters of an optional error.
pub open spec fn opt_view(o: Option<String>) -> Option<Seq<char>> {
    match o {
        Some(e) => Some(e@),
        None => None,
    }
}

/// The characters of each error, in order.
pub open spec fn views(v: Seq<String>) -> Seq<Seq<char>> {
    v.map_values(|e: String| e@)
}

/// An optional error as a list of zero or one errors.
pub open spec fn listed(o: Option<Seq<char>>) -> Seq<Seq<char>> {
    match o {
        Some(e) => seq![e],
        None => seq![],
    }
}

fn push_error(errors: &mut Vec<String>, o: Option<String>)
    ensures
        views(final(errors)@) == views(old(errors)@) + listed(opt_view(o)),
{
    match o {
        Some(e) => {
            errors.push(e);
            assert(views(errors@) =~= views(old(errors)@) + listed(opt_view(Some(e))));
        },
        None => {
            assert(views(errors@) =~= views(old(errors)@) + listed(opt_view(None::<String>)));
        },
    }
}

// ---------------------------------------------------------------------------
// Header length

/// The number of bytes of the UTF-8 encoding of `c` (`char::len_utf8`).
pub open spec fn utf8_width(c: char) -> nat {
    if (c as u32) < 0x80 {
        1
    } else if (c as u32) < 0x800 {
        2
    } else if (c as u32) < 0x10000 {
        3
    } else {
        4
    }
}

/// The number of bytes of the UTF-8 encoding of `s` (`str::len`).
pub open spec fn utf8_len(s: Seq<char>) -> nat
    decreases s.len(),
{
    if s.len() == 0 {
        0
    } else {
        utf8_len(s.drop_last()) + utf8_width(s.last())
    }
}

proof fn lemma_utf8_len_prefix(s: Seq<char>, k: int)
    requires
        0 <= k <= s.len(),
    ensures
        utf8_len(s.subrange(0, k)) <= utf8_len(s),
    decreases s.len() - k,
{
    if k < s.len() {
        lemma_utf8_len_prefix(s, k + 1);
        assert(s.subrange(0, k + 1).drop_last() =~= s.subrange(0, k));
    } else {
        assert(s.subrange(0, k) =~= s);
    }
}

/// The first `\n` at or after `i`, or `s.len()`.
pub open spec fn newline_from(s: Seq<char>, i: int) -> int
    decreases s.len() - i,
{
    if 0 <= i < s.len() && s[i] != '\n' {
        newline_from(s, i + 1)
    } else {
        i
    }
}

/// The first line of `s`, as `str::lines` gives it: up to the first `\n`,
/// without a `\r` right before that `\n`; empty for an empty `s`.
pub open spec fn first_line(s: Seq<char>) -> Seq<char> {
    let i = newline_from(s, 0);
    if 0 < i < s.len() && s[i - 1] == '\r' {
        s.subrange(0, i - 1)
    } else {
        s.subrange(0, i)
    }
}

/// The header of `s` is longer than `max` bytes.
pub open spec fn header_too_long(s: Seq<char>, max: nat) -> bool {
    utf8_len(first_line(s)) > max
}

fn utf8_width_of(c: char) -> (w: usize)
    ensures
        w == utf8_width(c),
{
    let u = c as u32;
    if u < 0x80 {
        1
    } else if u < 0x800 {
        2
    } else if u < 0x10000 {
        3
    } else {
        4
    }
}

fn first_line_end(s: &[char]) -> (e: usize)
    ensures
        e <= s@.len(),
        s@.subrange(0, e as int) == first_line(s@),
{
    let mut i: usize = 0;
    while i < s.len() && s[i] != '\n'
        invariant
            i <= s@.len(),
            forall|k: int| 0 <= k < i ==> #[trigger] s@[k] != '\n',
            newline_from(s@, 0) == newline_from(s@, i as int),
        decreases s.len() - i,
    {
        i = i + 1;
    }
    if 0 < i && i < s.len() && s[i - 1] == '\r' {
        i - 1
    } else {
        i
    }
}

/// Whether the first line of `s` is longer than `max` bytes.
fn header_exceeds(s: &[char], max: usize) -> (b: bool)
    ensures
        b == header_too_long(s@, max as nat),
{
    let e = first_line_end(s);
    let ghost h = first_line(s@);
    let mut total: usize = 0;
    let mut k: usize = 0;
    while k < e
        invariant
            e <= s@.len(),
            h == s@.subrange(0, e as int),
            h == first_line(s@),
            k <= e,
            total <= max,
            total == utf8_len(h.subrange(0, k as int)),
        decreases e - k,
    {
        let w = utf8_width_of(s[k]);
        assert(h.subrange(0, k + 1).drop_last() =~= h.subrange(0, k as int));
        assert(h.subrange(0, k + 1).last() == s@[k as int]);
        assert(utf8_len(h.subrange(0, k + 1)) == total + w);
        if w > max - total {
            proof {
                lemma_utf8_len_prefix(h, k + 1);
            }
            return true;
        }
        total = total + w;
        k = k + 1;
    }
    assert(h.subrange(0, e as int) =~= h);
    false
}

/// The header-length error when the first line of `message` is longer than
/// `max` bytes, and `None` otherwise.
pub fn validate_header_length(message: &str, max: usize) -> (r: Option<String>)
    ensures
        opt_view(r) == (if header_too_long(message@, max as nat) {
            Some(header_length_text(max as nat))
        } else {
            None
        }),
{
    let s = chars_of(message);
    if header_exceeds(&s, max) {
        Some(header_length_error(max))
    } else {
        None
    }
}

// ---------------------------------------------------------------------------
// Strict pattern

/// The format error when `message` does not match the strict pattern.
pub fn validate_simple_pattern(message: &str) -> (r: Option<String>)
    ensures
        opt_view(r) == (if strict_match(message@) {
            None
        } else {
            Some(INCORRECT_FORMAT_ERROR@)
        }),
{
    let s = chars_of(message);
    if matches_strict_pattern(&s) {
        None
    } else {
        Some(INCORRECT_FORMAT_ERROR.to_owned())
    }
}


// ---------------------------------------------------------------------------
// Detailed checks on the groups of the lenient pattern

/// The text of a captured group.
pub open spec fn group(s: Seq<char>, sp: (int, int)) -> Seq<char> {
    s.subrange(sp.0, sp.1)
}

/// `t` ends with the character `c`.
pub open spec fn ends_with_char(t: Seq<char>, c: char) -> bool {
    t.len() > 0 && t.last() == c
}

/// `t` starts with the character `c`.
pub open spec fn starts_with_char(t: Seq<char>, c: char) -> bool {
    t.len() > 0 && t[0] == c
}

/// The commit type is missing, empty or unknown.
pub open spec fn commit_type_error(s: Seq<char>) -> Option<Seq<char>> {
    match type_span(s) {
        None => Some(COMMIT_TYPE_MISSING_ERROR@),
        Some(sp) => {
            let t = trim(group(s, sp));
            if t.len() == 0 {
                Some(COMMIT_TYPE_MISSING_ERROR@)
            } else if !is_commit_type(t) {
                Some(commit_type_invalid_text(t))
            } else {
                None
            }
        },
    }
}

/// The type group ends with a space.
pub open spec fn commit_type_space_error(s: Seq<char>) -> Option<Seq<char>> {
    match type_span(s) {
        Some(sp) => if ends_with_char(group(s, sp), ' ') {
            Some(SPACE_AFTER_COMMIT_TYPE_ERROR@)
        } else {
            None
        },
        None => None,
    }
}

/// The scope is empty or holds a space.
pub open spec fn scope_error(s: Seq<char>) -> Option<Seq<char>> {
    match scope_span(s) {
        Some(sp) => if group(s, sp).len() == 0 {
            Some(SCOPE_EMPTY_ERROR@)
        } else if group(s, sp).contains(' ') {
            Some(SCOPE_WHITESPACE_ERROR@)
        } else {
            None
        },
        None => None,
    }
}

/// The whitespace after the scope holds a space.
pub open spec fn scope_space_error(s: Seq<char>) -> Option<Seq<char>> {
    match space_after_scope_span(s) {
        Some(sp) => if group(s, sp).contains(' ') {
            Some(SPACE_AFTER_SCOPE_ERROR@)
        } else {
            None
        },
        None => None,
    }
}

/// The description is empty, or the colon before it is not followed by a space.
/// Nothing is reported when there is no description group at all.
pub open spec fn description_error(s: Seq<char>) -> Option<Seq<char>> {
    match description_span(s) {
        None => None,
        Some(sp) => if group(s, sp).len() == 0 {
            Some(DESCRIPTION_MISSING_ERROR@)
        } else {
            match colon_span(s) {
                None => None,
                Some(c) => if ends_with_char(group(s, c), ' ') {
                    None
                } else {
                    Some(DESCRIPTION_NO_LEADING_SPACE_ERROR@)
                },
            }
        },
    }
}

/// The description starts with a space (a second one after the colon).
pub open spec fn description_space_error(s: Seq<char>) -> Option<Seq<char>> {
    match description_span(s) {
        Some(sp) => if starts_with_char(group(s, sp), ' ') {
            Some(DESCRIPTION_MULTIPLE_SPACE_START_ERROR@)
        } else {
            None
        },
        None => None,
    }
}

/// A body follows the description after a single line break.
pub open spec fn line_break_error(s: Seq<char>) -> Option<Seq<char>> {
    if group(s, body_separation_span(s)) == seq!['\n'] && group(s, body_span(s)).len() > 0 {
        Some(DESCRIPTION_LINE_BREAK_ERROR@)
    } else {
        None
    }
}

/// The trimmed description ends with a full stop.
pub open spec fn full_stop_error(s: Seq<char>) -> Option<Seq<char>> {
    match description_span(s) {
        Some(sp) => if ends_with_char(trim(group(s, sp)), '.') {
            Some(DESCRIPTION_FULL_STOP_END_ERROR@)
        } else {
            None
        },
        None => None,
    }
}

/// The errors of the detailed checks, in order: the format error alone when
/// the header has no colon, and otherwise the error of each check that fails.
pub open spec fn detailed_errors(s: Seq<char>) -> Seq<Seq<char>> {
    if colon_span(s) is None {
        seq![INCORRECT_FORMAT_ERROR@]
    } else {
        listed(commit_type_error(s)) + listed(commit_type_space_error(s)) + listed(scope_error(s))
            + listed(scope_space_error(s)) + listed(description_error(s)) + listed(
            description_space_error(s),
        ) + listed(line_break_error(s)) + listed(full_stop_error(s))
    }
}

fn contains_space(s: &[char], a: usize, b: usize) -> (r: bool)
    requires
        a <= b <= s@.len(),
    ensures
        r == s@.subrange(a as int, b as int).contains(' '),
{
    let mut i = a;
    while i < b
        invariant
            a <= i <= b <= s@.len(),
            forall|k: int| a <= k < i ==> #[trigger] s@[k] != ' ',
        decreases b - i,
    {
        if s[i] == ' ' {
            assert(s@.subrange(a as int, b as int)[i - a] == ' ');
            return true;
        }
        i = i + 1;
    }
    assert forall|k: int| 0 <= k < b - a implies #[trigger] s@.subrange(a as int, b as int)[k] != ' ' by {
        assert(s@.subrange(a as int, b as int)[k] == s@[a + k]);
    }
    false
}

fn validate_commit_type(s: &[char], c: &Captures) -> (r: Option<String>)
    requires
        c.of(s@),
        c.within(s@.len() as int),
    ensures
        opt_view(r) == commit_type_error(s@),
{
    match c.commit_type {
        None => Some(COMMIT_TYPE_MISSING_ERROR.to_owned()),
        Some((a, b)) => {
            let g = slice_chars(s, a, b);
            let (x, y) = trim_bounds(&g);
            let t = slice_chars(&g, x, y);
            if t.len() == 0 {
                Some(COMMIT_TYPE_MISSING_ERROR.to_owned())
            } else if !is_known_commit_type(&t) {
                Some(commit_type_invalid_error_of(&t))
            } else {
                None
            }
        },
    }
}

fn validate_commit_type_no_space_after(s: &[char], c: &Captures) -> (r: Option<String>)
    requires
        c.of(s@),
        c.within(s@.len() as int),
    ensures
        opt_view(r) == commit_type_space_error(s@),
{
    match c.commit_type {
        Some((a, b)) => {
            if b > a && s[b - 1] == ' ' {
                Some(SPACE_AFTER_COMMIT_TYPE_ERROR.to_owned())
            } else {
                None
            }
        },
        None => None,
    }
}

fn validate_scope(s: &[char], c: &Captures) -> (r: Option<String>)
    requires
        c.of(s@),
        c.within(s@.len() as int),
    ensures
        opt_view(r) == scope_error(s@),
{
    match c.scope {
        Some((a, b)) => {
            if a == b {
                Some(SCOPE_EMPTY_ERROR.to_owned())
            } else if contains_space(s, a, b) {
                Some(SCOPE_WHITESPACE_ERROR.to_owned())
            } else {
                None
            }
        },
        None => None,
    }
}

fn validate_scope_no_space_after(s: &[char], c: &Captures) -> (r: Option<String>)
    requires
        c.of(s@),
        c.within(s@.len() as int),
    ensures
        opt_view(r) == scope_space_error(s@),
{
    match c.space_after_scope {
        Some((a, b)) => {
            if contains_space(s, a, b) {
                Some(SPACE_AFTER_SCOPE_ERROR.to_owned())
            } else {
                None
            }
        },
        None => None,
    }
}

fn validate_description(s: &[char], c: &Captures) -> (r: Option<String>)
    requires
        c.of(s@),
        c.within(s@.len() as int),
    ensures
        opt_view(r) == description_error(s@),
{
    match c.description {
        None => None,
        Some((a, b)) => {
            if a == b {
                return Some(DESCRIPTION_MISSING_ERROR.to_owned());
            }
            match c.colon {
                None => None,
                Some((x, y)) => {
                    if y > x && s[y - 1] == ' ' {
                        None
                    } else {
                        Some(DESCRIPTION_NO_LEADING_SPACE_ERROR.to_owned())
                    }
                },
            }
        },
    }
}

fn validate_description_no_multiple_whitespace(s: &[char], c: &Captures) -> (r: Option<String>)
    requires
        c.of(s@),
        c.within(s@.len() as int),
    ensures
        opt_view(r) == description_space_error(s@),
{
    match c.description {
        Some((a, b)) => {
            if b > a && s[a] == ' ' {
                Some(DESCRIPTION_MULTIPLE_SPACE_START_ERROR.to_owned())
            } else {
                None
            }
        },
        None => None,
    }
}

fn validate_description_no_line_break(s: &[char], c: &Captures) -> (r: Option<String>)
    requires
        c.of(s@),
        c.within(s@.len() as int),
    ensures
        opt_view(r) == line_break_error(s@),
{
    let (a, b) = c.body_separation;
    let (x, y) = c.body;
    let single = b > a && b - a == 1 && s[a] == '\n';
    proof {
        let g = s@.subrange(a as int, b as int);
        if g == seq!['\n'] {
            assert(g.len() == 1 && g[0] == '\n');
        }
        if single {
            assert(g =~= seq!['\n']);
        }
    }
    if single && y > x {
        Some(DESCRIPTION_LINE_BREAK_ERROR.to_owned())
    } else {
        None
    }
}

fn validate_description_no_full_stop_at_end(s: &[char], c: &Captures) -> (r: Option<String>)
    requires
        c.of(s@),
        c.within(s@.len() as int),
    ensures
        opt_view(r) == full_stop_error(s@),
{
    match c.description {
        Some((a, b)) => {
            let g = slice_chars(s, a, b);
            let (x, y) = trim_bounds(&g);
            if y > x && g[y - 1] == '.' {
                Some(DESCRIPTION_FULL_STOP_END_ERROR.to_owned())
            } else {
                None
            }
        },
        None => None,
    }
}

/// The errors of the detailed checks on `message`.
pub fn validate_detailed_pattern(message: &str) -> (errors: Vec<String>)
    ensures
        views(errors@) == detailed_errors(message@),
{
    let s = chars_of(message);
    let c = lenient_captures(&s);
    let mut errors: Vec<String> = Vec::new();
    if c.colon.is_none() {
        errors.push(INCORRECT_FORMAT_ERROR.to_owned());
        assert(views(errors@) =~= seq![INCORRECT_FORMAT_ERROR@]);
        return errors;
    }
    assert(views(errors@) =~= Seq::<Seq<char>>::empty());
    push_error(&mut errors, validate_commit_type(&s, &c));
    push_error(&mut errors, validate_commit_type_no_space_after(&s, &c));
    push_error(&mut errors, validate_scope(&s, &c));
    push_error(&mut errors, validate_scope_no_space_after(&s, &c));
    push_error(&mut errors, validate_description(&s, &c));
    push_error(&mut errors, validate_description_no_multiple_whitespace(&s, &c));
    push_error(&mut errors, validate_description_no_line_break(&s, &c));
    push_error(&mut errors, validate_description_no_full_stop_at_end(&s, &c));
    assert(views(errors@) =~= detailed_errors(s@));
    errors
}


// ---------------------------------------------------------------------------
// All validators

/// The verdict on `s` and the errors reported, in order. A header longer than
/// `max` (when a limit is given) is reported first, followed by the detailed
/// errors unless details are skipped. Otherwise, with details skipped, only
/// the strict pattern decides; without, the detailed checks decide.
pub open spec fn validation(s: Seq<char>, skip_detail: bool, max: Option<usize>) -> (bool, Seq<Seq<char>>) {
    if max is Some && header_too_long(s, max->0 as nat) {
        let e = seq![header_length_text(max->0 as nat)];
        if skip_detail {
            (false, e)
        } else {
            (false, e + detailed_errors(s))
        }
    } else if skip_detail {
        if strict_match(s) {
            (true, seq![])
        } else {
            (false, seq![INCORRECT_FORMAT_ERROR@])
        }
    } else {
        (detailed_errors(s).len() == 0, detailed_errors(s))
    }
}

/// Runs the validators on `message`: whether it passes, and the errors found.
/// It passes exactly when no error is reported, and with details skipped at
/// most one error is reported.
pub fn run_validators(message: &str, skip_detail: bool, max_header_length: Option<usize>) -> (r: (
    bool,
    Vec<String>,
))
    ensures
        r.0 == validation(message@, skip_detail, max_header_length).0,
        views(r.1@) == validation(message@, skip_detail, max_header_length).1,
        r.0 <==> r.1@.len() == 0,
        skip_detail ==> r.1@.len() <= 1,
{
    if let Some(max) = max_header_length {
        if let Some(error) = validate_header_length(message, max) {
            if skip_detail {
                let errors = vec![error];
                assert(views(errors@) =~= seq![header_length_text(max as nat)]);
                return (false, errors);
            }
            let mut errors = vec![error];
            let detailed = validate_detailed_pattern(message);
            let ghost first = views(errors@);
            let mut i: usize = 0;
            while i < detailed.len()
                invariant
                    i <= detailed@.len(),
                    views(errors@) == first + views(detailed@).subrange(0, i as int),
                    errors@.len() == 1 + i,
                decreases detailed.len() - i,
            {
                let ghost prev = errors@;
                errors.push(detailed[i].clone());
                assert(errors@ == prev.push(detailed@[i as int]));
                assert(views(errors@) =~= views(prev).push(detailed@[i as int]@));
                assert(views(detailed@).subrange(0, i + 1) =~= views(detailed@).subrange(0, i as int).push(detailed@[i as int]@));
                i = i + 1;
            }
            assert(views(detailed@).subrange(0, detailed@.len() as int) =~= views(detailed@));
            let empty = errors.len() == 0;
            return (empty, errors);
        }
    }
    if skip_detail {
        if let Some(error) = validate_simple_pattern(message) {
            let errors = vec![error];
            assert(views(errors@) =~= seq![INCORRECT_FORMAT_ERROR@]);
            return (false, errors);
        }
        let errors: Vec<String> = Vec::new();
        assert(views(errors@) =~= Seq::<Seq<char>>::empty());
        return (true, errors);
    }
    let errors = validate_detailed_pattern(message);
    let empty = errors.len() == 0;
    (empty, errors)
}

} // verus!

//! Laws of the library: properties that span several functions or hold of
//! all inputs, proved over the specifications the functions are held to.

use vstd::prelude::*;
use crate::command::{Stream, batch_report, batch_state, error_report, fails, single_report};
use crate::config::Config;
use crate::constants::{COMMIT_TYPES, is_commit_type};
use crate::git_helpers::{lemma_nul_from, log_messages_from, nul_from};
use crate::grammar::{
    bang_end, body_separation_span, body_span, colon_end, colon_span, description_span,
    has_scope, is_line_break, lemma_text_run_end, lemma_word_run_end, lemma_ws_run_end,
    scope_end, scope_span, space_after_scope_span, strict_match, type_end, type_span,
};
use crate::messages::{
    COMMIT_TYPE_INVALID_PREFIX, COMMIT_TYPE_MISSING_ERROR, DESCRIPTION_FULL_STOP_END_ERROR,
    DESCRIPTION_LINE_BREAK_ERROR, DESCRIPTION_MISSING_ERROR, DESCRIPTION_MULTIPLE_SPACE_START_ERROR,
    DESCRIPTION_NO_LEADING_SPACE_ERROR, INCORRECT_FORMAT_ERROR, SCOPE_EMPTY_ERROR,
    SCOPE_WHITESPACE_ERROR, SPACE_AFTER_COMMIT_TYPE_ERROR, SPACE_AFTER_SCOPE_ERROR,
    commit_type_invalid_text,
};
use crate::linter::{LintOutcome, lint_outcome, prepared};
use crate::text::{
    all_ws, is_word_class, is_ws, lemma_trim_idempotent, occurs_at, trim, trim_end, trim_start,
};
use crate::utils::{
    SCISSORS_LINE, before_diff, ignored, is_comment_line, join_lines, lemma_newline_from,
    scissors_from, uncommented_lines_from, without_comments, word_end, bump_at,
};
use crate::validators::{
    listed,
    commit_type_error, commit_type_space_error, description_error, description_space_error,
    detailed_errors, first_line, full_stop_error, line_break_error, newline_from, scope_error,
    scope_space_error, utf8_len, validation,
};

verus! {

/// `t` is made of at least two lowercase ASCII letters.
pub open spec fn lowercase_word(t: Seq<char>) -> bool {
    t.len() >= 2 && forall|i: int| 0 <= i < t.len() ==> 'a' <= #[trigger] t[i] <= 'z'
}

/// Every commit type is a lowercase word.
pub proof fn lemma_commit_types_are_words(k: int)
    requires
        0 <= k < 12,
    ensures
        lowercase_word(COMMIT_TYPES@[k]@),
{
    if k == 0 {
        reveal_strlit("build");
        assert("build"@ =~= seq!['b', 'u', 'i', 'l', 'd']);
    } else if k == 1 {
        reveal_strlit("ci");
        assert("ci"@ =~= seq!['c', 'i']);
    } else if k == 2 {
        reveal_strlit("docs");
        assert("docs"@ =~= seq!['d', 'o', 'c', 's']);
    } else if k == 3 {
        reveal_strlit("feat");
        assert("feat"@ =~= seq!['f', 'e', 'a', 't']);
    } else if k == 4 {
        reveal_strlit("fix");
        assert("fix"@ =~= seq!['f', 'i', 'x']);
    } else if k == 5 {
        reveal_strlit("perf");
        assert("perf"@ =~= seq!['p', 'e', 'r', 'f']);
    } else if k == 6 {
        reveal_strlit("refactor");
        assert("refactor"@ =~= seq!['r', 'e', 'f', 'a', 'c', 't', 'o', 'r']);
    } else if k == 7 {
        reveal_strlit("style");
        assert("style"@ =~= seq!['s', 't', 'y', 'l', 'e']);
    } else if k == 8 {
        reveal_strlit("test");
        assert("test"@ =~= seq!['t', 'e', 's', 't']);
    } else if k == 9 {
        reveal_strlit("chore");
        assert("chore"@ =~= seq!['c', 'h', 'o', 'r', 'e']);
    } else if k == 10 {
        reveal_strlit("revert");
        assert("revert"@ =~= seq!['r', 'e', 'v', 'e', 'r', 't']);
    } else {
        reveal_strlit("bump");
        assert("bump"@ =~= seq!['b', 'u', 'm', 'p']);
    }
}

/// A one-line description that neither starts nor ends with whitespace and
/// does not end with a full stop.
pub open spec fn plain_description(d: Seq<char>) -> bool {
    &&& d.len() > 0
    &&& !is_ws(d[0])
    &&& !is_ws(d.last())
    &&& d.last() != '.'
    &&& forall|i: int| 0 <= i < d.len() ==> !is_line_break(#[trigger] d[i])
}

/// The header `<t>: <d>`.
pub open spec fn header(t: Seq<char>, d: Seq<char>) -> Seq<char> {
    t + seq![':', ' '] + d
}

proof fn lemma_trim_plain(x: Seq<char>)
    requires
        x.len() > 0 ==> !is_ws(x[0]) && !is_ws(x.last()),
    ensures
        trim(x) == x,
{
    assert(trim_start(x) == x);
    assert(trim_end(x) == x);
}

/// A literal that starts with a lowercase word and a space does not start
/// `<t>:` when `t` is a lowercase word.
proof fn lemma_not_word_space_prefix(s: Seq<char>, t: Seq<char>, lit: Seq<char>, m: int)
    requires
        lowercase_word(t),
        s.len() > t.len(),
        s.subrange(0, t.len() as int) == t,
        s[t.len() as int] == ':',
        0 < m < lit.len(),
        forall|j: int| 0 <= j < m ==> 'a' <= #[trigger] lit[j] <= 'z',
        lit[m] == ' ',
    ensures
        !occurs_at(s, lit, 0),
{
    if occurs_at(s, lit, 0) {
        let p = t.len() as int;
        assert(s.subrange(0, lit.len() as int) == lit);
        if p < m {
            assert(s[p] == lit[p]);
        } else if p == m {
            assert(s[m] == lit[m]);
        } else {
            assert(s[m] == t[m]);
            assert(s[m] == lit[m]);
        }
    }
}

/// A literal that starts with an uppercase letter does not start a message
/// that starts with a lowercase letter.
proof fn lemma_not_upper_prefix(s: Seq<char>, lit: Seq<char>)
    requires
        s.len() > 0,
        'a' <= s[0] <= 'z',
        lit.len() > 0,
        'A' <= lit[0] <= 'Z',
    ensures
        !occurs_at(s, lit, 0),
{
    if occurs_at(s, lit, 0) {
        assert(s.subrange(0, lit.len() as int)[0] == s[0]);
    }
}

proof fn lemma_header_not_ignored(t: Seq<char>, d: Seq<char>)
    requires
        lowercase_word(t),
        d.len() > 0,
    ensures
        !ignored(header(t, d)),
{
    let s = header(t, d);
    let p = t.len() as int;
    assert(s.subrange(0, p) =~= t);
    assert(s[p] == ':');
    assert('a' <= s[0] <= 'z') by {
        assert(s[0] == t[0]);
    }
    reveal_strlit("Merge pull request");
    reveal_strlit("Merge ");
    reveal_strlit("Merge branch ");
    reveal_strlit("Merge tag ");
    reveal_strlit("Revert ");
    reveal_strlit("revert ");
    reveal_strlit("Merged ");
    reveal_strlit("Merged PR ");
    reveal_strlit("Merge remote-tracking branch");
    reveal_strlit("Automatic merge");
    reveal_strlit("Auto-merged ");
    reveal_strlit("Bump ");
    reveal_strlit("bump ");
    reveal_strlit("Initial commit");
    reveal_strlit("initial commit");
    reveal_strlit("Initial Commit");
    reveal_strlit("initial Commit");
    lemma_not_upper_prefix(s, "Merge pull request"@);
    lemma_not_upper_prefix(s, "Merge "@);
    lemma_not_upper_prefix(s, "Merge branch "@);
    lemma_not_upper_prefix(s, "Merge tag "@);
    lemma_not_upper_prefix(s, "Revert "@);
    lemma_not_upper_prefix(s, "Merged "@);
    lemma_not_upper_prefix(s, "Merged PR "@);
    lemma_not_upper_prefix(s, "Merge remote-tracking branch"@);
    lemma_not_upper_prefix(s, "Automatic merge"@);
    lemma_not_upper_prefix(s, "Auto-merged "@);
    lemma_not_upper_prefix(s, "Bump "@);
    lemma_not_word_space_prefix(s, t, "revert "@, 6);
    lemma_not_word_space_prefix(s, t, "bump "@, 4);
    if s == "Initial commit"@ {
        assert(s[0] == 'I');
    }
    if s == "Initial Commit"@ {
        assert(s[0] == 'I');
    }
    if s == "initial commit"@ {
        assert(s.subrange(0, "initial commit"@.len() as int) =~= s);
        lemma_not_word_space_prefix(s, t, "initial commit"@, 7);
    }
    if s == "initial Commit"@ {
        assert(s.subrange(0, "initial Commit"@.len() as int) =~= s);
        lemma_not_word_space_prefix(s, t, "initial Commit"@, 7);
    }
}


proof fn lemma_header_spans(t: Seq<char>, d: Seq<char>)
    requires
        lowercase_word(t),
        plain_description(d),
    ensures
        ({
            let s = header(t, d);
            let p = t.len() as int;
            &&& type_span(s) == Some((0int, p))
            &&& scope_span(s) is None
            &&& space_after_scope_span(s) is None
            &&& colon_span(s) == Some((p, p + 2))
            &&& description_span(s) == Some((p + 2, s.len() as int))
            &&& body_separation_span(s) == (s.len() as int, s.len() as int)
            &&& body_span(s) == (s.len() as int, s.len() as int)
        }),
{
    let s = header(t, d);
    let p = t.len() as int;
    let n = s.len() as int;
    assert forall|k: int| 0 <= k < p implies is_word_class(#[trigger] s[k]) by {
        assert(s[k] == t[k]);
        assert('a' <= t[k] <= 'z');
    }
    assert(s[p] == ':');
    assert(!is_word_class(s[p]));
    lemma_word_run_end(s, 0, p);
    lemma_ws_run_end(s, p, p);
    assert(type_end(s) == p);
    assert(!has_scope(s));
    assert(scope_end(s) == p);
    assert(bang_end(s) == p);
    assert(s[p + 1] == ' ');
    assert(colon_span(s) == Some((p, p + 2)));
    assert(colon_end(s) == p + 2);
    assert forall|k: int| p + 2 <= k < n implies !is_line_break(#[trigger] s[k]) by {
        assert(s[k] == d[k - p - 2]);
    }
    lemma_text_run_end(s, p + 2, n);
}

/// A header of a known commit type, a colon, a space and a one-line
/// description that neither starts nor ends with whitespace nor ends with a
/// full stop passes the validators: the detailed checks report nothing, the
/// strict pattern accepts it when the description has at least three
/// characters, and a header limit it fits in is respected.
pub proof fn law_known_type_header_passes(k: int, d: Seq<char>, skip_detail: bool, max: Option<usize>)
    requires
        0 <= k < 12,
        plain_description(d),
        skip_detail ==> d.len() >= 3,
        max is Some ==> utf8_len(header(COMMIT_TYPES@[k]@, d)) <= max->0,
    ensures
        validation(header(COMMIT_TYPES@[k]@, d), skip_detail, max).0,
        validation(header(COMMIT_TYPES@[k]@, d), skip_detail, max).1.len() == 0,
        !ignored(header(COMMIT_TYPES@[k]@, d)),
        !all_ws(header(COMMIT_TYPES@[k]@, d)),
{
    let t = COMMIT_TYPES@[k]@;
    lemma_commit_types_are_words(k);
    let s = header(t, d);
    let p = t.len() as int;
    let n = s.len() as int;
    lemma_header_not_ignored(t, d);
    assert(s[0] == t[0]);
    assert(!all_ws(s));
    // The header is the whole message.
    assert forall|j: int| 0 <= j < n implies #[trigger] s[j] != '\n' by {
        if j < p {
            assert(s[j] == t[j]);
        } else if j >= p + 2 {
            assert(s[j] == d[j - p - 2]);
        }
    }
    assert(newline_from(s, 0) == n) by {
        lemma_newline_scan(s, 0);
    }
    assert(first_line(s) =~= s);
    // Detailed checks.
    lemma_header_spans(t, d);
    assert(s.subrange(0, p) =~= t);
    lemma_trim_plain(t);
    assert(is_commit_type(t));
    assert(commit_type_error(s) is None);
    assert(commit_type_space_error(s) is None);
    assert(scope_error(s) is None);
    assert(scope_space_error(s) is None);
    assert(s.subrange(p + 2, n) =~= d);
    assert(s.subrange(p, p + 2) =~= seq![':', ' ']);
    assert(description_error(s) is None);
    assert(description_space_error(s) is None);
    assert(s.subrange(n, n).len() == 0);
    assert(line_break_error(s) is None);
    lemma_trim_plain(d);
    assert(full_stop_error(s) is None);
    assert(detailed_errors(s) =~= Seq::<Seq<char>>::empty());
    // The strict pattern.
    if skip_detail {
        assert(occurs_at(s, t, 0));
        let q = n - 1;
        assert(s[q] == d.last());
        assert forall|j: int| p + 3 <= j < q implies !is_line_break(#[trigger] s[j]) by {
            assert(s[j] == d[j - p - 2]);
        }
        assert(s.subrange(n, n) =~= Seq::<char>::empty());
        assert(crate::grammar::strict_tail(s, q + 1));
        assert(s[p + 2] == d[0]);
        assert(crate::grammar::strict_description_at(s, p + 2));
        assert(crate::grammar::strict_after_type(s, p));
        assert(strict_match(s));
    }
}

proof fn lemma_newline_scan(s: Seq<char>, i: int)
    requires
        0 <= i <= s.len(),
        forall|j: int| i <= j < s.len() ==> #[trigger] s[j] != '\n',
    ensures
        newline_from(s, i) == s.len(),
    decreases s.len() - i,
{
    if i < s.len() {
        lemma_newline_scan(s, i + 1);
    }
}

/// Linting a header of a known commit type, a colon, a space and a one-line
/// description that neither starts nor ends with whitespace nor ends with a
/// full stop finds it valid, with or without details (a strict check needs a
/// description of at least three characters), when comments are kept and the
/// header fits any limit.
pub proof fn law_known_type_header_is_valid(k: int, d: Seq<char>, options: Config)
    requires
        0 <= k < 12,
        plain_description(d),
        options.skip_detail ==> d.len() >= 3,
        !options.strip_comments,
        options.max_header_length is Some ==> utf8_len(header(COMMIT_TYPES@[k]@, d))
            <= options.max_header_length->0,
    ensures
        lint_outcome(header(COMMIT_TYPES@[k]@, d), options) == LintOutcome::Valid,
{
    law_known_type_header_passes(k, d, options.skip_detail, options.max_header_length);
}


/// Some message of `ms` is empty or invalid.
pub open spec fn some_message_fails(ms: Seq<Seq<char>>, options: Config) -> bool {
    exists|i: int| 0 <= i < ms.len() && fails(#[trigger] lint_outcome(ms[i], options))
}

proof fn lemma_batch_state_fails(ms: Seq<Seq<char>>, options: Config)
    ensures
        (batch_state(ms, options).1 || batch_state(ms, options).2) <==> some_message_fails(ms, options),
    decreases ms.len(),
{
    if ms.len() > 0 {
        let prefix = ms.drop_last();
        lemma_batch_state_fails(prefix, options);
        let last = ms.len() - 1;
        if some_message_fails(prefix, options) {
            let i = choose|i: int| 0 <= i < prefix.len() && fails(#[trigger] lint_outcome(prefix[i], options));
            assert(ms[i] == prefix[i]);
        }
        if some_message_fails(ms, options) {
            let i = choose|i: int| 0 <= i < ms.len() && fails(#[trigger] lint_outcome(ms[i], options));
            if i < last {
                assert(prefix[i] == ms[i]);
            }
        }
        assert(ms[last] == ms.last());
    }
}

/// Linting a range of commits fails exactly when one of its messages is
/// empty or invalid; otherwise the run ends with the success line. Ignored
/// messages never fail a range.
pub proof fn law_range_fails_iff_a_message_fails(ms: Seq<Seq<char>>, options: Config)
    ensures
        batch_report(ms, options).1 <==> some_message_fails(ms, options),
        !batch_report(ms, options).1 ==> batch_report(ms, options).0.last() == (
            crate::command::Stream::Success,
            crate::messages::VALIDATION_SUCCESSFUL@,
        ),
{
    lemma_batch_state_fails(ms, options);
}


/// Every message read from a log of commits is trimmed and not empty.
pub proof fn law_log_messages_are_trimmed(s: Seq<char>, from: int)
    ensures
        forall|i: int|
            0 <= i < log_messages_from(s, from).len() ==> {
                let m = #[trigger] log_messages_from(s, from)[i];
                m == trim(m) && m.len() > 0
            },
    decreases s.len() - from,
{
    if 0 <= from <= s.len() {
        let i = nul_from(s, from);
        lemma_nul_from(s, from);
        let entry = trim(s.subrange(from, i));
        lemma_trim_idempotent(s.subrange(from, i));
        if i < s.len() {
            law_log_messages_are_trimmed(s, i + 1);
        }
        let rest = if i < s.len() { log_messages_from(s, i + 1) } else { Seq::<Seq<char>>::empty() };
        let all = log_messages_from(s, from);
        assert forall|j: int| 0 <= j < all.len() implies {
            let m = #[trigger] all[j];
            m == trim(m) && m.len() > 0
        } by {
            if entry.len() == 0 {
                assert(all[j] == rest[j]);
            } else if j == 0 {
                assert(all[j] == entry);
            } else {
                assert(all[j] == rest[j - 1]);
            }
        }
    }
}


/// No line of `s` is a comment line and the scissors line occurs nowhere in `s`.
pub open spec fn free_of_comments(s: Seq<char>) -> bool {
    &&& (s.len() > 0 ==> s[0] != '#')
    &&& forall|i: int| 0 <= i < s.len() - 1 && s[i] == '\n' ==> #[trigger] s[i + 1] != '#'
    &&& forall|k: int| !#[trigger] occurs_at(s, SCISSORS_LINE@, k)
}

proof fn lemma_no_scissors(s: Seq<char>, i: int)
    requires
        0 <= i,
        forall|k: int| !#[trigger] occurs_at(s, SCISSORS_LINE@, k),
    ensures
        scissors_from(s, i) == s.len(),
    decreases s.len() - i,
{
    if i < s.len() && i + SCISSORS_LINE@.len() <= s.len() {
        assert(!occurs_at(s, SCISSORS_LINE@, i));
        lemma_no_scissors(s, i + 1);
    }
}

proof fn lemma_lines_rejoin(s: Seq<char>, from: int)
    requires
        0 <= from <= s.len(),
        from == 0 || s[from - 1] == '\n',
        s.len() > 0 ==> s[0] != '#',
        forall|i: int| 0 <= i < s.len() - 1 && s[i] == '\n' ==> #[trigger] s[i + 1] != '#',
    ensures
        join_lines(uncommented_lines_from(s, from)) == s.subrange(from, s.len() as int),
        uncommented_lines_from(s, from).len() > 0,
    decreases s.len() - from,
{
    let i = crate::validators::newline_from(s, from);
    lemma_newline_from(s, from);
    let line = s.subrange(from, i);
    if line.len() > 0 {
        if from > 0 {
            assert(s[from - 1] == '\n');
            assert(s[(from - 1) + 1] != '#');
        }
        assert(line[0] == s[from]);
    }
    assert(!is_comment_line(line));
    if i < s.len() {
        lemma_lines_rejoin(s, i + 1);
        let rest = uncommented_lines_from(s, i + 1);
        let all = seq![line] + rest;
        assert(uncommented_lines_from(s, from) == all);
        assert(all.drop_first() =~= rest);
        assert(join_lines(all) == line + seq!['\n'] + join_lines(rest));
        assert(s.subrange(from, s.len() as int) =~= line + seq!['\n'] + s.subrange(i + 1, s.len() as int));
    } else {
        assert(uncommented_lines_from(s, from) == seq![line]);
    }
}

/// Removing comments leaves a message that has no comment line and no
/// scissors line unchanged, so such a message gets the same verdict and the
/// same errors whether comments are stripped or not.
pub proof fn law_stripping_keeps_messages_without_comments(s: Seq<char>, options: Config)
    requires
        free_of_comments(s),
    ensures
        without_comments(s) == s,
        prepared(s, options) == s,
{
    lemma_no_scissors(s, 0);
    assert(before_diff(s) =~= s);
    lemma_lines_rejoin(s, 0);
    assert(s.subrange(0, s.len() as int) =~= s);
}


/// Which detailed check an error text belongs to: 1 to 8 in check order,
/// 0 for anything else (the format error among them).
pub open spec fn check_of(e: Seq<char>) -> int {
    if e.len() > 0 && e[0] == 'I' {
        1
    } else if e.len() == 16 {
        1
    } else if e.len() == 37 {
        2
    } else if e.len() == 24 || e.len() == 34 {
        3
    } else if e.len() == 38 {
        4
    } else if e.len() == 23 || (e.len() == 52 && e[17] == 's') {
        5
    } else if e.len() == 52 {
        6
    } else if e.len() == 55 {
        7
    } else if e.len() == 42 {
        8
    } else {
        0
    }
}

/// Every error of `l` belongs to check `k`, and there is at most one.
spec fn from_check(l: Seq<Seq<char>>, k: int) -> bool {
    l.len() <= 1 && forall|i: int| 0 <= i < l.len() ==> check_of(#[trigger] l[i]) == k
}

/// The errors of `e` belong to checks below `k`, in strictly increasing check order.
spec fn ordered_below(e: Seq<Seq<char>>, k: int) -> bool {
    &&& forall|i: int| 0 <= i < e.len() ==> 1 <= check_of(#[trigger] e[i]) < k
    &&& forall|i: int, j: int| 0 <= i < j < e.len() ==> check_of(#[trigger] e[i]) < check_of(#[trigger] e[j])
    &&& e.len() < k
}

proof fn lemma_append_check(e: Seq<Seq<char>>, l: Seq<Seq<char>>, k: int)
    requires
        1 <= k,
        ordered_below(e, k),
        from_check(l, k),
    ensures
        ordered_below(e + l, k + 1),
{
    let r = e + l;
    assert forall|i: int| 0 <= i < r.len() implies 1 <= check_of(#[trigger] r[i]) < k + 1 by {
        if i >= e.len() {
            assert(r[i] == l[i - e.len()]);
        }
    }
    assert forall|i: int, j: int| 0 <= i < j < r.len() implies check_of(#[trigger] r[i]) < check_of(#[trigger] r[j]) by {
        if j >= e.len() {
            assert(r[j] == l[j - e.len()]);
            if i >= e.len() {
                assert(false);
            }
        }
    }
}

proof fn lemma_listed_from(o: Option<Seq<char>>, k: int)
    requires
        o is Some ==> check_of(o->0) == k,
    ensures
        from_check(listed(o), k),
{
}

proof fn lemma_error_texts()
    ensures
        check_of(COMMIT_TYPE_MISSING_ERROR@) == 1,
        check_of(SPACE_AFTER_COMMIT_TYPE_ERROR@) == 2,
        check_of(SCOPE_EMPTY_ERROR@) == 3,
        check_of(SCOPE_WHITESPACE_ERROR@) == 3,
        check_of(SPACE_AFTER_SCOPE_ERROR@) == 4,
        check_of(DESCRIPTION_MISSING_ERROR@) == 5,
        check_of(DESCRIPTION_NO_LEADING_SPACE_ERROR@) == 5,
        check_of(DESCRIPTION_MULTIPLE_SPACE_START_ERROR@) == 6,
        check_of(DESCRIPTION_LINE_BREAK_ERROR@) == 7,
        check_of(DESCRIPTION_FULL_STOP_END_ERROR@) == 8,
        check_of(INCORRECT_FORMAT_ERROR@) == 0,
        forall|t: Seq<char>| check_of(#[trigger] commit_type_invalid_text(t)) == 1,
{
    reveal_strlit("Type is missing.");
    reveal_strlit("Type must not be followed by a space.");
    reveal_strlit("Scope must not be empty.");
    reveal_strlit("Scope must not contain whitespace.");
    reveal_strlit("Scope must not be followed by a space.");
    reveal_strlit("Description is missing.");
    reveal_strlit("Description must start with a space after the colon.");
    reveal_strlit("Description must not start with more than one space.");
    reveal_strlit("Description and body must be separated by a blank line.");
    reveal_strlit("Description must not end with a full stop.");
    reveal_strlit("Commit message does not follow the Conventional Commits format.");
    reveal_strlit("Invalid commit type '");
    assert forall|t: Seq<char>| check_of(#[trigger] commit_type_invalid_text(t)) == 1 by {
        assert(commit_type_invalid_text(t)[0] == COMMIT_TYPE_INVALID_PREFIX@[0]);
    }
}

/// The detailed checks report either the format error alone, or at most one
/// error per check, in check order (type, space after the type, scope, space
/// after the scope, description, leading spaces, line break, full stop); so
/// at most eight errors, none twice, and the format error never among others.
pub proof fn law_detailed_errors_in_check_order(s: Seq<char>)
    ensures
        detailed_errors(s).len() <= 8,
        detailed_errors(s).no_duplicates(),
        detailed_errors(s).contains(INCORRECT_FORMAT_ERROR@) ==> detailed_errors(s) == seq![
            INCORRECT_FORMAT_ERROR@,
        ],
        colon_span(s) is Some ==> forall|i: int, j: int|
            0 <= i < j < detailed_errors(s).len() ==> 1 <= check_of(#[trigger] detailed_errors(s)[i])
                < check_of(#[trigger] detailed_errors(s)[j]) <= 8,
{
    lemma_error_texts();
    let e = detailed_errors(s);
    if colon_span(s) is None {
        assert(e == seq![INCORRECT_FORMAT_ERROR@]);
        assert(e.no_duplicates());
    } else {
        let e0 = Seq::<Seq<char>>::empty();
        lemma_listed_from(commit_type_error(s), 1);
        lemma_append_check(e0, listed(commit_type_error(s)), 1);
        let e1 = e0 + listed(commit_type_error(s));
        lemma_listed_from(commit_type_space_error(s), 2);
        lemma_append_check(e1, listed(commit_type_space_error(s)), 2);
        let e2 = e1 + listed(commit_type_space_error(s));
        lemma_listed_from(scope_error(s), 3);
        lemma_append_check(e2, listed(scope_error(s)), 3);
        let e3 = e2 + listed(scope_error(s));
        lemma_listed_from(scope_space_error(s), 4);
        lemma_append_check(e3, listed(scope_space_error(s)), 4);
        let e4 = e3 + listed(scope_space_error(s));
        lemma_listed_from(description_error(s), 5);
        lemma_append_check(e4, listed(description_error(s)), 5);
        let e5 = e4 + listed(description_error(s));
        lemma_listed_from(description_space_error(s), 6);
        lemma_append_check(e5, listed(description_space_error(s)), 6);
        let e6 = e5 + listed(description_space_error(s));
        lemma_listed_from(line_break_error(s), 7);
        lemma_append_check(e6, listed(line_break_error(s)), 7);
        let e7 = e6 + listed(line_break_error(s));
        lemma_listed_from(full_stop_error(s), 8);
        lemma_append_check(e7, listed(full_stop_error(s)), 8);
        let e8 = e7 + listed(full_stop_error(s));
        assert(e8 =~= e);
        assert forall|i: int, j: int| 0 <= i < e.len() && 0 <= j < e.len() && i != j implies e[i] != e[j] by {
            if i < j {
                assert(check_of(e[i]) < check_of(e[j]));
            } else {
                assert(check_of(e[j]) < check_of(e[i]));
            }
        }
        if e.contains(INCORRECT_FORMAT_ERROR@) {
            let i = choose|i: int| 0 <= i < e.len() && e[i] == INCORRECT_FORMAT_ERROR@;
            assert(check_of(e[i]) >= 1);
        }
    }
}


// ---------------------------------------------------------------------------
// Comment stripping comes before every other decision

/// With comment stripping on, the verdict is the verdict on the message with
/// its comment lines (and verbose diff) removed, linted without stripping: in
/// particular a message whose uncommented text is empty is empty, and one
/// whose uncommented text is a merge, revert, bump or initial commit is ignored.
pub proof fn law_stripped_verdict_is_verdict_on_uncommented_text(s: Seq<char>, options: Config)
    requires
        options.strip_comments,
    ensures
        lint_outcome(s, options) == lint_outcome(
            without_comments(s),
            Config { strip_comments: false, ..options },
        ),
        ignored(without_comments(s)) && !all_ws(without_comments(s)) ==> lint_outcome(s, options)
            == LintOutcome::Ignored,
        all_ws(without_comments(s)) ==> lint_outcome(s, options) == LintOutcome::Empty,
{
}

// ---------------------------------------------------------------------------
// Git log entries are delimited by NUL alone

proof fn lemma_nul_scan(s: Seq<char>, i: int, j: int)
    requires
        0 <= i <= j <= s.len(),
        forall|k: int| i <= k < j ==> #[trigger] s[k] != '\0',
        j == s.len() || s[j] == '\0',
    ensures
        nul_from(s, i) == j,
    decreases j - i,
{
    if i < j {
        lemma_nul_scan(s, i + 1, j);
    }
}

/// A log entry `e` (any text without NUL, newlines included) followed by its
/// NUL terminator yields exactly one message, `trim(e)`, when that is not
/// empty, and no message otherwise; without the terminator the same holds.
pub proof fn law_log_entry_is_one_message(e: Seq<char>)
    requires
        forall|k: int| 0 <= k < e.len() ==> #[trigger] e[k] != '\0',
    ensures
        log_messages_from(e.push('\0'), 0) == (if trim(e).len() > 0 {
            seq![trim(e)]
        } else {
            Seq::<Seq<char>>::empty()
        }),
        log_messages_from(e, 0) == (if trim(e).len() > 0 {
            seq![trim(e)]
        } else {
            Seq::<Seq<char>>::empty()
        }),
{
    let s = e.push('\0');
    assert forall|k: int| 0 <= k < e.len() implies #[trigger] s[k] != '\0' by {
        assert(s[k] == e[k]);
    }
    lemma_nul_scan(s, 0, e.len() as int);
    assert(s.subrange(0, e.len() as int) =~= e);
    lemma_nul_scan(s, e.len() as int + 1, s.len() as int);
    assert(s.subrange(e.len() as int + 1, s.len() as int) =~= Seq::<char>::empty());
    assert(trim(Seq::<char>::empty()) == Seq::<char>::empty());
    assert(log_messages_from(s, e.len() as int + 1) == Seq::<Seq<char>>::empty());
    lemma_nul_scan(e, 0, e.len() as int);
    assert(e.subrange(0, e.len() as int) =~= e);
}

/// A log of entries, each followed by NUL: the messages of the first entry
/// come before those of the rest, whatever characters (newlines included)
/// the first entry holds.
pub proof fn law_log_splits_at_nul_only(e: Seq<char>, rest: Seq<char>)
    requires
        forall|k: int| 0 <= k < e.len() ==> #[trigger] e[k] != '\0',
    ensures
        log_messages_from(e.push('\0') + rest, 0) == (if trim(e).len() > 0 {
            seq![trim(e)]
        } else {
            Seq::<Seq<char>>::empty()
        }) + log_messages_from(e.push('\0') + rest, e.len() as int + 1),
{
    let s = e.push('\0') + rest;
    assert forall|k: int| 0 <= k < e.len() implies #[trigger] s[k] != '\0' by {
        assert(s[k] == e[k]);
    }
    assert(s[e.len() as int] == '\0');
    lemma_nul_scan(s, 0, e.len() as int);
    assert(s.subrange(0, e.len() as int) =~= e);
}

// ---------------------------------------------------------------------------
// A dependency bump header makes the whole message ignored

proof fn lemma_word_end_scan(s: Seq<char>, i: int, j: int)
    requires
        0 <= i <= j <= s.len(),
        forall|k: int| i <= k < j ==> !is_ws(#[trigger] s[k]),
        j == s.len() || is_ws(s[j]),
    ensures
        word_end(s, i) == j,
    decreases j - i,
{
    if i < j {
        lemma_word_end_scan(s, i + 1, j);
    }
}

/// A word: at least one character, none of them whitespace.
pub open spec fn word(w: Seq<char>) -> bool {
    w.len() > 0 && forall|k: int| 0 <= k < w.len() ==> !is_ws(#[trigger] w[k])
}

/// A message whose header is `Bump <a> from <b> to <c>` (each a word) is
/// ignored, whatever follows the header: a body after a blank line, or more
/// text on the same line.
pub proof fn law_bump_header_is_ignored(a: Seq<char>, b: Seq<char>, c: Seq<char>, tail: Seq<char>)
    requires
        word(a),
        word(b),
        word(c),
    ensures
        ignored("Bump "@ + a + " from "@ + b + " to "@ + c + tail),
{
    reveal_strlit("Bump ");
    reveal_strlit(" from ");
    reveal_strlit(" to ");
    let s = "Bump "@ + a + " from "@ + b + " to "@ + c + tail;
    let i1: int = 5 + a.len() as int;
    let i2: int = i1 + 6 + b.len() as int;
    assert(s.subrange(0, 5) =~= "Bump "@);
    assert(occurs_at(s, "Bump "@, 0));
    assert forall|k: int| 5 <= k < i1 implies !is_ws(#[trigger] s[k]) by {
        assert(s[k] == a[k - 5]);
    }
    assert(s[i1] == ' ');
    lemma_word_end_scan(s, 5, i1);
    assert(s.subrange(i1, i1 + 6) =~= " from "@);
    assert forall|k: int| i1 + 6 <= k < i2 implies !is_ws(#[trigger] s[k]) by {
        assert(s[k] == b[k - i1 - 6]);
    }
    assert(s[i2] == ' ');
    lemma_word_end_scan(s, i1 + 6, i2);
    assert(s.subrange(i2, i2 + 4) =~= " to "@);
    assert(s[i2 + 4] == c[0]);
    assert(bump_at(s, 0));
}

// ---------------------------------------------------------------------------
// Any non-whitespace scope passes the strict pattern

/// For every commit type `t`, every scope `c` of one or more non-whitespace
/// characters (hyphens, dots, slashes and the like included), and every
/// one-line description `d` of at least three characters that does not start
/// with whitespace nor end with a full stop, the header `t(c): d` (and
/// `t(c)!: d`) matches the strict pattern.
pub proof fn law_scoped_header_matches_strict_pattern(k: int, c: Seq<char>, d: Seq<char>, bang: bool)
    requires
        0 <= k < 12,
        word(c),
        d.len() >= 3,
        !is_ws(d[0]),
        d.last() != '.',
        forall|i: int| 0 <= i < d.len() ==> !is_line_break(#[trigger] d[i]),
    ensures
        strict_match(
            COMMIT_TYPES@[k]@ + seq!['('] + c + (if bang { seq![')', '!'] } else { seq![')'] })
                + seq![':', ' '] + d,
        ),
{
    let t = COMMIT_TYPES@[k]@;
    lemma_commit_types_are_words(k);
    let close = if bang { seq![')', '!'] } else { seq![')'] };
    let s = t + seq!['('] + c + close + seq![':', ' '] + d;
    let p: int = t.len() as int;
    let q: int = p + 1 + c.len() as int;
    let r: int = q + close.len() as int;
    let n: int = s.len() as int;
    assert(s.subrange(0, p) =~= t);
    assert(occurs_at(s, t, 0));
    assert(s[p] == '(');
    assert(s[q] == ')');
    assert forall|j: int| p + 1 <= j < q implies !is_ws(#[trigger] s[j]) by {
        assert(s[j] == c[j - p - 1]);
    }
    if bang {
        assert(s[q + 1] == '!');
    }
    assert(s[r] == ':');
    assert(s[r + 1] == ' ');
    assert(s[r + 2] == d[0]);
    assert(s[n - 1] == d.last());
    assert forall|j: int| r + 3 <= j < n - 1 implies !is_line_break(#[trigger] s[j]) by {
        assert(s[j] == d[j - r - 2]);
    }
    assert(s.subrange(n, n) =~= Seq::<char>::empty());
    let last: int = n - 1;
    assert(crate::grammar::strict_tail(s, last + 1));
    assert(crate::grammar::no_line_break_in(s, r + 3, last));
    assert(r + 4 <= last < n && s[last] != '.');
    assert(crate::grammar::strict_description_at(s, r + 2));
    assert(crate::grammar::strict_colon_at(s, r));
    assert(crate::grammar::strict_after_scope(s, q + 1));
    assert(crate::grammar::strict_scope_closes_at(s, p, q));
    assert(crate::grammar::strict_after_type(s, p));
}

// ---------------------------------------------------------------------------
// A single message fails the run exactly when it is empty or invalid

/// Linting one message fails the run (exit status 1) exactly when the
/// message is empty or invalid, whatever the options, details skipped or
/// not; and exactly then the report has a line for standard error.
pub proof fn law_single_run_fails_iff_empty_or_invalid(m: Seq<char>, options: Config)
    ensures
        single_report(m, options).1 <==> (lint_outcome(m, options) == LintOutcome::Empty
            || lint_outcome(m, options) == LintOutcome::Invalid),
        single_report(m, options).1 <==> exists|i: int|
            0 <= i < single_report(m, options).0.len() && (#[trigger] single_report(
                m,
                options,
            ).0[i]).0 == Stream::Error,
{
    let lines = single_report(m, options).0;
    let outcome = lint_outcome(m, options);
    if outcome == LintOutcome::Invalid {
        let er = error_report(m, crate::linter::lint_errors(m, options), options);
        assert(er.last().0 == Stream::Error);
        assert(lines[lines.len() - 1] == er.last());
    } else if outcome == LintOutcome::Empty {
        assert(lines[2].0 == Stream::Error);
    } else {
        assert forall|i: int| 0 <= i < lines.len() implies (#[trigger] lines[i]).0 != Stream::Error by {
            assert(lines.len() == 3);
        }
    }
}

} // verus!

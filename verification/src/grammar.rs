//! The Conventional Commits grammar: the strict header pattern that decides
//! whether a message is well formed, and the lenient pattern whose groups the
//! detailed validators inspect.
//!
//! Strict pattern (the `(?s)` flag lets `.` match newlines):
//! `^(TYPE)(\(\S+\))?!?:(?: ([^\s][^\n\r]+[^\.]))((\n\n(.*))|(\s*))?$`
//! where TYPE is one of the commit types.
//!
//! Lenient pattern, matched leftmost-first with greedy repetition:
//! `^(\w+\s*)?(?:\(([^\)]*)\)(\s*))?!?(:\s?)?(?:([^\n\r]+))?(\n?\n?)(((.*))|(\s*))?$`

use vstd::prelude::*;
use crate::constants::COMMIT_TYPES;
use crate::text::{
    all_ws, chars_occur_at, chars_of, is_whitespace, is_word, is_word_class, is_ws, occurs_at,
};

verus! {

/// No character of `s[a..b]` is `\n` or `\r`.
pub open spec fn no_line_break_in(s: Seq<char>, a: int, b: int) -> bool {
    forall|k: int| a <= k < b ==> !is_line_break(#[trigger] s[k])
}

/// No character of `s[a..b]` is whitespace.
pub open spec fn no_ws_in(s: Seq<char>, a: int, b: int) -> bool {
    forall|k: int| a <= k < b ==> !is_ws(#[trigger] s[k])
}

/// Every character of `s[a..b]` is whitespace.
pub open spec fn ws_in(s: Seq<char>, a: int, b: int) -> bool {
    forall|k: int| a <= k < b ==> is_ws(#[trigger] s[k])
}

/// The line-break characters `\n` and `\r`.
pub open spec fn is_line_break(c: char) -> bool {
    c == '\n' || c == '\r'
}

// ---------------------------------------------------------------------------
// The strict pattern

/// What may follow the last character of the description: nothing but
/// whitespace, or a blank line and then anything.
pub open spec fn strict_tail(s: Seq<char>, r: int) -> bool {
    ||| all_ws(s.subrange(r, s.len() as int))
    ||| (r + 1 < s.len() && s[r] == '\n' && s[r + 1] == '\n')
}

/// `[^\s][^\n\r]+[^\.]` followed by a valid tail matches `s[d..]`: the
/// description starts with a non-whitespace character, its last character
/// `s[q]` is not a full stop, and everything between is on the first line.
pub open spec fn strict_description_at(s: Seq<char>, d: int) -> bool {
    &&& 0 <= d < s.len()
    &&& !is_ws(s[d])
    &&& exists|q: int|
        d + 2 <= q < s.len() && no_line_break_in(s, d + 1, q) && s[q] != '.'
            && #[trigger] strict_tail(s, q + 1)
}

/// `: ` followed by a description matches `s[p..]`.
pub open spec fn strict_colon_at(s: Seq<char>, p: int) -> bool {
    &&& 0 <= p
    &&& p + 1 < s.len()
    &&& s[p] == ':'
    &&& s[p + 1] == ' '
    &&& strict_description_at(s, p + 2)
}

/// An optional `!` and then the colon part match `s[p..]`.
pub open spec fn strict_after_scope(s: Seq<char>, p: int) -> bool {
    ||| (0 <= p < s.len() && s[p] == '!' && strict_colon_at(s, p + 1))
    ||| strict_colon_at(s, p)
}

/// A scope `(\S+)` that closes at `q` and is followed by the rest of the header.
pub open spec fn strict_scope_closes_at(s: Seq<char>, p: int, q: int) -> bool {
    &&& p + 2 <= q < s.len()
    &&& s[q] == ')'
    &&& no_ws_in(s, p + 1, q)
    &&& strict_after_scope(s, q + 1)
}

/// An optional scope and then the rest of the header match `s[p..]`.
pub open spec fn strict_after_type(s: Seq<char>, p: int) -> bool {
    ||| strict_after_scope(s, p)
    ||| (0 <= p < s.len() && s[p] == '(' && exists|q: int| #[trigger] strict_scope_closes_at(s, p, q))
}

/// The whole message matches the strict pattern: it starts with one of the
/// commit types and the rest of it matches.
pub open spec fn strict_match(s: Seq<char>) -> bool {
    exists|k: int|
        0 <= k < 12 && occurs_at(s, COMMIT_TYPES@[k]@, 0) && #[trigger] strict_after_type(
            s,
            COMMIT_TYPES@[k]@.len() as int,
        )
}

fn is_line_break_char(c: char) -> (r: bool)
    ensures
        r == is_line_break(c),
{
    c == '\n' || c == '\r'
}

fn strict_tail_at(s: &[char], r: usize) -> (b: bool)
    requires
        r <= s@.len(),
    ensures
        b == strict_tail(s@, r as int),
{
    if r < s.len() && s.len() - r > 1 && s[r] == '\n' && s[r + 1] == '\n' {
        return true;
    }
    let mut k = r;
    while k < s.len()
        invariant
            r <= k <= s@.len(),
            s@.len() == s.len(),
            !(r + 1 < s@.len() && s@[r as int] == '\n' && s@[r + 1] == '\n'),
            ws_in(s@, r as int, k as int),
        decreases s.len() - k,
    {
        if !is_whitespace(s[k]) {
            assert(s@.subrange(r as int, s@.len() as int)[k - r] == s@[k as int]);
            assert(!all_ws(s@.subrange(r as int, s@.len() as int)));
            assert(!(r + 1 < s@.len() && s@[r as int] == '\n' && s@[r + 1] == '\n'));
            return false;
        }
        k = k + 1;
    }
    assert forall|i: int| 0 <= i < s@.len() - r implies is_ws(#[trigger] s@.subrange(r as int, s@.len() as int)[i]) by {
        assert(s@.subrange(r as int, s@.len() as int)[i] == s@[r + i]);
    }
    true
}

fn strict_description(s: &[char], d: usize) -> (b: bool)
    ensures
        b == strict_description_at(s@, d as int),
{
    if d >= s.len() || is_whitespace(s[d]) {
        return false;
    }
    if s.len() - d < 2 || is_line_break_char(s[d + 1]) {
        proof {
            assert forall|q: int| d + 2 <= q < s@.len() implies !(no_line_break_in(s@, d + 1, q) && s@[q] != '.' && #[trigger] strict_tail(s@, q + 1)) by {
                if no_line_break_in(s@, d + 1, q) {
                    assert(!is_line_break(s@[d + 1]));
                }
            }
        }
        return false;
    }
    let mut q = d + 2;
    while q < s.len()
        invariant
            d + 2 <= q <= s@.len(),
            s@.len() == s.len(),
            !is_ws(s@[d as int]),
            no_line_break_in(s@, d as int + 1, q as int),
            forall|q2: int| d + 2 <= q2 < q ==> !(s@[q2] != '.' && #[trigger] strict_tail(s@, q2 + 1)),
        decreases s.len() - q,
    {
        if s[q] != '.' && strict_tail_at(s, q + 1) {
            assert(no_line_break_in(s@, d + 1, q as int) && s@[q as int] != '.' && strict_tail(s@, q + 1));
            return true;
        }
        if is_line_break_char(s[q]) {
            proof {
                assert forall|q2: int| d + 2 <= q2 < s@.len() implies !(no_line_break_in(s@, d + 1, q2) && s@[q2] != '.' && #[trigger] strict_tail(s@, q2 + 1)) by {
                    if q2 > q && no_line_break_in(s@, d + 1, q2) {
                        assert(!is_line_break(s@[q as int]));
                    }
                }
            }
            return false;
        }
        q = q + 1;
    }
    false
}

fn strict_colon(s: &[char], p: usize) -> (b: bool)
    ensures
        b == strict_colon_at(s@, p as int),
{
    if p < s.len() && s.len() - p > 1 && s[p] == ':' && s[p + 1] == ' ' {
        strict_description(s, p + 2)
    } else {
        false
    }
}

fn strict_after_scope_at(s: &[char], p: usize) -> (b: bool)
    ensures
        b == strict_after_scope(s@, p as int),
{
    (p < s.len() && s[p] == '!' && strict_colon(s, p + 1)) || strict_colon(s, p)
}

fn strict_after_type_at(s: &[char], p: usize) -> (b: bool)
    ensures
        b == strict_after_type(s@, p as int),
{
    if strict_after_scope_at(s, p) {
        return true;
    }
    if !(p < s.len() && s[p] == '(') {
        return false;
    }
    let mut q = p + 1;
    while q < s.len() && !is_whitespace(s[q])
        invariant
            p + 1 <= q <= s@.len(),
            s@.len() == s.len(),
            p < s@.len(),
            s@[p as int] == '(',
            no_ws_in(s@, p as int + 1, q as int),
            forall|q2: int| p + 2 <= q2 < q ==> !#[trigger] strict_scope_closes_at(s@, p as int, q2),
        decreases s.len() - q,
    {
        if q >= p + 2 && s[q] == ')' && strict_after_scope_at(s, q + 1) {
            assert(strict_scope_closes_at(s@, p as int, q as int));
            return true;
        }
        q = q + 1;
    }
    proof {
        assert forall|q2: int| !#[trigger] strict_scope_closes_at(s@, p as int, q2) by {
            if q2 >= q && strict_scope_closes_at(s@, p as int, q2) {
                if q < s@.len() {
                    assert(!is_ws(s@[q as int]));
                }
            }
        }
    }
    false
}

/// Whether `message` matches the strict pattern.
pub fn matches_strict_pattern(message: &[char]) -> (b: bool)
    ensures
        b == strict_match(message@),
{
    let mut k: usize = 0;
    while k < 12
        invariant
            k <= 12,
            forall|k2: int|
                0 <= k2 < k ==> !(occurs_at(message@, COMMIT_TYPES@[k2]@, 0) && #[trigger] strict_after_type(
                    message@,
                    COMMIT_TYPES@[k2]@.len() as int,
                )),
        decreases 12 - k,
    {
        let t = chars_of(COMMIT_TYPES[k]);
        if chars_occur_at(message, &t, 0) && strict_after_type_at(message, t.len()) {
            return true;
        }
        k = k + 1;
    }
    false
}


// ---------------------------------------------------------------------------
// The lenient pattern

/// The end of the run of word characters (`\w`) that starts at `i`.
pub open spec fn word_run_end(s: Seq<char>, i: int) -> int
    decreases s.len() - i,
{
    if 0 <= i < s.len() && is_word_class(s[i]) {
        word_run_end(s, i + 1)
    } else {
        i
    }
}

/// The end of the run of whitespace that starts at `i`.
pub open spec fn ws_run_end(s: Seq<char>, i: int) -> int
    decreases s.len() - i,
{
    if 0 <= i < s.len() && is_ws(s[i]) {
        ws_run_end(s, i + 1)
    } else {
        i
    }
}

/// The end of the run of characters other than `\n` and `\r` that starts at `i`.
pub open spec fn text_run_end(s: Seq<char>, i: int) -> int
    decreases s.len() - i,
{
    if 0 <= i < s.len() && !is_line_break(s[i]) {
        text_run_end(s, i + 1)
    } else {
        i
    }
}

/// The first `)` at or after `i`, or `s.len()` when there is none.
pub open spec fn close_paren_from(s: Seq<char>, i: int) -> int
    decreases s.len() - i,
{
    if 0 <= i < s.len() && s[i] != ')' {
        close_paren_from(s, i + 1)
    } else {
        i
    }
}

/// Where the type group `(\w+\s*)?` ends: after the leading word and the
/// whitespace behind it, or at 0 when the message does not start with a word character.
pub open spec fn type_end(s: Seq<char>) -> int {
    if word_run_end(s, 0) > 0 {
        ws_run_end(s, word_run_end(s, 0))
    } else {
        0
    }
}

/// The span of the type group.
pub open spec fn type_span(s: Seq<char>) -> Option<(int, int)> {
    if word_run_end(s, 0) > 0 {
        Some((0, type_end(s)))
    } else {
        None
    }
}

/// The `)` that would close a scope opened right after the type group.
pub open spec fn scope_close(s: Seq<char>) -> int {
    close_paren_from(s, type_end(s) + 1)
}

/// A parenthesised scope follows the type group.
pub open spec fn has_scope(s: Seq<char>) -> bool {
    &&& type_end(s) < s.len()
    &&& s[type_end(s)] == '('
    &&& scope_close(s) < s.len()
}

/// The span of the scope, between the parentheses.
pub open spec fn scope_span(s: Seq<char>) -> Option<(int, int)> {
    if has_scope(s) {
        Some((type_end(s) + 1, scope_close(s)))
    } else {
        None
    }
}

/// The span of the whitespace after the closing parenthesis of the scope.
pub open spec fn space_after_scope_span(s: Seq<char>) -> Option<(int, int)> {
    if has_scope(s) {
        Some((scope_close(s) + 1, ws_run_end(s, scope_close(s) + 1)))
    } else {
        None
    }
}

/// Where the optional scope part ends.
pub open spec fn scope_end(s: Seq<char>) -> int {
    if has_scope(s) {
        ws_run_end(s, scope_close(s) + 1)
    } else {
        type_end(s)
    }
}

/// Where the optional `!` ends.
pub open spec fn bang_end(s: Seq<char>) -> int {
    if scope_end(s) < s.len() && s[scope_end(s)] == '!' {
        scope_end(s) + 1
    } else {
        scope_end(s)
    }
}

/// The span of the colon group `:\s?`.
pub open spec fn colon_span(s: Seq<char>) -> Option<(int, int)> {
    let p = bang_end(s);
    if p < s.len() && s[p] == ':' {
        if p + 1 < s.len() && is_ws(s[p + 1]) {
            Some((p, p + 2))
        } else {
            Some((p, p + 1))
        }
    } else {
        None
    }
}

/// Where the optional colon group ends.
pub open spec fn colon_end(s: Seq<char>) -> int {
    match colon_span(s) {
        Some(sp) => sp.1,
        None => bang_end(s),
    }
}

/// The span of the description: the rest of the first line after the colon group.
pub open spec fn description_span(s: Seq<char>) -> Option<(int, int)> {
    if text_run_end(s, colon_end(s)) > colon_end(s) {
        Some((colon_end(s), text_run_end(s, colon_end(s))))
    } else {
        None
    }
}

/// The span of the line breaks `\n?\n?` after the description.
pub open spec fn body_separation_span(s: Seq<char>) -> (int, int) {
    let p = text_run_end(s, colon_end(s));
    if p < s.len() && s[p] == '\n' {
        if p + 1 < s.len() && s[p + 1] == '\n' {
            (p, p + 2)
        } else {
            (p, p + 1)
        }
    } else {
        (p, p)
    }
}

/// The span of the body: everything after the body separation.
pub open spec fn body_span(s: Seq<char>) -> (int, int) {
    (body_separation_span(s).1, s.len() as int)
}

/// The groups of the lenient pattern in a message, as character positions.
pub struct Captures {
    /// The leading word and the whitespace after it.
    pub commit_type: Option<(usize, usize)>,
    /// The text between the parentheses of the scope.
    pub scope: Option<(usize, usize)>,
    /// The whitespace after the closing parenthesis.
    pub space_after_scope: Option<(usize, usize)>,
    /// The colon and at most one whitespace character after it.
    pub colon: Option<(usize, usize)>,
    /// The rest of the first line.
    pub description: Option<(usize, usize)>,
    /// Up to two `\n` after the description.
    pub body_separation: (usize, usize),
    /// Everything after the separation.
    pub body: (usize, usize),
}

/// An optional span given in `usize` is the span `g`.
pub open spec fn same_span(o: Option<(usize, usize)>, g: Option<(int, int)>) -> bool {
    match (o, g) {
        (Some(a), Some(b)) => a.0 == b.0 && a.1 == b.1,
        (None, None) => true,
        _ => false,
    }
}

/// An optional span lies within the first `n` characters.
pub open spec fn span_within(o: Option<(usize, usize)>, n: int) -> bool {
    match o {
        Some(p) => p.0 <= p.1 <= n,
        None => true,
    }
}

impl Captures {
    /// Every span lies within the first `n` characters.
    pub open spec fn within(self, n: int) -> bool {
        &&& span_within(self.commit_type, n)
        &&& span_within(self.scope, n)
        &&& span_within(self.space_after_scope, n)
        &&& span_within(self.colon, n)
        &&& span_within(self.description, n)
        &&& self.body_separation.0 <= self.body_separation.1 <= n
        &&& self.body.0 <= self.body.1 <= n
    }

    /// The captures are those of the lenient pattern in `s`.
    pub open spec fn of(self, s: Seq<char>) -> bool {
        &&& same_span(self.commit_type, type_span(s))
        &&& same_span(self.scope, scope_span(s))
        &&& same_span(self.space_after_scope, space_after_scope_span(s))
        &&& same_span(self.colon, colon_span(s))
        &&& same_span(self.description, description_span(s))
        &&& self.body_separation.0 == body_separation_span(s).0
        &&& self.body_separation.1 == body_separation_span(s).1
        &&& self.body.0 == body_span(s).0
        &&& self.body.1 == body_span(s).1
    }
}

/// A run of word characters ends where the scan stops.
pub proof fn lemma_word_run_end(s: Seq<char>, i: int, j: int)
    requires
        0 <= i <= j <= s.len(),
        forall|k: int| i <= k < j ==> is_word_class(#[trigger] s[k]),
        j == s.len() || !is_word_class(s[j]),
    ensures
        word_run_end(s, i) == j,
    decreases j - i,
{
    if i < j {
        lemma_word_run_end(s, i + 1, j);
    }
}

/// A run of whitespace ends where the scan stops.
pub proof fn lemma_ws_run_end(s: Seq<char>, i: int, j: int)
    requires
        0 <= i <= j <= s.len(),
        ws_in(s, i, j),
        j == s.len() || !is_ws(s[j]),
    ensures
        ws_run_end(s, i) == j,
    decreases j - i,
{
    if i < j {
        lemma_ws_run_end(s, i + 1, j);
    }
}

/// A run of characters other than line breaks ends where the scan stops.
pub proof fn lemma_text_run_end(s: Seq<char>, i: int, j: int)
    requires
        0 <= i <= j <= s.len(),
        no_line_break_in(s, i, j),
        j == s.len() || is_line_break(s[j]),
    ensures
        text_run_end(s, i) == j,
    decreases j - i,
{
    if i < j {
        lemma_text_run_end(s, i + 1, j);
    }
}

/// The first `)` is where the scan stops.
pub proof fn lemma_close_paren_from(s: Seq<char>, i: int, j: int)
    requires
        0 <= i <= j <= s.len(),
        forall|k: int| i <= k < j ==> #[trigger] s[k] != ')',
        j == s.len() || s[j] == ')',
    ensures
        close_paren_from(s, i) == j,
    decreases j - i,
{
    if i < j {
        lemma_close_paren_from(s, i + 1, j);
    }
}

fn skip_word(s: &[char], i: usize) -> (j: usize)
    requires
        i <= s@.len(),
    ensures
        j == word_run_end(s@, i as int),
        i <= j <= s@.len(),
{
    let mut j = i;
    while j < s.len() && is_word(s[j])
        invariant
            i <= j <= s@.len(),
            forall|k: int| i <= k < j ==> is_word_class(#[trigger] s@[k]),
        decreases s.len() - j,
    {
        j = j + 1;
    }
    proof {
        lemma_word_run_end(s@, i as int, j as int);
    }
    j
}

fn skip_ws(s: &[char], i: usize) -> (j: usize)
    requires
        i <= s@.len(),
    ensures
        j == ws_run_end(s@, i as int),
        i <= j <= s@.len(),
{
    let mut j = i;
    while j < s.len() && is_whitespace(s[j])
        invariant
            i <= j <= s@.len(),
            ws_in(s@, i as int, j as int),
        decreases s.len() - j,
    {
        j = j + 1;
    }
    proof {
        lemma_ws_run_end(s@, i as int, j as int);
    }
    j
}

fn skip_text(s: &[char], i: usize) -> (j: usize)
    requires
        i <= s@.len(),
    ensures
        j == text_run_end(s@, i as int),
        i <= j <= s@.len(),
{
    let mut j = i;
    while j < s.len() && !is_line_break_char(s[j])
        invariant
            i <= j <= s@.len(),
            no_line_break_in(s@, i as int, j as int),
        decreases s.len() - j,
    {
        j = j + 1;
    }
    proof {
        lemma_text_run_end(s@, i as int, j as int);
    }
    j
}

fn find_close_paren(s: &[char], i: usize) -> (j: usize)
    requires
        i <= s@.len(),
    ensures
        j == close_paren_from(s@, i as int),
        i <= j <= s@.len(),
{
    let mut j = i;
    while j < s.len() && s[j] != ')'
        invariant
            i <= j <= s@.len(),
            forall|k: int| i <= k < j ==> #[trigger] s@[k] != ')',
        decreases s.len() - j,
    {
        j = j + 1;
    }
    proof {
        lemma_close_paren_from(s@, i as int, j as int);
    }
    j
}

/// The groups of the lenient pattern in `message`. The pattern matches every
/// message; its leftmost-first match takes, group after group, the longest
/// text each greedy group allows.
pub fn lenient_captures(message: &[char]) -> (c: Captures)
    ensures
        c.of(message@),
        c.within(message@.len() as int),
{
    let s = message;
    let n = s.len();
    let w = skip_word(s, 0);
    let type_end_at = if w > 0 { skip_ws(s, w) } else { 0 };
    let commit_type = if w > 0 { Some((0, type_end_at)) } else { None };
    let mut scope = None;
    let mut space_after_scope = None;
    let mut scope_end_at = type_end_at;
    if type_end_at < n && s[type_end_at] == '(' {
        let close = find_close_paren(s, type_end_at + 1);
        if close < n {
            let after = skip_ws(s, close + 1);
            scope = Some((type_end_at + 1, close));
            space_after_scope = Some((close + 1, after));
            scope_end_at = after;
        }
    }
    let bang_end_at = if scope_end_at < n && s[scope_end_at] == '!' {
        scope_end_at + 1
    } else {
        scope_end_at
    };
    let mut colon = None;
    let mut colon_end_at = bang_end_at;
    if bang_end_at < n && s[bang_end_at] == ':' {
        if n - bang_end_at > 1 && is_whitespace(s[bang_end_at + 1]) {
            colon_end_at = bang_end_at + 2;
        } else {
            colon_end_at = bang_end_at + 1;
        }
        colon = Some((bang_end_at, colon_end_at));
    }
    let description_end_at = skip_text(s, colon_end_at);
    let description = if description_end_at > colon_end_at {
        Some((colon_end_at, description_end_at))
    } else {
        None
    };
    let p = description_end_at;
    let separation_end_at = if p < n && s[p] == '\n' {
        if n - p > 1 && s[p + 1] == '\n' {
            p + 2
        } else {
            p + 1
        }
    } else {
        p
    };
    Captures {
        commit_type,
        scope,
        space_after_scope,
        colon,
        description,
        body_separation: (p, separation_end_at),
        body: (separation_end_at, n),
    }
}

} // verus!

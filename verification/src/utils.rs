//! Message preparation: empty messages, messages that are not linted (merges,
//! reverts, dependency bumps, the initial commit), and the removal of git's
//! comment lines and verbose diff.

use vstd::prelude::*;
use crate::text::{
    all_ws, chars_occur_at, chars_of, extend_chars, is_whitespace, is_ws, occurs_at, slice_chars,
    string_of, trim, trim_bounds,
};
use crate::validators::newline_from;

verus! {

// ---------------------------------------------------------------------------
// Empty messages

/// Whether `message` holds nothing but whitespace.
pub fn is_empty(message: &str) -> (r: bool)
    ensures
        r == all_ws(message@),
{
    let s = chars_of(message);
    let mut i: usize = 0;
    while i < s.len()
        invariant
            i <= s@.len(),
            s@ == message@,
            forall|k: int| 0 <= k < i ==> is_ws(#[trigger] s@[k]),
        decreases s.len() - i,
    {
        if !is_whitespace(s[i]) {
            return false;
        }
        i = i + 1;
    }
    true
}

// ---------------------------------------------------------------------------
// Ignored messages

/// `p` occurs in `s` at some position `k` with `from <= k` and `k + p.len() <= to`.
pub open spec fn occurs_between(s: Seq<char>, p: Seq<char>, from: int, to: int) -> bool {
    exists|k: int| from <= k && k + p.len() <= to && #[trigger] occurs_at(s, p, k)
}

fn chars_occur_between(s: &[char], p: &[char], from: usize, to: usize) -> (r: bool)
    requires
        to <= s@.len(),
    ensures
        r == occurs_between(s@, p@, from as int, to as int),
{
    if p.len() == 0 {
        assert(from <= to ==> occurs_at(s@, p@, from as int)) by {
            if from <= to {
                assert(s@.subrange(from as int, from as int) =~= p@);
            }
        }
        return from <= to;
    }
    let mut k = from;
    while k < to && p.len() <= to - k
        invariant
            from <= k,
            p@.len() > 0,
            to <= s@.len(),
            forall|k2: int| from <= k2 < k ==> !#[trigger] occurs_at(s@, p@, k2),
        decreases to - k,
    {
        if chars_occur_at(s, p, k) {
            return true;
        }
        k = k + 1;
    }
    false
}

/// `t` is made of line endings only: `(\r?\n)*`.
pub open spec fn line_endings_only(t: Seq<char>) -> bool
    decreases t.len(),
{
    if t.len() == 0 {
        true
    } else if t[0] == '\n' {
        line_endings_only(t.drop_first())
    } else if t.len() >= 2 && t[0] == '\r' && t[1] == '\n' {
        line_endings_only(t.subrange(2, t.len() as int))
    } else {
        false
    }
}

fn is_line_endings_only(s: &[char], i: usize) -> (r: bool)
    requires
        i <= s@.len(),
    ensures
        r == line_endings_only(s@.subrange(i as int, s@.len() as int)),
{
    let mut j = i;
    while j < s.len()
        invariant
            i <= j <= s@.len(),
            line_endings_only(s@.subrange(i as int, s@.len() as int)) == line_endings_only(
                s@.subrange(j as int, s@.len() as int),
            ),
        decreases s.len() - j,
    {
        let ghost t = s@.subrange(j as int, s@.len() as int);
        if s[j] == '\n' {
            assert(t.drop_first() =~= s@.subrange(j + 1, s@.len() as int));
            j = j + 1;
        } else if s.len() - j >= 2 && s[j] == '\r' && s[j + 1] == '\n' {
            assert(t.subrange(2, t.len() as int) =~= s@.subrange(j + 2, s@.len() as int));
            j = j + 2;
        } else {
            return false;
        }
    }
    true
}

/// No `\n` in `s[a..]`.
pub open spec fn no_newline_from(s: Seq<char>, a: int) -> bool {
    forall|k: int| a <= k < s.len() ==> #[trigger] s[k] != '\n'
}

fn has_no_newline_from(s: &[char], a: usize) -> (r: bool)
    ensures
        r == no_newline_from(s@, a as int),
{
    let mut k = a;
    while k < s.len()
        invariant
            a <= k,
            forall|j: int| a <= j < k ==> #[trigger] s@[j] != '\n',
        decreases s.len() - k,
    {
        if s[k] == '\n' {
            return false;
        }
        k = k + 1;
    }
    true
}

/// The end of the run of non-whitespace characters that starts at `i`.
pub open spec fn word_end(s: Seq<char>, i: int) -> int
    decreases s.len() - i,
{
    if 0 <= i < s.len() && !is_ws(s[i]) {
        word_end(s, i + 1)
    } else {
        i
    }
}

fn skip_non_ws(s: &[char], i: usize) -> (j: usize)
    requires
        i <= s@.len(),
    ensures
        j == word_end(s@, i as int),
        i <= j <= s@.len(),
{
    let mut j = i;
    while j < s.len() && !is_whitespace(s[j])
        invariant
            i <= j <= s@.len(),
            word_end(s@, i as int) == word_end(s@, j as int),
        decreases s.len() - j,
    {
        j = j + 1;
    }
    j
}

/// `[Bb]ump [^\s]+ from [^\s]+ to [^\s]+` matches at position `i`.
pub open spec fn bump_at(s: Seq<char>, i: int) -> bool {
    &&& (occurs_at(s, "Bump "@, i) || occurs_at(s, "bump "@, i))
    &&& word_end(s, i + 5) > i + 5
    &&& occurs_at(s, " from "@, word_end(s, i + 5))
    &&& word_end(s, word_end(s, i + 5) + 6) > word_end(s, i + 5) + 6
    &&& occurs_at(s, " to "@, word_end(s, word_end(s, i + 5) + 6))
    &&& word_end(s, word_end(s, i + 5) + 6) + 4 < s.len()
    &&& !is_ws(s[word_end(s, word_end(s, i + 5) + 6) + 4])
}

/// `s` is a merge, a revert, a dependency bump or the initial commit, which
/// are not linted. These are the messages matched by the ignore patterns
/// (where `.` matches anything but `\n`):
/// `^((Merge pull request)|(Merge (.*?) into (.*?)|(Merge branch (.*?)))(?:\r?\n)*$)`,
/// `^(Merge tag (.*?))(?:\r?\n)*$`, `^(R|r)evert (.*)`,
/// `^(Merged (.*?)(in|into) (.*)|Merged PR (.*): (.*))$`,
/// `^Merge remote-tracking branch(\s*)(.*)$`, `^Automatic merge(.*)$`,
/// `^Auto-merged (.*?) into (.*)$`, `^[Bb]ump [^\s]+ from [^\s]+ to [^\s]+`,
/// `^[Ii]nitial [Cc]ommit$`.
pub open spec fn ignored(s: Seq<char>) -> bool {
    let i = newline_from(s, 0);
    ||| occurs_at(s, "Merge pull request"@, 0)
    ||| (line_endings_only(s.subrange(i, s.len() as int)) && occurs_at(s, "Merge "@, 0)
        && occurs_between(s, " into "@, 6, i))
    ||| (line_endings_only(s.subrange(i, s.len() as int)) && occurs_at(s, "Merge branch "@, 0))
    ||| (line_endings_only(s.subrange(i, s.len() as int)) && occurs_at(s, "Merge tag "@, 0))
    ||| occurs_at(s, "Revert "@, 0)
    ||| occurs_at(s, "revert "@, 0)
    ||| (no_newline_from(s, 0) && occurs_at(s, "Merged "@, 0) && (occurs_between(
        s,
        "in "@,
        7,
        s.len() as int,
    ) || occurs_between(s, "into "@, 7, s.len() as int)))
    ||| (no_newline_from(s, 0) && occurs_at(s, "Merged PR "@, 0) && occurs_between(
        s,
        ": "@,
        10,
        s.len() as int,
    ))
    ||| (occurs_at(s, "Merge remote-tracking branch"@, 0) && exists|j: int|
        28 <= j <= s.len() && all_ws(s.subrange(28, j)) && #[trigger] no_newline_from(s, j))
    ||| (occurs_at(s, "Automatic merge"@, 0) && no_newline_from(s, 15))
    ||| (no_newline_from(s, 0) && occurs_at(s, "Auto-merged "@, 0) && occurs_between(
        s,
        " into "@,
        12,
        s.len() as int,
    ))
    ||| (s.len() > 0 && bump_at(s, 0))
    ||| s == "Initial commit"@
    ||| s == "initial commit"@
    ||| s == "Initial Commit"@
    ||| s == "initial Commit"@
}

fn lit_at(s: &[char], lit: &str, i: usize) -> (r: bool)
    ensures
        r == occurs_at(s@, lit@, i as int),
{
    let p = chars_of(lit);
    chars_occur_at(s, &p, i)
}

fn lit_between(s: &[char], lit: &str, from: usize, to: usize) -> (r: bool)
    requires
        to <= s@.len(),
    ensures
        r == occurs_between(s@, lit@, from as int, to as int),
{
    let p = chars_of(lit);
    chars_occur_between(s, &p, from, to)
}

fn lit_eq(s: &[char], lit: &str) -> (r: bool)
    ensures
        r == (s@ == lit@),
{
    let p = chars_of(lit);
    crate::text::chars_eq(s, &p)
}

fn remote_tracking_rest(s: &[char]) -> (r: bool)
    requires
        28 <= s@.len(),
    ensures
        r == exists|j: int| 28 <= j <= s@.len() && all_ws(s@.subrange(28, j)) && #[trigger] no_newline_from(s@, j),
{
    let mut j: usize = 28;
    while j < s.len() && is_whitespace(s[j])
        invariant
            28 <= j <= s@.len(),
            all_ws(s@.subrange(28, j as int)),
        decreases s.len() - j,
    {
        assert(s@.subrange(28, j + 1) =~= s@.subrange(28, j as int).push(s@[j as int]));
        j = j + 1;
    }
    let r = has_no_newline_from(s, j);
    proof {
        if r {
            assert(28 <= j <= s@.len() && all_ws(s@.subrange(28, j as int)) && no_newline_from(s@, j as int));
        } else {
            assert forall|j2: int| 28 <= j2 <= s@.len() && all_ws(s@.subrange(28, j2)) implies !#[trigger] no_newline_from(s@, j2) by {
                let k = choose|k: int| j <= k < s@.len() && s@[k] == '\n';
                if j2 > k {
                    assert(s@.subrange(28, j2)[k - 28] == s@[k]);
                    assert(is_ws(s@.subrange(28, j2)[k - 28]));
                    if j < s@.len() {
                        assert(s@.subrange(28, j2)[j - 28] == s@[j as int]);
                    }
                }
            }
        }
    }
    r
}

fn bump_at_pos(s: &[char], i: usize) -> (r: bool)
    requires
        i < s@.len(),
    ensures
        r == bump_at(s@, i as int),
{
    proof {
        reveal_strlit("Bump ");
        reveal_strlit("bump ");
        reveal_strlit(" from ");
        reveal_strlit(" to ");
    }
    let n = s.len();
    if !(lit_at(s, "Bump ", i) || lit_at(s, "bump ", i)) {
        return false;
    }
    let a = i + 5;
    let e1 = skip_non_ws(s, a);
    if !(e1 > a && lit_at(s, " from ", e1)) {
        return false;
    }
    let b = e1 + 6;
    let e2 = skip_non_ws(s, b);
    if !(e2 > b && lit_at(s, " to ", e2)) {
        return false;
    }
    e2 + 4 < s.len() && !is_whitespace(s[e2 + 4])
}

/// Whether `message` is one that is not linted (see `ignored`).
pub fn is_ignored(message: &str) -> (r: bool)
    ensures
        r == ignored(message@),
{
    let s = chars_of(message);
    let n = s.len();
    let mut i: usize = 0;
    while i < n && s[i] != '\n'
        invariant
            i <= s@.len(),
            n == s@.len(),
            newline_from(s@, 0) == newline_from(s@, i as int),
            forall|j: int| 0 <= j < i ==> #[trigger] s@[j] != '\n',
        decreases n - i,
    {
        i = i + 1;
    }
    let tail_ok = is_line_endings_only(&s, i);
    let single_line = i == n;
    proof {
        if single_line {
            assert(no_newline_from(s@, 0));
        } else {
            assert(s@[i as int] == '\n');
        }
    }
    let bump = n > 0 && bump_at_pos(&s, 0);
    proof {
        reveal_strlit("Merge remote-tracking branch");
    }
    let remote = n >= 28 && lit_at(&s, "Merge remote-tracking branch", 0) && remote_tracking_rest(&s);
    proof {
        reveal_strlit("Merge remote-tracking branch");
    }
    lit_at(&s, "Merge pull request", 0)
        || (tail_ok && lit_at(&s, "Merge ", 0) && lit_between(&s, " into ", 6, i))
        || (tail_ok && lit_at(&s, "Merge branch ", 0))
        || (tail_ok && lit_at(&s, "Merge tag ", 0))
        || lit_at(&s, "Revert ", 0)
        || lit_at(&s, "revert ", 0)
        || (single_line && lit_at(&s, "Merged ", 0) && (lit_between(&s, "in ", 7, n) || lit_between(&s, "into ", 7, n)))
        || (single_line && lit_at(&s, "Merged PR ", 0) && lit_between(&s, ": ", 10, n))
        || remote
        || (lit_at(&s, "Automatic merge", 0) && has_no_newline_from(&s, 15))
        || (single_line && lit_at(&s, "Auto-merged ", 0) && lit_between(&s, " into ", 12, n))
        || bump
        || lit_eq(&s, "Initial commit")
        || lit_eq(&s, "initial commit")
        || lit_eq(&s, "Initial Commit")
        || lit_eq(&s, "initial Commit")
}


// ---------------------------------------------------------------------------
// Comments and the verbose diff

/// The line git writes above the diff of `git commit --verbose`.
pub const SCISSORS_LINE: &'static str = "# ------------------------ >8 ------------------------";

/// The first occurrence of the scissors line at or after `i`, or `s.len()`.
pub open spec fn scissors_from(s: Seq<char>, i: int) -> int
    decreases s.len() - i,
{
    if i < 0 || i >= s.len() || i + SCISSORS_LINE@.len() > s.len() {
        s.len() as int
    } else if occurs_at(s, SCISSORS_LINE@, i) {
        i
    } else {
        scissors_from(s, i + 1)
    }
}

/// `s` up to the scissors line (all of `s` when there is none).
pub open spec fn before_diff(s: Seq<char>) -> Seq<char> {
    s.subrange(0, scissors_from(s, 0))
}

proof fn lemma_scissors_from(s: Seq<char>, i: int)
    requires
        0 <= i,
    ensures
        scissors_from(s, i) <= s.len(),
        i <= s.len() ==> i <= scissors_from(s, i),
    decreases s.len() - i,
{
    if i < s.len() && i + SCISSORS_LINE@.len() <= s.len() && !occurs_at(s, SCISSORS_LINE@, i) {
        lemma_scissors_from(s, i + 1);
    }
}

fn diff_start(s: &[char]) -> (k: usize)
    ensures
        k as int == scissors_from(s@, 0),
        k <= s@.len(),
{
    let p = chars_of(SCISSORS_LINE);
    let n = s.len();
    if p.len() == 0 {
        assert(s@.subrange(0, 0) =~= p@);
        return 0;
    }
    let mut i: usize = 0;
    while i < n && p.len() <= n - i
        invariant
            n == s@.len(),
            p@ == SCISSORS_LINE@,
            p@.len() > 0,
            scissors_from(s@, 0) == scissors_from(s@, i as int),
            i <= n,
        decreases n - i,
    {
        if chars_occur_at(s, &p, i) {
            return i;
        }
        i = i + 1;
    }
    proof {
        lemma_scissors_from(s@, 0);
    }
    n
}

/// The message shown back to the user: the text before the verbose diff,
/// trimmed.
pub open spec fn without_diff(s: Seq<char>) -> Seq<char> {
    trim(before_diff(s))
}

/// `message` without the verbose diff that git appends below the scissors
/// line, trimmed.
pub fn remove_diff_from_commit_message(message: &str) -> (r: String)
    ensures
        r@ == without_diff(message@),
{
    let s = chars_of(message);
    let k = diff_start(&s);
    let before = slice_chars(&s, 0, k);
    let (a, b) = trim_bounds(&before);
    let t = slice_chars(&before, a, b);
    string_of(&t)
}

/// A comment line starts with `#`.
pub open spec fn is_comment_line(line: Seq<char>) -> bool {
    line.len() > 0 && line[0] == '#'
}

/// `newline_from` finds the first `\n` at or after `i`.
pub proof fn lemma_newline_from(s: Seq<char>, i: int)
    requires
        0 <= i <= s.len(),
    ensures
        i <= newline_from(s, i) <= s.len(),
        newline_from(s, i) < s.len() ==> s[newline_from(s, i)] == '\n',
        forall|k: int| i <= k < newline_from(s, i) ==> #[trigger] s[k] != '\n',
    decreases s.len() - i,
{
    if i < s.len() && s[i] != '\n' {
        lemma_newline_from(s, i + 1);
    }
}

/// The lines of `s[from..]` (split at `\n`) that are not comment lines.
pub open spec fn uncommented_lines_from(s: Seq<char>, from: int) -> Seq<Seq<char>>
    decreases s.len() - from,
{
    if 0 <= from <= s.len() {
        let i = newline_from(s, from);
        let line = s.subrange(from, i);
        let rest = if i < s.len() {
            proof {
                lemma_newline_from(s, from);
            }
            uncommented_lines_from(s, i + 1)
        } else {
            seq![]
        };
        if is_comment_line(line) {
            rest
        } else {
            seq![line] + rest
        }
    } else {
        seq![]
    }
}

/// The lines joined with `\n` between them.
pub open spec fn join_lines(lines: Seq<Seq<char>>) -> Seq<char>
    decreases lines.len(),
{
    if lines.len() == 0 {
        seq![]
    } else if lines.len() == 1 {
        lines[0]
    } else {
        lines[0] + seq!['\n'] + join_lines(lines.drop_first())
    }
}

/// `s` without the verbose diff and without its comment lines.
pub open spec fn without_comments(s: Seq<char>) -> Seq<char> {
    join_lines(uncommented_lines_from(before_diff(s), 0))
}

fn uncommented_from(t: &[char], from: usize) -> (r: (Vec<char>, bool))
    requires
        from <= t@.len(),
    ensures
        r.0@ == join_lines(uncommented_lines_from(t@, from as int)),
        r.1 == (uncommented_lines_from(t@, from as int).len() > 0),
    decreases t@.len() - from,
{
    let n = t.len();
    let mut i = from;
    while i < n && t[i] != '\n'
        invariant
            from <= i <= n,
            n == t@.len(),
            newline_from(t@, from as int) == newline_from(t@, i as int),
        decreases n - i,
    {
        i = i + 1;
    }
    proof {
        lemma_newline_from(t@, from as int);
    }
    let line = slice_chars(t, from, i);
    let (rest, has_rest) = if i < n {
        uncommented_from(t, i + 1)
    } else {
        (Vec::new(), false)
    };
    let ghost rest_lines = if i < n {
        uncommented_lines_from(t@, i + 1)
    } else {
        Seq::<Seq<char>>::empty()
    };
    assert(rest@ == join_lines(rest_lines));
    assert(has_rest == (rest_lines.len() > 0));
    if line.len() > 0 && line[0] == '#' {
        return (rest, has_rest);
    }
    let ghost all = seq![line@] + rest_lines;
    assert(all.drop_first() =~= rest_lines);
    let mut out = line;
    if has_rest {
        out.push('\n');
        extend_chars(&mut out, &rest);
    }
    (out, true)
}

/// `message` without the verbose diff and without its comment lines (the
/// lines that start with `#`).
pub fn remove_comments(message: &str) -> (r: String)
    ensures
        r@ == without_comments(message@),
{
    let s = chars_of(message);
    let k = diff_start(&s);
    let before = slice_chars(&s, 0, k);
    let (kept, _) = uncommented_from(&before, 0);
    string_of(&kept)
}

} // verus!

//! What the tool reads from git: the message of a commit, the messages of a
//! range of commits, and whether a commit has no parent. Running git is the
//! caller's part; these functions take git's standard output.

use vstd::prelude::*;
use vstd::utf8::{decode_utf8, valid_utf8};
use crate::text::{chars_of, is_whitespace, is_ws, push_chars, slice_chars, string_of, trim, trim_bounds};
use crate::validators::views;

verus! {

/// The characters `String::from_utf8_lossy` decodes from `bytes`.
pub uninterp spec fn utf8_lossy(bytes: Seq<u8>) -> Seq<char>;

/// Calls `String::from_utf8_lossy`, which decodes `bytes` as UTF-8 and puts
/// U+FFFD in place of each invalid sequence. The contract names the result
/// `utf8_lossy(bytes)` and states what the documentation gives when the bytes
/// are valid UTF-8: the characters they encode. How invalid sequences are
/// replaced is left unsaid.
#[verifier::external_body]
fn decode_lossy(bytes: &[u8]) -> (s: String)
    ensures
        s@ == utf8_lossy(bytes@),
        valid_utf8(bytes@) ==> s@ == decode_utf8(bytes@),
{
    String::from_utf8_lossy(bytes).into_owned()
}

/// The message of a commit from the output of `git show --format=%B -s`:
/// the decoded output, trimmed.
pub fn commit_message_from_output(stdout: &[u8]) -> (r: String)
    ensures
        r@ == trim(utf8_lossy(stdout@)),
{
    let text = decode_lossy(stdout);
    crate::command::trim_message(text.as_str())
}

/// The first `\0` at or after `i`, or `s.len()`.
pub open spec fn nul_from(s: Seq<char>, i: int) -> int
    decreases s.len() - i,
{
    if 0 <= i < s.len() && s[i] != '\0' {
        nul_from(s, i + 1)
    } else {
        i
    }
}

/// `nul_from` stays within the message.
pub proof fn lemma_nul_from(s: Seq<char>, i: int)
    requires
        0 <= i <= s.len(),
    ensures
        i <= nul_from(s, i) <= s.len(),
    decreases s.len() - i,
{
    if i < s.len() && s[i] != '\0' {
        lemma_nul_from(s, i + 1);
    }
}

/// The messages in `s[from..]`, a log whose entries end with `\0`: each
/// entry trimmed, empty entries left out.
pub open spec fn log_messages_from(s: Seq<char>, from: int) -> Seq<Seq<char>>
    decreases s.len() - from,
{
    if 0 <= from <= s.len() {
        let i = nul_from(s, from);
        let entry = trim(s.subrange(from, i));
        let rest = if i < s.len() {
            proof {
                lemma_nul_from(s, from);
            }
            log_messages_from(s, i + 1)
        } else {
            seq![]
        };
        if entry.len() == 0 {
            rest
        } else {
            seq![entry] + rest
        }
    } else {
        seq![]
    }
}

/// The messages of a range of commits from the output of
/// `git log --pretty=format:%B%x00 --reverse`, oldest first: the decoded
/// output split at `\0`, each entry trimmed, empty entries left out.
pub fn commit_messages_from_log(stdout: &[u8]) -> (r: Vec<String>)
    ensures
        views(r@) == log_messages_from(utf8_lossy(stdout@), 0),
{
    let text = decode_lossy(stdout);
    split_commit_log(text.as_str())
}

/// The messages of a decoded log whose entries end with `\0`, in order: each
/// entry trimmed, empty entries left out.
pub fn split_commit_log(text: &str) -> (r: Vec<String>)
    ensures
        views(r@) == log_messages_from(text@, 0),
{
    let s = chars_of(text);
    let n = s.len();
    let mut messages: Vec<String> = Vec::new();
    let mut from: usize = 0;
    loop
        invariant
            from <= n,
            n == s@.len(),
            s@ == text@,
            log_messages_from(s@, 0) == views(messages@) + log_messages_from(s@, from as int),
        decreases n - from,
    {
        let mut i = from;
        while i < n && s[i] != '\0'
            invariant
                from <= i <= n,
                n == s@.len(),
                nul_from(s@, from as int) == nul_from(s@, i as int),
            decreases n - i,
        {
            i = i + 1;
        }
        let entry = slice_chars(&s, from, i);
        let (a, b) = trim_bounds(&entry);
        let ghost before = messages@;
        if b > a {
            let t = slice_chars(&entry, a, b);
            messages.push(string_of(&t));
            assert(views(messages@) =~= views(before) + seq![trim(entry@)]);
        }
        if i >= n {
            assert(log_messages_from(s@, from as int) == views(messages@).subrange(views(before).len() as int, views(messages@).len() as int));
            assert(views(messages@) =~= views(before) + log_messages_from(s@, from as int));
            return messages;
        }
        assert(log_messages_from(s@, from as int) == (if trim(entry@).len() == 0 { log_messages_from(s@, i + 1) } else { seq![trim(entry@)] + log_messages_from(s@, i + 1) }));
        assert(views(messages@) + log_messages_from(s@, i + 1) =~= views(before) + log_messages_from(s@, from as int));
        from = i + 1;
    }
}

/// The number of whitespace-separated words in `s` (`str::split_whitespace`).
pub open spec fn word_count(s: Seq<char>) -> nat
    decreases s.len(),
{
    if s.len() == 0 {
        0
    } else {
        let starts_word = !is_ws(s.last()) && (s.len() == 1 || is_ws(s[s.len() - 2]));
        word_count(s.drop_last()) + if starts_word { 1nat } else { 0nat }
    }
}

/// Whether a commit has no parent, from the output of
/// `git rev-list --parents -n 1 <hash>`: the output names the commit alone.
pub fn is_orphan_output(stdout: &[u8]) -> (r: bool)
    ensures
        r == (word_count(utf8_lossy(stdout@)) == 1),
{
    let text = decode_lossy(stdout);
    names_one_commit(text.as_str())
}

/// Whether the decoded output of `git rev-list --parents -n 1` holds exactly
/// one whitespace-separated word, the commit itself.
pub fn names_one_commit(text: &str) -> (r: bool)
    ensures
        r == (word_count(text@) == 1),
{
    let s = chars_of(text);
    let mut count: usize = 0;
    let mut k: usize = 0;
    while k < s.len()
        invariant
            k <= s@.len(),
            count == word_count(s@.subrange(0, k as int)),
            count <= k,
        decreases s.len() - k,
    {
        let starts_word = !is_whitespace(s[k]) && (k == 0 || is_whitespace(s[k - 1]));
        let ghost p = s@.subrange(0, k + 1);
        assert(p.drop_last() =~= s@.subrange(0, k as int));
        assert(p.last() == s@[k as int]);
        assert(k > 0 ==> p[p.len() - 2] == s@[k - 1]);
        if starts_word {
            count = count + 1;
        }
        k = k + 1;
    }
    assert(s@.subrange(0, s@.len() as int) =~= s@);
    count == 1
}

/// The revision range of the commits from `from_hash` to `to_hash`, both
/// included: `to_hash` alone when `from_hash` has no parent (everything up
/// to `to_hash`), and `from_hash^..to_hash` otherwise.
pub open spec fn revision_range(from_hash: Seq<char>, to_hash: Seq<char>, orphan: bool) -> Seq<char> {
    if orphan {
        to_hash
    } else {
        from_hash + "^.."@ + to_hash
    }
}

/// The revision range of the commits from `from_hash` to `to_hash`, both included.
pub fn commit_range(from_hash: &str, to_hash: &str, orphan: bool) -> (r: String)
    ensures
        r@ == revision_range(from_hash@, to_hash@, orphan),
{
    if orphan {
        to_hash.to_owned()
    } else {
        let mut r = from_hash.to_owned();
        let sep = chars_of("^..");
        push_chars(&mut r, &sep);
        let to = chars_of(to_hash);
        push_chars(&mut r, &to);
        r
    }
}

} // verus!

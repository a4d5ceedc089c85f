//! The commit types of the Conventional Commits grammar and the default header limit.

use vstd::prelude::*;

verus! {

/// The commit types a header may start with.
pub const COMMIT_TYPES: [&'static str; 12] = [
    "build",
    "ci",
    "docs",
    "feat",
    "fix",
    "perf",
    "refactor",
    "style",
    "test",
    "chore",
    "revert",
    "bump",
];

/// The conventional maximum length of a commit header.
pub const COMMIT_HEADER_MAX_LENGTH: usize = 72;

/// `t` is one of the commit types.
pub open spec fn is_commit_type(t: Seq<char>) -> bool {
    exists|i: int| 0 <= i < 12 && #[trigger] COMMIT_TYPES@[i]@ == t
}

/// Whether `t` is one of the commit types.
pub fn is_known_commit_type(t: &[char]) -> (r: bool)
    ensures
        r == is_commit_type(t@),
{
    let mut i: usize = 0;
    while i < 12
        invariant
            i <= 12,
            forall|k: int| 0 <= k < i ==> COMMIT_TYPES@[k]@ != t@,
        decreases 12 - i,
    {
        let candidate = crate::text::chars_of(COMMIT_TYPES[i]);
        if crate::text::chars_eq(&candidate, t) {
            return true;
        }
        i = i + 1;
    }
    false
}

} // verus!

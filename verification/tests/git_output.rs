use cocox::git_helpers::{
    commit_message_from_output, commit_messages_from_log, commit_range, is_orphan_output,
    names_one_commit, split_commit_log,
};

#[test]
fn commit_message_is_trimmed() {
    assert_eq!(commit_message_from_output(b"  feat: add new feature\n\n"), "feat: add new feature");
    assert_eq!(commit_message_from_output(b""), "");
}

#[test]
fn invalid_utf8_is_replaced() {
    assert_eq!(commit_message_from_output(b"feat: a\xffb\n"), "feat: a\u{FFFD}b");
}

#[test]
fn log_is_split_trimmed_and_filtered() {
    let log = b"feat: first commit\n\0fix: second commit\n\0\n\0chore: third commit\n\0";
    assert_eq!(
        commit_messages_from_log(log),
        vec!["feat: first commit", "fix: second commit", "chore: third commit"]
    );
    assert_eq!(commit_messages_from_log(b"feat: only"), vec!["feat: only"]);
    assert!(commit_messages_from_log(b"").is_empty());
}

#[test]
fn orphan_when_rev_list_names_one_commit() {
    assert!(is_orphan_output(b"0123abcd\n"));
    assert!(!is_orphan_output(b"0123abcd 4567ef01\n"));
    assert!(!is_orphan_output(b"  \n"));
}

#[test]
fn range_includes_the_first_commit() {
    assert_eq!(commit_range("abc", "def", false), "abc^..def");
    assert_eq!(commit_range("abc", "def", true), "def");
}

#[test]
fn decoded_log_and_rev_list_are_read() {
    assert_eq!(split_commit_log(" a \0\0b\n\0"), vec!["a", "b"]);
    assert!(split_commit_log("\0 \0").is_empty());
    assert!(names_one_commit("  abc \t"));
    assert!(!names_one_commit("abc\ndef"));
    assert!(!names_one_commit(""));
}

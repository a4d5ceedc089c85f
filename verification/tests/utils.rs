use cocox::utils::{is_empty, is_ignored, remove_comments, remove_diff_from_commit_message};

#[test]
fn empty_means_whitespace_only() {
    assert!(is_empty(""));
    assert!(is_empty(" \t\n\u{3000}"));
    assert!(!is_empty(" x "));
}

#[test]
fn merges_reverts_bumps_and_initial_commits_are_ignored() {
    assert!(is_ignored("Merge pull request #123"));
    assert!(is_ignored("Merge branch 'main' into develop"));
    assert!(is_ignored("Merge tag 'v1.0'\n"));
    assert!(is_ignored("Revert \"feat: x\""));
    assert!(is_ignored("Bump urllib3 from 1.26.5 to 1.26.17"));
    assert!(is_ignored("Initial commit"));
    assert!(!is_ignored("Initial commit x"));
    assert!(!is_ignored("build(deps-dev): bump @babel/traverse from 7.22.17 to 7.24.0"));
    assert!(!is_ignored("Merge branch 'main' into develop\nwith a body"));
    assert!(!is_ignored("feat: add new feature"));
}

#[test]
fn comment_lines_are_removed() {
    assert_eq!(
        remove_comments("feat(scope): add new feature\n#this is a comment"),
        "feat(scope): add new feature"
    );
    assert_eq!(remove_comments("#a\nfeat: x\n#b\n\nbody\n"), "feat: x\n\nbody\n");
    assert_eq!(remove_comments(""), "");
    assert_eq!(remove_comments("# only a comment"), "");
}

#[test]
fn the_verbose_diff_is_cut_off() {
    let message = "feat: x\n\n# Please enter\n# ------------------------ >8 ------------------------\n# Do not modify\ndiff --git a/f b/f";
    assert_eq!(remove_comments(message), "feat: x\n\n");
    assert_eq!(remove_diff_from_commit_message(message), "feat: x\n\n# Please enter");
    assert_eq!(remove_diff_from_commit_message("  feat: x  "), "feat: x");
}

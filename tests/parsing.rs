use twig::{merge_numstat, parse_diff, parse_worktrees, StatEntry};

#[test]
fn test_parse_worktrees() {
    let output = "worktree /path/to/repo\nHEAD 123456\nbranch refs/heads/main\n\nworktree /path/to/other\nHEAD abcdef\nbranch refs/heads/dev\n";
    let worktrees = parse_worktrees(output);
    assert_eq!(worktrees.len(), 2);
    assert_eq!(worktrees[0].path, "/path/to/repo");
    assert_eq!(worktrees[0].branch, "refs/heads/main");
    assert_eq!(worktrees[1].path, "/path/to/other");
    assert_eq!(worktrees[1].branch, "refs/heads/dev");
}

#[test]
fn worktrees_without_path_are_dropped() {
    let out = parse_worktrees("HEAD 1\n\nbare\nworktree /a\n");
    assert_eq!(out.len(), 1);
    assert_eq!(out[0].path, "/a");
    assert_eq!(out[0].head, "1");
    assert!(parse_worktrees("").is_empty());
}

#[test]
fn diff_splits_into_headers_and_hunks() {
    let diff = "diff --git a/x b/x\n--- a/x\n+++ b/x\n@@ -1 +1 @@\n-a\n+b\n@@ -5 +5 @@\n c\n";
    let (headers, hunks) = parse_diff(diff);
    assert_eq!(headers, vec!["diff --git a/x b/x", "--- a/x", "+++ b/x"]);
    assert_eq!(hunks.len(), 2);
    assert_eq!(hunks[0].header, "@@ -1 +1 @@");
    assert_eq!(hunks[0].content, "@@ -1 +1 @@\n-a\n+b\n");
    assert_eq!((hunks[0].display_start, hunks[0].display_end), (3, 5));
    assert_eq!((hunks[1].display_start, hunks[1].display_end), (6, 7));
    assert_eq!(hunks[1].content, "@@ -5 +5 @@\n c\n");
}

#[test]
fn diff_without_hunks_is_all_headers() {
    let (headers, hunks) = parse_diff("Binary files differ\r\n");
    assert_eq!(headers, vec!["Binary files differ"]);
    assert!(hunks.is_empty());
    let (headers, hunks) = parse_diff("");
    assert!(headers.is_empty() && hunks.is_empty());
}

#[test]
fn numstat_sums_per_path() {
    let mut stats: Vec<StatEntry> = Vec::new();
    merge_numstat(&mut stats, "3\t1\tsrc/a.rs\n-\t-\timg.png\nnot a line\n");
    merge_numstat(&mut stats, "2\t5\tsrc/a.rs\n");
    assert_eq!(stats.len(), 2);
    assert_eq!(stats[0], ("src/a.rs".to_string(), (5, 6)));
    assert_eq!(stats[1], ("img.png".to_string(), (0, 0)));
}

#[test]
fn indent_and_collapse_choice() {
    assert_eq!(twig::determine_indent(Some(4), Some("7".to_string())), 4);
    assert_eq!(twig::determine_indent(None, Some("7".to_string())), 7);
    assert_eq!(twig::determine_indent(None, Some("x".to_string())), 3);
    assert_eq!(twig::determine_indent(None, None), 3);
    assert_eq!(twig::determine_indent(Some(0), None), 2);
    assert_eq!(twig::determine_indent(None, Some("+40".to_string())), 10);
    assert!(twig::determine_collapse(true, None));
    assert!(twig::determine_collapse(false, Some("true".to_string())));
    assert!(!twig::determine_collapse(false, Some("yes".to_string())));
}

#[test]
fn actions_read_without_case() {
    assert_eq!(twig::parse_action("Quit"), Some(twig::Action::Quit));
    assert_eq!(twig::parse_action("JUMP_TO_TOP"), Some(twig::Action::JumpToTop));
    assert_eq!(twig::parse_action("visual"), Some(twig::Action::VisualMode));
    assert_eq!(twig::parse_action("nothing"), None);
}

#[test]
fn status_listing_records() {
    assert_eq!(twig::status_records("## main\n"), None);
    assert_eq!(twig::status_records(""), None);
    assert_eq!(
        twig::status_records("## main...origin/main\n M a.txt\n?? b\n"),
        Some(vec![" M a.txt".to_string(), "?? b".to_string()])
    );
    assert_eq!(twig::status_header("## main\n M a\n"), "## main");
    assert_eq!(twig::status_header(" M a\n"), "");
}

#[test]
fn branch_line_parts() {
    let h = twig::parse_branch_line("## main...origin/main [ahead 1, behind 2]");
    assert!(!h.no_commits);
    assert_eq!(h.local, "main");
    assert_eq!(h.remote, Some("origin/main".to_string()));
    assert_eq!(
        h.counts,
        vec![twig::BranchCount::Ahead("1".to_string()), twig::BranchCount::Behind("2".to_string())]
    );

    let h = twig::parse_branch_line("## feature");
    assert_eq!(h.local, "feature");
    assert_eq!(h.remote, None);
    assert!(h.counts.is_empty());

    let h = twig::parse_branch_line("## No commits yet on trunk");
    assert!(h.no_commits);
    assert_eq!(h.local, "trunk");

    let h = twig::parse_branch_line("## dev...up/dev [gone]");
    assert_eq!(h.remote, Some("up/dev".to_string()));
    assert_eq!(h.counts, vec![twig::BranchCount::Gone]);
}

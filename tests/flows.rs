use twig::{App, AppLayout, FilterMode, Focus, StatEntry, Theme, ViewMode};

fn fresh() -> App {
    App::new(2, false, Theme::ascii())
}

#[test]
fn refresh_staged_filter_keeps_staged_file_only() {
    let mut app = fresh();
    app.filter_mode = FilterMode::Staged;
    app.refresh("M  staged.txt\n M unstaged.txt\n", &Vec::new());
    let paths: Vec<&str> = app.unified_nodes.iter().map(|n| n.full_path.as_str()).collect();
    assert_eq!(paths, vec![".", "staged.txt"]);
    assert_eq!(app.unified_state, Some(0));

    app.filter_mode = FilterMode::All;
    app.refresh("M  staged.txt\n M unstaged.txt\n", &Vec::new());
    assert_eq!(app.unified_nodes.len(), 3);
}

#[test]
fn refresh_modified_filter_hides_untracked() {
    let mut app = fresh();
    app.filter_mode = FilterMode::Modified;
    app.refresh("?? new.txt\n M mod.txt\n", &Vec::new());
    let paths: Vec<&str> = app.unified_nodes.iter().map(|n| n.full_path.as_str()).collect();
    assert_eq!(paths, vec![".", "mod.txt"]);
}

#[test]
fn refresh_split_layout_fills_both_panes() {
    let mut app = fresh();
    app.layout = AppLayout::Split;
    app.focus = Focus::Unstaged;
    let stats: Vec<StatEntry> = vec![("src/a.rs".to_string(), (3, 1))];
    app.refresh("## main\nM  src/a.rs\n M src/b.rs\n", &stats);
    let staged: Vec<&str> = app.staged_nodes.iter().map(|n| n.full_path.as_str()).collect();
    assert_eq!(staged, vec![".", "src", "src/a.rs"]);
    let unstaged: Vec<&str> = app.unstaged_nodes.iter().map(|n| n.full_path.as_str()).collect();
    assert_eq!(unstaged, vec![".", "src", "src/b.rs"]);
    assert_eq!(app.staged_nodes[2].stats, Some((3, 1)));
    assert_eq!(app.unstaged_state, Some(0));
    assert_eq!(app.staged_state, Some(0));
    assert_eq!(app.global_stats, Some((3, 1)));
}

#[test]
fn refresh_clean_tree_empties_rows() {
    let mut app = fresh();
    app.unified_state = Some(3);
    app.refresh("## main\n", &Vec::new());
    assert!(app.unified_nodes.is_empty());
    assert_eq!(app.unified_state, None);
}

#[test]
fn rename_is_placed_at_old_path() {
    let mut app = fresh();
    let stats: Vec<StatEntry> = vec![("docs/new.md".to_string(), (2, 0))];
    app.refresh("R  docs/old.md -> docs/new.md\nR  a.txt -> sub/b.txt\n", &stats);
    let rows: Vec<(&str, &str)> = app.unified_nodes.iter().map(|n| (n.name.as_str(), n.full_path.as_str())).collect();
    assert_eq!(
        rows,
        vec![
            (".", "."),
            ("docs", "docs"),
            ("old.md -> new.md (R+)", "docs/old.md"),
            ("a.txt -> sub/b.txt (R+)", "a.txt"),
        ]
    );
    assert_eq!(app.unified_nodes[2].stats, Some((2, 0)));
}

#[test]
fn fold_all_then_unfold_all() {
    let mut app = fresh();
    let listing = " M src/a/x.rs\n M src/b.rs\n M top.rs\n";
    assert!(app.collapse_all(listing, &Vec::new()));
    let mut folded = app.collapsed_paths.clone();
    folded.sort();
    assert_eq!(folded, vec!["src".to_string(), "src/a".to_string()]);
    app.refresh(listing, &Vec::new());
    assert_eq!(app.unified_nodes.len(), 3);
    app.expand_all();
    app.refresh(listing, &Vec::new());
    assert_eq!(app.unified_nodes.len(), 6);
    assert!(!app.collapse_all("", &Vec::new()));
}

#[test]
fn diff_view_placeholder_and_errors() {
    let mut app = fresh();
    app.show_diff(Ok(String::new()), false);
    assert_eq!(app.view_mode, ViewMode::Diff);
    assert_eq!(app.diff_content, "(No diff or binary file)");
    app.show_diff(Ok(String::new()), true);
    assert_eq!(app.diff_content, "");
    app.show_diff(Err("boom".to_string()), false);
    assert_eq!(app.diff_content, "Error running git diff: boom");
    app.close_diff();
    assert_eq!(app.view_mode, ViewMode::Tree);
}

#[test]
fn diff_search_ignores_colour_and_case() {
    let mut app = fresh();
    app.show_diff(Ok("\x1b[32m+Hello\x1b[0m\n context\n-hello there\n".to_string()), false);
    app.diff_search_query = "HELLO".to_string();
    app.search_diff();
    assert_eq!(app.diff_matches, vec![0, 2]);
    assert_eq!(app.current_diff_match, Some(0));
    app.next_diff_match();
    assert_eq!(app.current_diff_match, Some(1));
    assert_eq!(app.diff_scroll, 2);
    app.next_diff_match();
    assert_eq!(app.current_diff_match, Some(0));
    app.prev_diff_match();
    assert_eq!(app.current_diff_match, Some(1));
    app.diff_search_query.clear();
    app.search_diff();
    assert!(app.diff_matches.is_empty());
}

#[test]
fn patch_mode_selects_and_stages_hunks() {
    let mut app = fresh();
    app.toggle_patch_mode();
    assert!(!app.patch_mode);
    app.show_diff(Ok("--- a/x\n+++ b/x\n@@ -1 +1 @@\n-a\n+b\n@@ -9 +9 @@\n-c\n+d\n".to_string()), false);
    app.toggle_patch_mode();
    assert!(app.patch_mode);
    assert_eq!(app.selected_hunk_idx, Some(0));
    assert_eq!(app.diff_scroll, 2);
    app.next_hunk();
    assert_eq!(app.selected_hunk_idx, Some(1));
    assert_eq!(app.diff_scroll, 5);
    app.next_hunk();
    assert_eq!(app.selected_hunk_idx, Some(1));
    assert_eq!(
        app.selected_hunk_patch(),
        Some("--- a/x\n+++ b/x\n@@ -9 +9 @@\n-c\n+d\n".to_string())
    );
    app.prev_hunk();
    assert_eq!(app.selected_hunk_idx, Some(0));
    app.prev_hunk();
    assert_eq!(app.selected_hunk_idx, Some(0));
    app.toggle_patch_mode();
    assert!(!app.patch_mode);
    assert!(app.diff_hunks.is_empty());
    assert_eq!(app.selected_hunk_idx, None);
}

#[test]
fn worktree_picker() {
    let mut app = fresh();
    app.open_worktrees(twig::parse_worktrees("worktree /r\n\nworktree /s\n"));
    assert!(app.show_worktrees);
    assert_eq!(app.worktree_state, Some(0));
    assert_eq!(app.selected_worktree_path(), Some("/r".to_string()));
    app.worktree_state = Some(1);
    assert_eq!(app.selected_worktree_path(), Some("/s".to_string()));
    app.close_worktrees();
    assert!(!app.show_worktrees);
}

#[test]
fn help_and_commit_dialog() {
    let mut app = fresh();
    app.max_help_scroll = 5;
    app.toggle_help();
    assert!(app.show_help);
    app.scroll_help(3);
    app.scroll_help(3);
    assert_eq!(app.help_scroll, 5);
    app.scroll_help(-10);
    assert_eq!(app.help_scroll, 0);
    app.open_commit_dialog();
    assert!(app.show_commit_dialog);
    app.commit_message.push_str("msg");
    app.close_commit_dialog();
    assert!(app.commit_message.is_empty());
    app.scroll_diff(-3);
    assert_eq!(app.diff_scroll, 0);
    app.scroll_diff(7);
    assert_eq!(app.diff_scroll, 7);
}

#[test]
fn theme_cycle() {
    let mut app = fresh();
    app.theme_type = twig::ThemeType::Nerd;
    app.toggle_theme();
    assert_eq!(app.theme_type, twig::ThemeType::Ascii);
    assert_eq!(app.theme.tree_end, '`');
    assert_eq!(twig::ThemeType::Ascii.next(), twig::ThemeType::Unicode);
}

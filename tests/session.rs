use twig::{Action, App, AppLayout, Effect, FilterMode, FlatNode, Focus, Key, Theme};

#[test]
fn interactive_test_filter_mode_transitions() {
    let mode = FilterMode::All;
    assert_eq!(mode.as_str(), "All");

    let mode = mode.next();
    assert_eq!(mode, FilterMode::Modified);
    assert_eq!(mode.as_str(), "Modified");

    let mode = mode.next();
    assert_eq!(mode, FilterMode::Staged);
    assert_eq!(mode.as_str(), "Staged");

    let mode = mode.next();
    assert_eq!(mode, FilterMode::All);
}

#[test]
fn interactive_test_focus_transitions() {
    let focus = Focus::Staged;
    assert_eq!(focus.next(), Focus::Unstaged);
    assert_eq!(focus.next().next(), Focus::Staged);
}

#[test]
fn app_test_filter_mode_transitions() {
    let mode = FilterMode::All;
    assert_eq!(mode.as_str(), "All");

    let mode = mode.next();
    assert_eq!(mode, FilterMode::Modified);
    assert_eq!(mode.as_str(), "Modified");

    let mode = mode.next();
    assert_eq!(mode, FilterMode::Staged);
    assert_eq!(mode.as_str(), "Staged");

    let mode = mode.next();
    assert_eq!(mode, FilterMode::All);
}

#[test]
fn app_test_app_layout_transitions() {
    let layout = AppLayout::Unified;
    assert_eq!(layout.next(), AppLayout::Split);
    assert_eq!(layout.next().next(), AppLayout::Compact);
    assert_eq!(layout.next().next().next(), AppLayout::Unified);
}

#[test]
fn app_test_focus_transitions() {
    let focus = Focus::Staged;
    assert_eq!(focus.next(), Focus::Unstaged);
    assert_eq!(focus.next().next(), Focus::Staged);
}

#[test]
fn test_filter_nodes() {
    let nodes = vec![
        FlatNode {
            name: "foo.rs".into(),
            name_colored: "foo.rs".into(),
            full_path: "src/foo.rs".into(),
            is_dir: false,
            status: ' ',
            raw_status: "??".into(),
            connector: "".into(),
            stats: None,
            depth: 0,
        },
        FlatNode {
            name: "bar.rs".into(),
            name_colored: "bar.rs".into(),
            full_path: "src/bar.rs".into(),
            is_dir: false,
            status: ' ',
            raw_status: "??".into(),
            connector: "".into(),
            stats: None,
            depth: 0,
        },
    ];

    let filtered = App::filter_nodes(&nodes, "foo");
    assert_eq!(filtered.len(), 1);
    assert_eq!(filtered[0].name, "foo.rs");

    let filtered_all = App::filter_nodes(&nodes, "");
    assert_eq!(filtered_all.len(), 2);

    let filtered_none = App::filter_nodes(&nodes, "baz");
    assert_eq!(filtered_none.len(), 0);
}

fn row(name: &str, path: &str, is_dir: bool, raw: &str) -> FlatNode {
    FlatNode {
        name: name.to_string(),
        name_colored: name.to_string(),
        full_path: path.to_string(),
        is_dir,
        status: ' ',
        raw_status: raw.to_string(),
        connector: String::new(),
        stats: None,
        depth: 0,
    }
}

fn session_with(rows: Vec<FlatNode>) -> App {
    let mut app = App::new(2, false, Theme::ascii());
    app.unified_nodes = rows;
    app
}

#[test]
fn filter_nodes_ignores_case() {
    let nodes = vec![row("README.md", "docs/README.md", false, "M"), row("a.rs", "src/a.rs", false, "M")];
    let found = App::filter_nodes(&nodes, "readme");
    assert_eq!(found.len(), 1);
    assert_eq!(found[0].full_path, "docs/README.md");
    let by_path = App::filter_nodes(&nodes, "SRC");
    assert_eq!(by_path.len(), 1);
    assert_eq!(by_path[0].name, "a.rs");
}

#[test]
fn next_flashes_at_bottom_then_wraps() {
    let mut app = session_with(vec![row("a", "a", false, "M"), row("b", "b", false, "M")]);
    app.unified_state = Some(0);
    app.next();
    assert_eq!(app.unified_state, Some(1));
    app.next();
    assert_eq!(app.unified_state, Some(1));
    assert!(app.hit_bottom_edge);
    app.next();
    assert_eq!(app.unified_state, Some(0));
    assert!(!app.hit_bottom_edge);
}

#[test]
fn previous_flashes_at_top_then_wraps() {
    let mut app = session_with(vec![row("a", "a", false, "M"), row("b", "b", false, "M"), row("c", "c", false, "M")]);
    app.unified_state = Some(0);
    app.previous();
    assert_eq!(app.unified_state, Some(0));
    assert!(app.hit_top_edge);
    app.previous();
    assert_eq!(app.unified_state, Some(2));
}

#[test]
fn next_file_skips_directories() {
    let mut app = session_with(vec![
        row(".", ".", true, "M"),
        row("src", "src", true, "M"),
        row("a.rs", "src/a.rs", false, "M"),
        row("docs", "docs", true, "M"),
        row("b.md", "docs/b.md", false, "M"),
    ]);
    app.unified_state = Some(0);
    app.next_file();
    assert_eq!(app.unified_state, Some(2));
    app.next_file();
    assert_eq!(app.unified_state, Some(4));
    app.next_file();
    assert_eq!(app.unified_state, Some(4));
    assert!(app.hit_bottom_edge);
    app.next_file();
    assert_eq!(app.unified_state, Some(2));
    app.previous_file();
    assert_eq!(app.unified_state, Some(0));
    assert!(app.hit_top_edge);
}

#[test]
fn previous_file_wraps_after_flash() {
    let mut app = session_with(vec![row("a", "a", false, "M"), row("d", "d", true, "M"), row("b", "b", false, "M")]);
    app.unified_state = Some(0);
    app.previous_file();
    assert_eq!(app.unified_state, Some(0));
    assert!(app.hit_top_edge);
    app.previous_file();
    assert_eq!(app.unified_state, Some(2));
    app.previous_file();
    assert_eq!(app.unified_state, Some(0));
}

#[test]
fn visual_range_follows_cursor() {
    let mut app = session_with(vec![row("a", "a", false, "M"), row("b", "b", false, "M"), row("c", "c", false, "M")]);
    app.unified_state = Some(1);
    app.toggle_visual_mode();
    assert_eq!(app.get_visual_range(), Some((1, 1)));
    app.next();
    assert_eq!(app.get_visual_range(), Some((1, 2)));
    app.previous();
    app.previous();
    assert_eq!(app.get_visual_range(), Some((0, 1)));
    app.toggle_visual_mode();
    assert_eq!(app.get_visual_range(), None);
    assert_eq!(app.visual_origin, None);
}

#[test]
fn stage_plan_direction_comes_from_first_row() {
    let mut app = session_with(vec![row("a", "a", false, "M+"), row("b", "b", false, "M"), row("c", "c", false, "??")]);
    app.unified_state = Some(0);
    app.toggle_visual_mode();
    app.next();
    app.next();
    let (paths, action) = app.stage_plan().unwrap();
    assert_eq!(paths, vec!["a".to_string(), "b".to_string(), "c".to_string()]);
    assert_eq!(action, twig::StageAction::Unstage);
    app.record_staging(paths, action);
    assert!(!app.is_visual_mode);
    assert_eq!(app.history.undo_stack.len(), 1);

    app.unified_state = Some(1);
    let (paths, action) = app.stage_plan().unwrap();
    assert_eq!(paths, vec!["b".to_string()]);
    assert_eq!(action, twig::StageAction::Stage);
}

#[test]
fn stage_plan_needs_a_row() {
    let app = session_with(Vec::new());
    assert!(app.stage_plan().is_none());
}

#[test]
fn fold_and_unfold_selected_directory() {
    let mut app = session_with(vec![row("src", "src", true, "M"), row("a.rs", "src/a.rs", false, "M")]);
    app.unified_state = Some(0);
    assert!(app.collapse_node());
    assert_eq!(app.collapsed_paths, vec!["src".to_string()]);
    assert!(!app.collapse_node());
    assert!(app.expand_node());
    assert!(app.collapsed_paths.is_empty());
    app.unified_state = Some(1);
    assert!(!app.collapse_node());
}

#[test]
fn adjust_selection_clamps() {
    assert_eq!(twig::session::adjust_selection(3, Some(5), false), Some(2));
    assert_eq!(twig::session::adjust_selection(0, Some(5), true), None);
    assert_eq!(twig::session::adjust_selection(3, None, true), Some(0));
    assert_eq!(twig::session::adjust_selection(3, None, false), Some(0));
    assert_eq!(twig::session::adjust_selection(3, Some(1), true), Some(1));
}

#[test]
fn scroll_paging_stops_at_ends() {
    let rows = (0..20).map(|i| row(&format!("f{}", i), &format!("f{}", i), false, "M")).collect();
    let mut app = session_with(rows);
    app.unified_state = Some(10);
    app.scroll_paging(15);
    assert_eq!(app.unified_state, Some(19));
    app.scroll_paging(-15);
    assert_eq!(app.unified_state, Some(4));
    app.scroll_paging(-15);
    assert_eq!(app.unified_state, Some(0));
}

#[test]
fn jumps_reset_edges() {
    let mut app = session_with(vec![row("a", "a", false, "M"), row("b", "b", false, "M")]);
    app.hit_top_edge = true;
    app.jump_to_bottom();
    assert_eq!(app.unified_state, Some(1));
    assert!(!app.hit_top_edge);
    app.jump_to_top();
    assert_eq!(app.unified_state, Some(0));
}

#[test]
fn split_layout_uses_focused_pane() {
    let mut app = App::new(2, false, Theme::ascii());
    app.layout = AppLayout::Split;
    app.staged_nodes = vec![row("s", "s", false, "M+")];
    app.unstaged_nodes = vec![row("u", "u", false, "M"), row("v", "v", false, "M")];
    app.focus = Focus::Staged;
    app.staged_state = Some(0);
    assert_eq!(app.diff_target(), Some(("s".to_string(), true, false)));
    app.toggle_focus();
    app.unstaged_state = Some(1);
    assert_eq!(app.diff_target(), Some(("v".to_string(), false, false)));
}

#[test]
fn toggle_filter_only_in_unified_layout() {
    let mut app = App::new(2, false, Theme::ascii());
    assert!(app.toggle_filter());
    assert_eq!(app.filter_mode, FilterMode::Modified);
    app.toggle_layout();
    assert_eq!(app.layout, AppLayout::Split);
    assert!(!app.toggle_filter());
    assert_eq!(app.filter_mode, FilterMode::Modified);
}

#[test]
fn yank_joins_visual_paths() {
    let mut app = session_with(vec![row("a", "x/a", false, "M"), row("b", "x/b", false, "M")]);
    app.unified_state = Some(0);
    assert_eq!(app.yank_path(), Some("x/a".to_string()));
    app.toggle_visual_mode();
    app.next();
    assert_eq!(app.yank_path(), Some("x/a\nx/b".to_string()));
    assert!(!app.is_visual_mode);
}

#[test]
fn keys_drive_the_session() {
    let mut app = session_with(vec![row("a", "a", false, "M"), row("b", "b", false, "M")]);
    app.unified_state = Some(1);
    assert_eq!(app.handle_key(Key::Char('g'), false, None), Effect::Nothing);
    assert_eq!(app.pending_key, Some('g'));
    assert_eq!(app.handle_key(Key::Char('g'), false, None), Effect::Nothing);
    assert_eq!(app.unified_state, Some(0));
    assert_eq!(app.pending_key, None);
    assert_eq!(app.handle_key(Key::Char('j'), false, Some(Action::MoveDown)), Effect::Nothing);
    assert_eq!(app.unified_state, Some(1));
    assert_eq!(app.handle_key(Key::Char('s'), false, Some(Action::Stage)), Effect::ToggleStage);
    assert_eq!(app.handle_key(Key::Char('q'), false, Some(Action::Quit)), Effect::Quit);
    assert_eq!(app.handle_key(Key::Char('/'), false, Some(Action::Search)), Effect::Nothing);
    assert!(app.is_typing_search);
    app.handle_key(Key::Char('x'), false, None);
    app.handle_key(Key::Char('y'), false, None);
    app.handle_key(Key::Backspace, false, None);
    assert_eq!(app.search_query, "x");
    app.handle_key(Key::Enter, false, None);
    assert!(!app.is_typing_search);
    assert_eq!(app.handle_key(Key::Esc, false, Some(Action::Back)), Effect::Nothing);
    assert_eq!(app.search_query, "");
    app.layout = AppLayout::Split;
    assert_eq!(app.handle_key(Key::Char('f'), false, Some(Action::Filter)), Effect::Nothing);
    app.view_mode = twig::ViewMode::Diff;
    app.handle_key(Key::Char('d'), true, None);
    assert_eq!(app.diff_scroll, 15);
    app.handle_key(Key::Esc, false, Some(Action::Back));
    assert_eq!(app.view_mode, twig::ViewMode::Tree);
}

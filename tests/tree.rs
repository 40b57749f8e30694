use twig::{get_collapsed_view, render_rows, Node, NodeType, Theme};

#[test]
fn test_node_directory_status() {
    let child1 = Node::new_file("a".to_string(), "a".to_string(), "M+".to_string(), None);
    let child2 = Node::new_file("b".to_string(), "b".to_string(), "A+".to_string(), None);
    let dir_staged = Node::new_dir("dir".to_string(), "dir".to_string(), vec![child1, child2]);
    assert_eq!(dir_staged.get_raw_status(), "M+");

    let child3 = Node::new_file("c".to_string(), "c".to_string(), "M+".to_string(), None);
    let child4 = Node::new_file("d".to_string(), "d".to_string(), "M".to_string(), None);
    let dir_mixed = Node::new_dir("dir_mixed".to_string(), "dir_mixed".to_string(), vec![child3, child4]);
    assert_eq!(dir_mixed.get_raw_status(), "M");

    let child5 = Node::new_file("e".to_string(), "e".to_string(), "??".to_string(), None);
    let dir_unstaged = Node::new_dir("dir_unstaged".to_string(), "dir_unstaged".to_string(), vec![child5]);
    assert_eq!(dir_unstaged.get_raw_status(), "M");

    let nested_dir = Node::new_dir(
        "nested".to_string(),
        "nested".to_string(),
        vec![Node::new_file("f".to_string(), "f".to_string(), "M".to_string(), None)],
    );
    let parent_dir = Node::new_dir("parent".to_string(), "parent".to_string(), vec![nested_dir]);
    assert_eq!(parent_dir.get_raw_status(), "M");

    let nested_dir_staged = Node::new_dir(
        "nested_s".to_string(),
        "nested_s".to_string(),
        vec![Node::new_file("g".to_string(), "g".to_string(), "M+".to_string(), None)],
    );
    let parent_dir_staged = Node::new_dir("parent_s".to_string(), "parent_s".to_string(), vec![nested_dir_staged]);
    assert_eq!(parent_dir_staged.get_raw_status(), "M+");
}

#[test]
fn test_flatten_collapsed() {
    let theme = Theme::ascii();

    let grandchild = Node {
        name: "grandchild_file".to_string(),
        full_path: "root/child_dir/grandchild_file".to_string(),
        node_type: NodeType::File { status: "M ".to_string(), stats: None },
    };

    let child_dir = Node {
        name: "child_dir".to_string(),
        full_path: "root/child_dir".to_string(),
        node_type: NodeType::Directory { children: vec![grandchild] },
    };

    let child_file = Node {
        name: "child_file".to_string(),
        full_path: "root/child_file".to_string(),
        node_type: NodeType::File { status: "??".to_string(), stats: None },
    };

    let root = Node {
        name: "root".to_string(),
        full_path: "root".to_string(),
        node_type: NodeType::Directory { children: vec![child_dir, child_file] },
    };

    let empty_set: Vec<String> = Vec::new();
    let flattened_full = root.flatten(2, false, &theme, &empty_set);
    assert_eq!(flattened_full.len(), 4);
    assert_eq!(flattened_full[1].name, "child_dir");
    assert_eq!(flattened_full[2].name, "grandchild_file (M )");

    let collapsed = vec!["root/child_dir".to_string()];
    let flattened_collapsed = root.flatten(2, false, &theme, &collapsed);
    assert_eq!(flattened_collapsed.len(), 3);
    assert_eq!(flattened_collapsed[1].name, "child_dir");
    assert_eq!(flattened_collapsed[2].name, "child_file (??)");
}

#[test]
fn test_icon_spacing() {
    let theme = Theme::nerd();
    let node = Node::new_file("test.rs".into(), "test.rs".into(), "M".into(), None);
    let display = node.format_name(&theme);
    assert!(display.contains('\u{e7a8}') || display.contains('\u{1f980}'));
}

#[test]
fn test_display_name_clean() {
    let theme = Theme::unicode();
    let node = Node::new_file("test.rs".into(), "test.rs".into(), "M".into(), None);
    let clean = node.get_display_name_clean(&theme);
    assert_eq!(clean, "test.rs (M)");
}

#[test]
fn test_render_tree_simple() {
    let theme = Theme::ascii();
    let file = Node::new_file("a.txt".into(), "a.txt".into(), "M".into(), None);
    let dir = Node::new_dir("src".into(), "src".into(), vec![file]);
    let root = Node::new_dir(".".into(), ".".into(), vec![dir]);

    let rendered = root.render_tree(4, false, &theme);
    assert!(rendered.contains("."));
    assert!(rendered.contains("`--"));
    assert!(rendered.contains("src"));
    assert!(rendered.contains("a.txt"));
}

fn file(name: &str, path: &str, status: &str) -> Node {
    Node::new_file(name.to_string(), path.to_string(), status.to_string(), None)
}

#[test]
fn children_sorted_directories_first() {
    let dir = Node::new_dir(
        ".".into(),
        ".".into(),
        vec![
            file("b.txt", "b.txt", "M"),
            Node::new_dir("zeta".into(), "zeta".into(), vec![file("z", "zeta/z", "M")]),
            file("a.txt", "a.txt", "M"),
            Node::new_dir("alpha".into(), "alpha".into(), vec![file("y", "alpha/y", "M")]),
        ],
    );
    if let NodeType::Directory { children } = &dir.node_type {
        let names: Vec<&str> = children.iter().map(|c| c.name.as_str()).collect();
        assert_eq!(names, vec!["alpha", "zeta", "a.txt", "b.txt"]);
    } else {
        panic!("expected a directory");
    }
}

#[test]
fn unstaged_leaf_marks_every_ancestor() {
    let deep = Node::new_dir("c".into(), "a/b/c".into(), vec![file("x", "a/b/c/x", "M+"), file("y", "a/b/c/y", "M")]);
    let mid = Node::new_dir("b".into(), "a/b".into(), vec![deep, file("z", "a/b/z", "A+")]);
    let top = Node::new_dir("a".into(), "a".into(), vec![mid]);
    assert_eq!(top.get_raw_status(), "M");
    let empty = Node::new_dir("e".into(), "e".into(), Vec::new());
    assert_eq!(empty.get_raw_status(), "");
}

#[test]
fn status_chars() {
    assert_eq!(file("a", "a", "M+").get_status_char(), '+');
    assert_eq!(file("a", "a", "??").get_status_char(), '?');
    assert_eq!(file("a", "a", "D").get_status_char(), 'M');
    assert_eq!(Node::new_dir("d".into(), "d".into(), Vec::new()).get_status_char(), ' ');
}

#[test]
fn folding_drops_exactly_the_contents() {
    let theme = Theme::ascii();
    let src = Node::new_dir(
        "src".into(),
        "src".into(),
        vec![file("a.rs", "src/a.rs", "M"), Node::new_dir("m".into(), "src/m".into(), vec![file("b.rs", "src/m/b.rs", "M")])],
    );
    let root = Node::new_dir(".".into(), ".".into(), vec![src, file("top.txt", "top.txt", "??")]);
    let open = root.flatten(2, false, &theme, &Vec::new());
    let folded = root.flatten(2, false, &theme, &vec!["src".to_string()]);
    assert_eq!(open.len(), 6);
    assert_eq!(folded.len(), 3);
    assert_eq!(open.len() - folded.len(), 3);
    assert_eq!(folded[1].full_path, "src");
    assert_eq!(folded[2].full_path, "top.txt");
}

#[test]
fn chain_collapsing_joins_names() {
    let theme = Theme::ascii();
    let c = Node::new_dir("c".into(), "a/b/c".into(), vec![file("f", "a/b/c/f", "M")]);
    let b = Node::new_dir("b".into(), "a/b".into(), vec![c]);
    let a = Node::new_dir("a".into(), "a".into(), vec![b]);
    let (name, end) = get_collapsed_view(&a, "/");
    assert_eq!(name, "a/b/c");
    assert_eq!(end.full_path, "a/b/c");
    let root = Node::new_dir(".".into(), ".".into(), vec![a]);
    let rows = root.flatten(2, true, &theme, &Vec::new());
    assert_eq!(rows.len(), 3);
    assert_eq!(rows[1].name, "a/b/c");
    assert_eq!(rows[1].full_path, "a/b/c");
    assert_eq!(rows[2].name, "f (M)");
    let plain = root.flatten(2, false, &theme, &Vec::new());
    assert_eq!(plain.len(), 5);
}

#[test]
fn chain_collapsing_skips_directory_with_two_children() {
    let two = Node::new_dir("d".into(), "d".into(), vec![file("x", "d/x", "M"), file("y", "d/y", "M")]);
    let (name, end) = get_collapsed_view(&two, "/");
    assert_eq!(name, "d");
    assert_eq!(end.full_path, "d");
    let only_file = Node::new_dir("e".into(), "e".into(), vec![file("x", "e/x", "M")]);
    let (name, _) = get_collapsed_view(&only_file, "/");
    assert_eq!(name, "e");
}

#[test]
fn connectors_draw_the_tree() {
    let theme = Theme::ascii();
    let src = Node::new_dir("src".into(), "src".into(), vec![file("a.rs", "src/a.rs", "M")]);
    let root = Node::new_dir(".".into(), ".".into(), vec![src, file("z.txt", "z.txt", "M")]);
    let rows = root.flatten(3, false, &theme, &Vec::new());
    assert_eq!(rows[0].connector, "");
    assert_eq!(rows[1].connector, "|- ");
    assert_eq!(rows[2].connector, "|  `- ");
    assert_eq!(rows[3].connector, "`- ");
    assert_eq!(rows[2].depth, 2);
}

#[test]
fn bar_counts_scale_to_cap() {
    assert_eq!(twig::bar_counts(3, 2), (3, 2));
    assert_eq!(twig::bar_counts(10, 0), (10, 0));
    assert_eq!(twig::bar_counts(30, 10), (8, 2));
    assert_eq!(twig::bar_counts(1, 19), (1, 9));
    assert_eq!(twig::bar_counts(5, 15), (3, 7));
    for (a, d) in [(7, 8), (100, 1), (0, 50), (999, 1000)] {
        let (p, m) = twig::bar_counts(a, d);
        assert_eq!(p + m, 10);
    }
}

#[test]
fn render_rows_pads_and_draws_bars() {
    let theme = Theme::ascii();
    let root = Node::new_dir(
        ".".into(),
        ".".into(),
        vec![Node::new_file("a.txt".into(), "a.txt".into(), "M".into(), Some((3, 1)))],
    );
    let rows = root.flatten(2, false, &theme, &Vec::new());
    let text = render_rows(&rows, &theme);
    let lines: Vec<&str> = text.lines().collect();
    assert_eq!(lines.len(), 2);
    assert!(lines[1].contains(" | 4 "));
    assert!(lines[1].contains("+++"));
    assert!(lines[1].starts_with("` "));
    assert_eq!(twig::render::max_row_width(&rows), "` ".len() + "a.txt (M)".len());
}

#[test]
fn render_tree_one_line_per_row_aligned() {
    let theme = Theme::ascii();
    let root = Node::new_dir(
        ".".into(),
        ".".into(),
        vec![
            Node::new_file("long_name.txt".into(), "long_name.txt".into(), "M".into(), Some((30, 10))),
            Node::new_file("b".into(), "b".into(), "M".into(), Some((0, 0))),
        ],
    );
    let text = root.render_tree(2, false, &theme);
    let lines: Vec<&str> = text.lines().collect();
    assert_eq!(lines.len(), 3);
    assert!(lines[2].contains(" | 40 "));
    assert!(!lines[1].contains(" | "));
    assert_eq!(lines[1].len(), lines[2].find(" | ").unwrap());
    assert_eq!(twig::render::bar_glyphs(30, 10, &theme), ("++++++++".to_string(), "--".to_string()));
}

#[test]
fn empty_listing_builds_empty_root() {
    let root = twig::build_tree(Vec::new(), &Vec::new(), false, false);
    if let NodeType::Directory { children } = root.node_type {
        assert!(children.is_empty());
    } else {
        panic!("expected a directory");
    }
}

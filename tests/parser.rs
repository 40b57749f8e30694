use twig::{build_tree, parse_status_line, NodeType, StatEntry};

#[test]
fn test_parse_status_simple() {
    assert_eq!(
        parse_status_line("M  file.txt").unwrap(),
        ("file.txt".to_string(), "M+".to_string())
    );
    assert_eq!(
        parse_status_line("?? file.txt").unwrap(),
        ("file.txt".to_string(), "??".to_string())
    );
    assert_eq!(
        parse_status_line("D  file.txt").unwrap(),
        ("file.txt".to_string(), "D+".to_string())
    );
    assert_eq!(
        parse_status_line("A  file.txt").unwrap(),
        ("file.txt".to_string(), "A+".to_string())
    );
}

#[test]
fn test_parse_status_modified_staged() {
    assert_eq!(
        parse_status_line("MM file.txt").unwrap(),
        ("file.txt".to_string(), "M".to_string())
    );
    assert_eq!(
        parse_status_line("AM file.txt").unwrap(),
        ("file.txt".to_string(), "M".to_string())
    );
}

#[test]
fn test_parse_status_rename() {
    assert_eq!(
        parse_status_line("R  old.txt -> new.txt").unwrap(),
        ("old.txt -> new.txt".to_string(), "R+".to_string())
    );
}

#[test]
fn test_parse_status_spaces() {
    assert_eq!(
        parse_status_line("M  my file with spaces.txt").unwrap(),
        ("my file with spaces.txt".to_string(), "M+".to_string())
    );
}

#[test]
fn test_parse_short_line() {
    assert_eq!(parse_status_line(""), None);
    assert_eq!(parse_status_line("M"), None);
    assert_eq!(parse_status_line("M  "), None);
}

#[test]
fn test_build_tree_filtering_staged() {
    let lines = vec!["M  staged.txt".to_string(), " M unstaged.txt".to_string()];
    let stats: Vec<StatEntry> = Vec::new();

    let node = build_tree(lines.clone(), &stats, true, false);
    if let NodeType::Directory { children } = node.node_type {
        assert_eq!(children.len(), 1);
        assert!(children.iter().any(|c| c.name == "staged.txt"));
    } else {
        panic!("Root should be a directory");
    }

    let node = build_tree(lines, &stats, false, false);
    if let NodeType::Directory { children } = node.node_type {
        assert_eq!(children.len(), 2);
    } else {
        panic!("Root should be a directory");
    }
}

#[test]
fn test_build_tree_filtering_modified() {
    let lines = vec!["?? untracked.txt".to_string(), " M modified.txt".to_string()];
    let stats: Vec<StatEntry> = Vec::new();

    let node = build_tree(lines.clone(), &stats, false, true);
    if let NodeType::Directory { children } = node.node_type {
        assert_eq!(children.len(), 1);
        assert!(children.iter().any(|c| c.name == "modified.txt"));
    } else {
        panic!("Root should be a directory");
    }

    let node = build_tree(lines, &stats, false, false);
    if let NodeType::Directory { children } = node.node_type {
        assert_eq!(children.len(), 2);
    } else {
        panic!("Root should be a directory");
    }
}

#[test]
fn renames_land_at_old_path() {
    let stats: Vec<StatEntry> = vec![("d/new.txt".to_string(), (3, 1))];
    let root = build_tree(vec!["R  d/old.txt -> d/new.txt".to_string()], &stats, false, false);
    let NodeType::Directory { children } = root.node_type else { panic!("root") };
    assert_eq!(children.len(), 1);
    assert_eq!(children[0].name, "d");
    assert_eq!(children[0].full_path, "d");
    let NodeType::Directory { children: inner } = &children[0].node_type else { panic!("d") };
    assert_eq!(inner.len(), 1);
    assert_eq!(inner[0].name, "old.txt -> new.txt");
    assert_eq!(inner[0].full_path, "d/old.txt");
    assert_eq!(inner[0].get_raw_status(), "R+");
    assert_eq!(inner[0].get_stats(), Some((3, 1)));

    let stats: Vec<StatEntry> = vec![("a/x.txt".to_string(), (9, 9))];
    let root = build_tree(vec!["R  a/x.txt -> b/y.txt".to_string()], &stats, false, false);
    let NodeType::Directory { children } = root.node_type else { panic!("root") };
    assert_eq!(children.len(), 1);
    assert_eq!(children[0].name, "a");
    let NodeType::Directory { children: inner } = &children[0].node_type else { panic!("a") };
    assert_eq!(inner[0].name, "x.txt -> b/y.txt");
    assert_eq!(inner[0].get_stats(), None);
}

#[test]
fn input_order_does_not_matter() {
    let a = vec![" M z/b.txt".to_string(), "?? a.txt".to_string(), "M  z/a.txt".to_string()];
    let mut b = a.clone();
    b.reverse();
    let stats: Vec<StatEntry> = Vec::new();
    let ra = build_tree(a, &stats, false, false).flatten(2, false, &twig::Theme::ascii(), &Vec::new());
    let rb = build_tree(b, &stats, false, false).flatten(2, false, &twig::Theme::ascii(), &Vec::new());
    let pa: Vec<(String, String)> = ra.iter().map(|r| (r.full_path.clone(), r.raw_status.clone())).collect();
    let pb: Vec<(String, String)> = rb.iter().map(|r| (r.full_path.clone(), r.raw_status.clone())).collect();
    assert_eq!(pa, pb);
    assert_eq!(pa.len(), 5);
}

#[test]
fn path_through_a_file_is_dropped() {
    let stats: Vec<StatEntry> = Vec::new();
    let root = build_tree(vec![" M a".to_string(), " M a/b".to_string()], &stats, false, false);
    let NodeType::Directory { children } = root.node_type else { panic!("root") };
    assert_eq!(children.len(), 1);
    assert!(children[0].is_file());
}

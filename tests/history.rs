use twig::{ActionHistory, App, HistoryEntry, StageAction, Theme};

#[test]
fn test_push_clear_redo() {
    let mut history = ActionHistory::default();
    history.push_action(vec!["a".to_string()], StageAction::Stage);
    assert_eq!(history.undo_stack.len(), 1);

    history.redo_stack.push(HistoryEntry { paths: vec!["b".to_string()], action: StageAction::Unstage });
    history.push_action(vec!["c".to_string()], StageAction::Stage);
    assert_eq!(history.redo_stack.len(), 0);
}

#[test]
fn test_undo_redo_stack() {
    let mut history = ActionHistory::default();
    let paths = vec!["test.rs".to_string()];
    history.push_action(paths.clone(), StageAction::Stage);

    let undo_entry = history.undo().unwrap();
    assert_eq!(undo_entry.paths, paths);
    assert_eq!(undo_entry.action, StageAction::Stage);
    assert_eq!(history.undo_stack.len(), 0);
    assert_eq!(history.redo_stack.len(), 1);

    let redo_entry = history.redo().unwrap();
    assert_eq!(redo_entry.paths, paths);
    assert_eq!(redo_entry.action, StageAction::Stage);
    assert_eq!(history.undo_stack.len(), 1);
    assert_eq!(history.redo_stack.len(), 0);
}

#[test]
fn empty_history_undoes_nothing() {
    let mut history = ActionHistory::new();
    assert!(history.undo().is_none());
    assert!(history.redo().is_none());
    history.push_action(vec!["x".to_string()], StageAction::Unstage);
    history.clear();
    assert_eq!(history.undo_len(), 0);
    assert_eq!(history.redo_len(), 0);
}

fn apply(staged: &mut Vec<String>, paths: &[String], action: StageAction) {
    for p in paths {
        match action {
            StageAction::Stage => {
                if !staged.contains(p) {
                    staged.push(p.clone());
                }
            }
            StageAction::Unstage => staged.retain(|s| s != p),
        }
    }
}

#[test]
fn undo_then_redo_restores_staged_set() {
    let mut staged = vec!["keep".to_string()];
    let mut history = ActionHistory::new();
    let paths = vec!["a".to_string(), "b".to_string()];
    apply(&mut staged, &paths, StageAction::Stage);
    history.push_action(paths, StageAction::Stage);
    let before: Vec<String> = staged.clone();

    let e = history.undo().unwrap();
    let inverse = if e.action == StageAction::Stage { StageAction::Unstage } else { StageAction::Stage };
    apply(&mut staged, &e.paths, inverse);
    assert_eq!(staged, vec!["keep".to_string()]);

    let e = history.redo().unwrap();
    apply(&mut staged, &e.paths, e.action);
    let mut a = staged.clone();
    let mut b = before.clone();
    a.sort();
    b.sort();
    assert_eq!(a, b);
    assert_eq!(history.undo_len(), 1);
    assert_eq!(history.redo_len(), 0);
}

#[test]
fn session_records_one_entry_per_action() {
    let mut app = App::new(2, false, Theme::ascii());
    app.record_staging(vec!["a".to_string(), "b".to_string()], StageAction::Stage);
    app.record_staging(vec!["c".to_string()], StageAction::Unstage);
    let e = app.history.undo().unwrap();
    assert_eq!(e.paths, vec!["c".to_string()]);
    app.record_staging(vec!["d".to_string()], StageAction::Stage);
    assert_eq!(app.history.redo_len(), 0);
}

use vstd::prelude::*;

use crate::text::{lower_of, lowercase, same_text};

verus! {

/// The commands a key can be bound to.
#[derive(Debug, Clone, Copy, PartialEq, Eq, Hash, Structural)]
pub enum Action {
    Quit,
    Search,
    MoveDown,
    MoveUp,
    Collapse,
    CollapseAll,
    Expand,
    ExpandAll,
    NextFile,
    PrevFile,
    Stage,
    Filter,
    Layout,
    Theme,
    SwitchPane,
    Diff,
    Help,
    Back,
    JumpToTop,
    JumpToBottom,
    CenterView,
    PageUp,
    PageDown,
    YankPath,
    VisualMode,
}

/// The action a lowercase configuration name stands for.
pub open spec fn action_named(n: Seq<char>) -> Option<Action> {
    if n == "quit"@ {
        Some(Action::Quit)
    } else if n == "search"@ {
        Some(Action::Search)
    } else if n == "down"@ {
        Some(Action::MoveDown)
    } else if n == "up"@ {
        Some(Action::MoveUp)
    } else if n == "collapse"@ {
        Some(Action::Collapse)
    } else if n == "collapse_all"@ {
        Some(Action::CollapseAll)
    } else if n == "expand"@ {
        Some(Action::Expand)
    } else if n == "expand_all"@ {
        Some(Action::ExpandAll)
    } else if n == "next_file"@ {
        Some(Action::NextFile)
    } else if n == "prev_file"@ {
        Some(Action::PrevFile)
    } else if n == "stage"@ {
        Some(Action::Stage)
    } else if n == "filter"@ {
        Some(Action::Filter)
    } else if n == "layout"@ {
        Some(Action::Layout)
    } else if n == "theme"@ {
        Some(Action::Theme)
    } else if n == "switch_pane"@ {
        Some(Action::SwitchPane)
    } else if n == "diff"@ {
        Some(Action::Diff)
    } else if n == "help"@ {
        Some(Action::Help)
    } else if n == "back"@ {
        Some(Action::Back)
    } else if n == "top"@ || n == "jump_to_top"@ {
        Some(Action::JumpToTop)
    } else if n == "bottom"@ || n == "jump_to_bottom"@ {
        Some(Action::JumpToBottom)
    } else if n == "center"@ || n == "center_view"@ {
        Some(Action::CenterView)
    } else if n == "page_up"@ {
        Some(Action::PageUp)
    } else if n == "page_down"@ {
        Some(Action::PageDown)
    } else if n == "yank"@ || n == "yank_path"@ {
        Some(Action::YankPath)
    } else if n == "visual"@ || n == "visual_mode"@ {
        Some(Action::VisualMode)
    } else {
        None
    }
}

/// The action a lowercase name stands for.
pub fn action_for_name(n: &str) -> (r: Option<Action>)
    ensures
        r == action_named(n@),
{
    if same_text(n, "quit") {
        Some(Action::Quit)
    } else if same_text(n, "search") {
        Some(Action::Search)
    } else if same_text(n, "down") {
        Some(Action::MoveDown)
    } else if same_text(n, "up") {
        Some(Action::MoveUp)
    } else if same_text(n, "collapse") {
        Some(Action::Collapse)
    } else if same_text(n, "collapse_all") {
        Some(Action::CollapseAll)
    } else if same_text(n, "expand") {
        Some(Action::Expand)
    } else if same_text(n, "expand_all") {
        Some(Action::ExpandAll)
    } else if same_text(n, "next_file") {
        Some(Action::NextFile)
    } else if same_text(n, "prev_file") {
        Some(Action::PrevFile)
    } else if same_text(n, "stage") {
        Some(Action::Stage)
    } else if same_text(n, "filter") {
        Some(Action::Filter)
    } else if same_text(n, "layout") {
        Some(Action::Layout)
    } else if same_text(n, "theme") {
        Some(Action::Theme)
    } else if same_text(n, "switch_pane") {
        Some(Action::SwitchPane)
    } else if same_text(n, "diff") {
        Some(Action::Diff)
    } else if same_text(n, "help") {
        Some(Action::Help)
    } else if same_text(n, "back") {
        Some(Action::Back)
    } else if same_text(n, "top") || same_text(n, "jump_to_top") {
        Some(Action::JumpToTop)
    } else if same_text(n, "bottom") || same_text(n, "jump_to_bottom") {
        Some(Action::JumpToBottom)
    } else if same_text(n, "center") || same_text(n, "center_view") {
        Some(Action::CenterView)
    } else if same_text(n, "page_up") {
        Some(Action::PageUp)
    } else if same_text(n, "page_down") {
        Some(Action::PageDown)
    } else if same_text(n, "yank") || same_text(n, "yank_path") {
        Some(Action::YankPath)
    } else if same_text(n, "visual") || same_text(n, "visual_mode") {
        Some(Action::VisualMode)
    } else {
        None
    }
}

/// The action a configuration name stands for, read without regard to case.
pub fn parse_action(s: &str) -> (r: Option<Action>)
    ensures
        r == action_named(lower_of(s@)),
{
    let lower = lowercase(s);
    action_for_name(lower.as_str())
}

} // verus!

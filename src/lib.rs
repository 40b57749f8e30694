//! Status-tree model, rendering engine and interactive session state for a
//! repository change browser.
//!
//! The library never talks to the version-control tool itself: callers hand
//! it the tool's textual output and carry out the commands it plans.

pub mod actions;
pub mod branch;
pub mod builder;
pub mod config;
pub mod diffview;
pub mod flatten;
pub mod history;
pub mod hunk;
pub mod icons;
pub mod keys;
pub mod numbers;
pub mod refresh;
pub mod render;
pub mod session;
pub mod status;
pub mod style;
pub mod text;
pub mod theme;
pub mod tree;
pub mod worktree;

pub use branch::{parse_branch_line, BranchCount, BranchHeader};
pub use builder::build_tree;
pub use config::{parse_action, Action};
pub use flatten::{get_collapsed_view, FlatNode};
pub use history::{ActionHistory, HistoryEntry, StageAction};
pub use hunk::{parse_diff, Hunk};
pub use icons::get_icon;
pub use keys::{Effect, Key};
pub use numbers::{determine_collapse, determine_indent, merge_numstat};
pub use refresh::{status_header, status_records};
pub use render::{bar_counts, render_rows};
pub use session::{App, AppLayout, FilterMode, Focus, ViewMode};
pub use status::{parse_status_line, StatEntry};
pub use theme::{Theme, ThemeType};
pub use tree::{Node, NodeType};
pub use worktree::{parse_worktrees, Worktree};

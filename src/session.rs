use vstd::prelude::*;

use crate::flatten::FlatNode;
use crate::history::ActionHistory;
use crate::hunk::Hunk;
use crate::text::{contains_seq, contains_text, lower_of, lowercase};
use crate::theme::{Theme, ThemeType};
use crate::worktree::Worktree;

verus! {

/// Which rows the unified layout shows.
#[derive(Debug, Clone, Copy, PartialEq, Eq, Structural)]
pub enum FilterMode {
    All,
    /// Hides untracked files.
    Modified,
    /// Shows staged files only.
    Staged,
}

impl FilterMode {
    pub open spec fn spec_next(self) -> FilterMode {
        match self {
            FilterMode::All => FilterMode::Modified,
            FilterMode::Modified => FilterMode::Staged,
            FilterMode::Staged => FilterMode::All,
        }
    }

    /// The mode that follows this one in the cycle.
    pub fn next(&self) -> (r: FilterMode)
        ensures
            r == self.spec_next(),
    {
        match self {
            FilterMode::All => FilterMode::Modified,
            FilterMode::Modified => FilterMode::Staged,
            FilterMode::Staged => FilterMode::All,
        }
    }

    /// The mode's name.
    pub fn as_str(&self) -> (r: &'static str)
        ensures
            *self == FilterMode::All ==> r@ == "All"@,
            *self == FilterMode::Modified ==> r@ == "Modified"@,
            *self == FilterMode::Staged ==> r@ == "Staged"@,
    {
        match self {
            FilterMode::All => "All",
            FilterMode::Modified => "Modified",
            FilterMode::Staged => "Staged",
        }
    }
}

/// How the panes are laid out.
#[derive(Debug, Clone, Copy, PartialEq, Eq, Structural)]
pub enum AppLayout {
    Unified,
    Split,
    Compact,
    EasterEgg,
}

impl AppLayout {
    pub open spec fn spec_next(self) -> AppLayout {
        match self {
            AppLayout::Unified => AppLayout::Split,
            AppLayout::Split => AppLayout::Compact,
            AppLayout::Compact => AppLayout::Unified,
            AppLayout::EasterEgg => AppLayout::Unified,
        }
    }

    /// The layout that follows this one in the cycle.
    pub fn next(&self) -> (r: AppLayout)
        ensures
            r == self.spec_next(),
    {
        match self {
            AppLayout::Unified => AppLayout::Split,
            AppLayout::Split => AppLayout::Compact,
            AppLayout::Compact => AppLayout::Unified,
            AppLayout::EasterEgg => AppLayout::Unified,
        }
    }
}

/// The pane that has the focus in the split layout.
#[derive(Debug, Clone, Copy, PartialEq, Eq, Structural)]
pub enum Focus {
    Staged,
    Unstaged,
}

impl Focus {
    pub open spec fn spec_next(self) -> Focus {
        match self {
            Focus::Staged => Focus::Unstaged,
            Focus::Unstaged => Focus::Staged,
        }
    }

    /// The other pane.
    pub fn next(&self) -> (r: Focus)
        ensures
            r == self.spec_next(),
    {
        match self {
            Focus::Staged => Focus::Unstaged,
            Focus::Unstaged => Focus::Staged,
        }
    }
}

/// What the main area shows.
#[derive(Debug, Clone, Copy, PartialEq, Eq, Structural)]
pub enum ViewMode {
    Tree,
    Diff,
}

/// The rows behind a list of references.
pub open spec fn derefs(s: Seq<&FlatNode>) -> Seq<FlatNode> {
    s.map_values(|n: &FlatNode| *n)
}

/// Whether a row matches a lowercase search text.
pub open spec fn row_matches(n: FlatNode, q: Seq<char>) -> bool {
    contains_seq(lower_of(n.name@), q) || contains_seq(lower_of(n.full_path@), q)
}

/// The rows a search for `query` keeps, in order: all of them for an empty
/// query, else those whose name or path holds the query, case ignored.
pub open spec fn filter_rows(nodes: Seq<FlatNode>, query: Seq<char>) -> Seq<FlatNode>
    decreases nodes.len(),
{
    if query.len() == 0 || nodes.len() == 0 {
        nodes
    } else if row_matches(nodes.last(), lower_of(query)) {
        filter_rows(nodes.drop_last(), query).push(nodes.last())
    } else {
        filter_rows(nodes.drop_last(), query)
    }
}

/// The interactive session: the rows of each pane, the selection in each,
/// the layout and filters, visual selection, staging history, and the diff
/// view with its search and hunk selection.
pub struct App {
    pub indent_size: usize,
    pub collapse: bool,
    pub staged_nodes: Vec<FlatNode>,
    pub unstaged_nodes: Vec<FlatNode>,
    pub unified_nodes: Vec<FlatNode>,
    /// Full paths of the directories the operator folded.
    pub collapsed_paths: Vec<String>,
    /// Selected index into the filtered rows of each pane.
    pub staged_state: Option<usize>,
    pub unstaged_state: Option<usize>,
    pub unified_state: Option<usize>,
    pub layout: AppLayout,
    pub filter_mode: FilterMode,
    pub focus: Focus,
    pub search_query: String,
    pub is_typing_search: bool,
    pub view_mode: ViewMode,
    pub diff_content: String,
    pub diff_scroll: u16,
    pub theme: Theme,
    pub theme_type: ThemeType,
    pub max_name_width: usize,
    pub show_help: bool,
    pub global_stats: Option<(usize, usize)>,
    pub pending_key: Option<char>,
    pub is_visual_mode: bool,
    pub visual_origin: Option<usize>,
    pub hit_top_edge: bool,
    pub hit_bottom_edge: bool,
    pub history: ActionHistory,
    pub help_scroll: u16,
    pub worktrees: Vec<Worktree>,
    pub worktree_state: Option<usize>,
    pub show_worktrees: bool,
    pub max_help_scroll: u16,
    pub diff_search_query: String,
    pub is_diff_search: bool,
    pub diff_matches: Vec<usize>,
    pub current_diff_match: Option<usize>,
    pub show_commit_dialog: bool,
    pub commit_message: String,
    pub patch_mode: bool,
    pub diff_headers: Vec<String>,
    pub diff_hunks: Vec<Hunk>,
    pub selected_hunk_idx: Option<usize>,
}

impl App {
    /// A session with nothing loaded yet; the caller refreshes it.
    pub fn new(indent_size: usize, collapse: bool, theme: Theme) -> (r: App)
        ensures
            r.indent_size == indent_size,
            r.collapse == collapse,
            r.theme == theme,
            r.layout == AppLayout::Unified,
            r.filter_mode == FilterMode::All,
            r.focus == Focus::Unstaged,
            r.view_mode == ViewMode::Tree,
            r.unified_nodes@.len() == 0,
            r.staged_nodes@.len() == 0,
            r.unstaged_nodes@.len() == 0,
            r.collapsed_paths@.len() == 0,
            r.unified_state.is_none() && r.staged_state.is_none() && r.unstaged_state.is_none(),
            r.search_query@.len() == 0,
            !r.is_visual_mode && r.visual_origin.is_none(),
            r.history.undo_model().len() == 0 && r.history.redo_model().len() == 0,
            !r.patch_mode,
    {
        App {
            indent_size,
            collapse,
            staged_nodes: Vec::new(),
            unstaged_nodes: Vec::new(),
            unified_nodes: Vec::new(),
            collapsed_paths: Vec::new(),
            staged_state: None,
            unstaged_state: None,
            unified_state: None,
            layout: AppLayout::Unified,
            filter_mode: FilterMode::All,
            focus: Focus::Unstaged,
            search_query: String::new(),
            is_typing_search: false,
            view_mode: ViewMode::Tree,
            diff_content: String::new(),
            diff_scroll: 0,
            theme,
            theme_type: ThemeType::Unicode,
            max_name_width: 0,
            show_help: false,
            global_stats: None,
            pending_key: None,
            is_visual_mode: false,
            visual_origin: None,
            hit_top_edge: false,
            hit_bottom_edge: false,
            history: ActionHistory::new(),
            help_scroll: 0,
            worktrees: Vec::new(),
            worktree_state: None,
            show_worktrees: false,
            max_help_scroll: 0,
            diff_search_query: String::new(),
            is_diff_search: false,
            diff_matches: Vec::new(),
            current_diff_match: None,
            show_commit_dialog: false,
            commit_message: String::new(),
            patch_mode: false,
            diff_headers: Vec::new(),
            diff_hunks: Vec::new(),
            selected_hunk_idx: None,
        }
    }

    /// The rows of the pane that has the focus.
    pub open spec fn active_rows(&self) -> Seq<FlatNode> {
        match self.layout {
            AppLayout::Split => match self.focus {
                Focus::Staged => self.staged_nodes@,
                Focus::Unstaged => self.unstaged_nodes@,
            },
            _ => self.unified_nodes@,
        }
    }

    /// The selection of the pane that has the focus.
    pub open spec fn active_sel(&self) -> Option<usize> {
        match self.layout {
            AppLayout::Split => match self.focus {
                Focus::Staged => self.staged_state,
                Focus::Unstaged => self.unstaged_state,
            },
            _ => self.unified_state,
        }
    }

    /// The session with the focused pane's selection set to `s`.
    pub open spec fn with_sel(self, s: Option<usize>) -> App {
        match self.layout {
            AppLayout::Split => match self.focus {
                Focus::Staged => (App { staged_state: s, ..self }),
                Focus::Unstaged => (App { unstaged_state: s, ..self }),
            },
            _ => (App { unified_state: s, ..self }),
        }
    }

    /// The rows the focused pane shows under the current search.
    pub open spec fn shown(&self) -> Seq<FlatNode> {
        filter_rows(self.active_rows(), self.search_query@)
    }

    /// The rows of `nodes` that a search for `query` keeps.
    pub fn filter_nodes<'a>(nodes: &'a Vec<FlatNode>, query: &str) -> (r: Vec<&'a FlatNode>)
        ensures
            derefs(r@) == filter_rows(nodes@, query@),
    {
        let mut out: Vec<&FlatNode> = Vec::new();
        if query.is_empty() {
            let mut i: usize = 0;
            while i < nodes.len()
                invariant
                    i <= nodes.len(),
                    query@.len() == 0,
                    derefs(out@) == nodes@.subrange(0, i as int),
                decreases nodes.len() - i,
            {
                let ghost before = out@;
                out.push(&nodes[i]);
                assert(derefs(out@) =~= derefs(before).push(nodes@[i as int]));
                assert(nodes@.subrange(0, i + 1) =~= nodes@.subrange(0, i as int).push(nodes@[i as int]));
                i += 1;
            }
            proof {
                assert(nodes@.subrange(0, nodes.len() as int) =~= nodes@);
            }
            return out;
        }
        let q = lowercase(query);
        let mut i: usize = 0;
        while i < nodes.len()
            invariant
                i <= nodes.len(),
                query@.len() > 0,
                q@ == lower_of(query@),
                derefs(out@) == filter_rows(nodes@.subrange(0, i as int), query@),
            decreases nodes.len() - i,
        {
            let n = &nodes[i];
            let name = lowercase(n.name.as_str());
            let path = lowercase(n.full_path.as_str());
            let keep = contains_text(name.as_str(), q.as_str()) || contains_text(path.as_str(), q.as_str());
            proof {
                let pre = nodes@.subrange(0, i + 1);
                assert(pre.drop_last() =~= nodes@.subrange(0, i as int));
                assert(pre.last() == nodes@[i as int]);
            }
            let ghost before = out@;
            if keep {
                out.push(n);
                assert(derefs(out@) =~= derefs(before).push(nodes@[i as int]));
            }
            i += 1;
        }
        proof {
            assert(nodes@.subrange(0, nodes.len() as int) =~= nodes@);
        }
        out
    }

    /// The number of rows the focused pane shows.
    pub fn shown_len(&self) -> (r: usize)
        ensures
            r == self.shown().len(),
    {
        let rows = match self.layout {
            AppLayout::Split => match self.focus {
                Focus::Staged => &self.staged_nodes,
                Focus::Unstaged => &self.unstaged_nodes,
            },
            _ => &self.unified_nodes,
        };
        let f = App::filter_nodes(rows, self.search_query.as_str());
        f.len()
    }

    /// The focused pane's selection.
    pub fn selected(&self) -> (r: Option<usize>)
        ensures
            r == self.active_sel(),
    {
        match self.layout {
            AppLayout::Split => match self.focus {
                Focus::Staged => self.staged_state,
                Focus::Unstaged => self.unstaged_state,
            },
            _ => self.unified_state,
        }
    }

    /// Sets the focused pane's selection.
    pub fn select(&mut self, s: Option<usize>)
        ensures
            *final(self) == old(self).with_sel(s),
    {
        match self.layout {
            AppLayout::Split => match self.focus {
                Focus::Staged => self.staged_state = s,
                Focus::Unstaged => self.unstaged_state = s,
            },
            _ => self.unified_state = s,
        }
    }
}

/// Where `next_file` lands: starting after `idx`, the first file row,
/// stopping once at the bottom edge before wrapping to the top, for at most
/// `fuel` steps. `None` when the search gave up; the flag is the new
/// bottom-edge state.
pub open spec fn next_file_scan(dirs: Seq<bool>, idx: int, hb: bool, fuel: nat) -> (Option<int>, bool)
    decreases fuel,
{
    if fuel == 0 {
        (None, hb)
    } else if idx >= dirs.len() - 1 {
        if hb {
            if !dirs[0] {
                (Some(0), false)
            } else {
                next_file_scan(dirs, 0, false, (fuel - 1) as nat)
            }
        } else {
            (Some(idx), true)
        }
    } else if !dirs[idx + 1] {
        (Some(idx + 1), false)
    } else {
        next_file_scan(dirs, idx + 1, hb, (fuel - 1) as nat)
    }
}

/// Where `previous_file` lands: the mirror image of `next_file_scan`; the
/// flag is the new top-edge state.
pub open spec fn prev_file_scan(dirs: Seq<bool>, idx: int, ht: bool, fuel: nat) -> (Option<int>, bool)
    decreases fuel,
{
    if fuel == 0 {
        (None, ht)
    } else if idx == 0 {
        if ht {
            if !dirs[dirs.len() - 1] {
                (Some(dirs.len() - 1), false)
            } else {
                prev_file_scan(dirs, dirs.len() - 1, false, (fuel - 1) as nat)
            }
        } else {
            (Some(0), true)
        }
    } else if 0 <= idx - 1 < dirs.len() && !dirs[idx - 1] {
        (Some(idx - 1), false)
    } else {
        prev_file_scan(dirs, idx - 1, ht, (fuel - 1) as nat)
    }
}

pub open spec fn dir_flags(rows: Seq<FlatNode>) -> Seq<bool> {
    rows.map_values(|n: FlatNode| n.is_dir)
}

/// The selection a pane keeps after its rows were rebuilt: an index past
/// the end moves to the last row (or to none when the pane is empty); an
/// empty selection becomes the first row whenever the pane has rows, which
/// covers the active pane and, as a default, the others.
pub open spec fn clamp_selection(len: int, sel: Option<usize>, is_active: bool) -> Option<usize> {
    match sel {
        Some(i) => if i >= len {
            if len > 0 {
                Some((len - 1) as usize)
            } else {
                None
            }
        } else {
            Some(i)
        },
        None => if len > 0 {
            Some(0)
        } else {
            None
        },
    }
}

/// Keeps a pane's selection within its rows.
pub fn adjust_selection(len: usize, sel: Option<usize>, is_active: bool) -> (r: Option<usize>)
    ensures
        r == clamp_selection(len as int, sel, is_active),
{
    match sel {
        Some(i) => {
            if i >= len {
                if len > 0 {
                    Some(len - 1)
                } else {
                    None
                }
            } else {
                Some(i)
            }
        },
        None => {
            if len > 0 {
                Some(0)
            } else {
                None
            }
        },
    }
}

impl App {
    /// Whether each row the focused pane shows is a directory.
    fn shown_dirs(&self) -> (r: Vec<bool>)
        ensures
            r@ == dir_flags(self.shown()),
    {
        let rows = match self.layout {
            AppLayout::Split => match self.focus {
                Focus::Staged => &self.staged_nodes,
                Focus::Unstaged => &self.unstaged_nodes,
            },
            _ => &self.unified_nodes,
        };
        let f = App::filter_nodes(rows, self.search_query.as_str());
        let mut out: Vec<bool> = Vec::new();
        let mut i: usize = 0;
        while i < f.len()
            invariant
                i <= f.len(),
                derefs(f@) == self.shown(),
                out@ == dir_flags(derefs(f@)).subrange(0, i as int),
            decreases f.len() - i,
        {
            out.push(f[i].is_dir);
            assert(dir_flags(derefs(f@)).subrange(0, i + 1) =~= dir_flags(derefs(f@)).subrange(0, i as int).push(f@[i as int].is_dir));
            i += 1;
        }
        assert(dir_flags(derefs(f@)).subrange(0, f.len() as int) =~= dir_flags(derefs(f@)));
        out
    }

    /// Moves the selection down one row. At the last row the first press
    /// only raises the bottom-edge flag; the next one wraps to the top.
    pub fn next(&mut self)
        ensures
            old(self).shown().len() == 0 ==> *final(self) == *old(self),
            old(self).shown().len() > 0 ==> {
                let (i, hb, ht) = step_down(
                    old(self).shown().len() as int,
                    old(self).active_sel(),
                    old(self).hit_bottom_edge,
                    old(self).hit_top_edge,
                );
                *final(self) == (App { hit_bottom_edge: hb, hit_top_edge: ht, ..*old(self) }).with_sel(Some(i))
            },
    {
        let len = self.shown_len();
        if len == 0 {
            return;
        }
        let (i, hb, ht) = step_down_exec(len, self.selected(), self.hit_bottom_edge, self.hit_top_edge);
        self.hit_bottom_edge = hb;
        self.hit_top_edge = ht;
        self.select(Some(i));
    }

    /// Moves the selection up one row. At the first row the first press only
    /// raises the top-edge flag; the next one wraps to the bottom.
    pub fn previous(&mut self)
        ensures
            old(self).shown().len() == 0 ==> *final(self) == *old(self),
            old(self).shown().len() > 0 ==> {
                let (i, hb, ht) = step_up(
                    old(self).shown().len() as int,
                    old(self).active_sel(),
                    old(self).hit_bottom_edge,
                    old(self).hit_top_edge,
                );
                *final(self) == (App { hit_bottom_edge: hb, hit_top_edge: ht, ..*old(self) }).with_sel(Some(i))
            },
    {
        let len = self.shown_len();
        if len == 0 {
            return;
        }
        let (i, hb, ht) = step_up_exec(len, self.selected(), self.hit_bottom_edge, self.hit_top_edge);
        self.hit_bottom_edge = hb;
        self.hit_top_edge = ht;
        self.select(Some(i));
    }

    /// Moves down to the next file row, skipping directories, searching at
    /// most one full lap.
    #[verifier::rlimit(60)]
    pub fn next_file(&mut self)
        ensures
            dir_flags(old(self).shown()).len() == 0 ==> *final(self) == *old(self),
            dir_flags(old(self).shown()).len() > 0 ==> {
                let dirs = dir_flags(old(self).shown());
                let start = match old(self).active_sel() {
                    Some(i) => i as int,
                    None => 0,
                };
                let (landed, hb) = next_file_scan(dirs, start, old(self).hit_bottom_edge, dirs.len());
                let moved = (App { hit_top_edge: false, hit_bottom_edge: hb, ..*old(self) });
                match landed {
                    Some(k) => *final(self) == moved.with_sel(Some(k as usize)),
                    None => *final(self) == moved,
                }
            },
    {
        let dirs = self.shown_dirs();
        let len = dirs.len();
        if len == 0 {
            return;
        }
        let start = match self.selected() {
            Some(i) => i,
            None => 0,
        };
        let (landed, hb) = next_file_exec(&dirs, start, self.hit_bottom_edge);
        let ghost before = *self;
        self.hit_top_edge = false;
        self.hit_bottom_edge = hb;
        match landed {
            Some(k) => self.select(Some(k)),
            None => {},
        }
    }

    /// Moves up to the previous file row, skipping directories, searching at
    /// most one full lap.
    #[verifier::rlimit(60)]
    pub fn previous_file(&mut self)
        ensures
            dir_flags(old(self).shown()).len() == 0 ==> *final(self) == *old(self),
            dir_flags(old(self).shown()).len() > 0 ==> {
                let dirs = dir_flags(old(self).shown());
                let start = match old(self).active_sel() {
                    Some(i) => i as int,
                    None => 0,
                };
                let (landed, ht) = prev_file_scan(dirs, start, old(self).hit_top_edge, dirs.len());
                let moved = (App { hit_bottom_edge: false, hit_top_edge: ht, ..*old(self) });
                match landed {
                    Some(k) => *final(self) == moved.with_sel(Some(k as usize)),
                    None => *final(self) == moved,
                }
            },
    {
        let dirs = self.shown_dirs();
        let len = dirs.len();
        if len == 0 {
            return;
        }
        let start = match self.selected() {
            Some(i) => i,
            None => 0,
        };
        let (landed, ht) = prev_file_exec(&dirs, start, self.hit_top_edge);
        let ghost before = *self;
        self.hit_bottom_edge = false;
        self.hit_top_edge = ht;
        match landed {
            Some(k) => self.select(Some(k)),
            None => {},
        }
    }
}

/// One step down over `len` rows: the new selection and the new bottom- and
/// top-edge flags.
pub open spec fn step_down(len: int, sel: Option<usize>, hb: bool, ht: bool) -> (usize, bool, bool) {
    match sel {
        None => (0, hb, ht),
        Some(i) => if i >= len - 1 {
            if hb {
                (0, false, ht)
            } else {
                (i, true, ht)
            }
        } else {
            ((i + 1) as usize, false, false)
        },
    }
}

/// One step up over `len` rows: the new selection and the new bottom- and
/// top-edge flags.
pub open spec fn step_up(len: int, sel: Option<usize>, hb: bool, ht: bool) -> (usize, bool, bool) {
    match sel {
        None => (0, hb, ht),
        Some(i) => if i == 0 {
            if ht {
                ((len - 1) as usize, hb, false)
            } else {
                (0, hb, true)
            }
        } else {
            ((i - 1) as usize, false, false)
        },
    }
}

fn step_down_exec(len: usize, sel: Option<usize>, hb: bool, ht: bool) -> (r: (usize, bool, bool))
    requires
        len > 0,
    ensures
        r == step_down(len as int, sel, hb, ht),
{
    match sel {
        None => (0, hb, ht),
        Some(i) => {
            if i >= len - 1 {
                if hb {
                    (0, false, ht)
                } else {
                    (i, true, ht)
                }
            } else {
                (i + 1, false, false)
            }
        },
    }
}

fn step_up_exec(len: usize, sel: Option<usize>, hb: bool, ht: bool) -> (r: (usize, bool, bool))
    requires
        len > 0,
    ensures
        r == step_up(len as int, sel, hb, ht),
{
    match sel {
        None => (0, hb, ht),
        Some(i) => {
            if i == 0 {
                if ht {
                    (len - 1, hb, false)
                } else {
                    (0, hb, true)
                }
            } else {
                (i - 1, false, false)
            }
        },
    }
}

fn next_file_exec(dirs: &Vec<bool>, start: usize, hb0: bool) -> (r: (Option<usize>, bool))
    requires
        dirs.len() > 0,
    ensures
        ({
            let (landed, hb) = next_file_scan(dirs@, start as int, hb0, dirs.len() as nat);
            &&& r.1 == hb
            &&& match landed {
                Some(k) => r.0 == Some(k as usize),
                None => r.0.is_none(),
            }
        }),
{
    let len = dirs.len();
    let mut idx = start;
    let mut hb = hb0;
    let mut n: usize = 0;
    while n < len
        invariant
            len == dirs.len(),
            len > 0,
            n <= len,
            next_file_scan(dirs@, start as int, hb0, len as nat) == next_file_scan(dirs@, idx as int, hb, (len - n) as nat),
        decreases len - n,
    {
        if idx >= len - 1 {
            if hb {
                hb = false;
                idx = 0;
            } else {
                return (Some(idx), true);
            }
        } else {
            idx += 1;
        }
        if !dirs[idx] {
            return (Some(idx), false);
        }
        n += 1;
    }
    (None, hb)
}

fn prev_file_exec(dirs: &Vec<bool>, start: usize, ht0: bool) -> (r: (Option<usize>, bool))
    requires
        dirs.len() > 0,
    ensures
        ({
            let (landed, ht) = prev_file_scan(dirs@, start as int, ht0, dirs.len() as nat);
            &&& r.1 == ht
            &&& match landed {
                Some(k) => r.0 == Some(k as usize),
                None => r.0.is_none(),
            }
        }),
{
    let len = dirs.len();
    let mut idx = start;
    let mut ht = ht0;
    let mut n: usize = 0;
    while n < len
        invariant
            len == dirs.len(),
            len > 0,
            n <= len,
            prev_file_scan(dirs@, start as int, ht0, len as nat) == prev_file_scan(dirs@, idx as int, ht, (len - n) as nat),
        decreases len - n,
    {
        if idx == 0 {
            if ht {
                ht = false;
                idx = len - 1;
            } else {
                return (Some(0), true);
            }
        } else {
            idx -= 1;
        }
        if idx < len && !dirs[idx] {
            return (Some(idx), false);
        }
        n += 1;
    }
    (None, ht)
}

} // verus!

use vstd::prelude::*;

use crate::flatten::FlatNode;
use crate::history::StageAction;
use crate::session::{App, AppLayout, ViewMode};
use crate::text::{same_text, views};
use crate::theme::Theme;
use crate::tree::Node;
use crate::worktree::Worktree;

verus! {

/// The visual selection: from the origin to the cursor, in either
/// direction, both ends included.
pub open spec fn visual_range(app: App) -> Option<(usize, usize)> {
    if !app.is_visual_mode {
        None
    } else {
        match (app.visual_origin, app.active_sel()) {
            (Some(o), Some(c)) => if o < c {
                Some((o, c))
            } else {
                Some((c, o))
            },
            _ => None,
        }
    }
}

pub open spec fn min_int(a: int, b: int) -> int {
    if a < b {
        a
    } else {
        b
    }
}

/// The rows an action on the selection applies to: in visual mode the rows
/// of the visual range that exist, else the selected row if it exists.
pub open spec fn scope_rows(app: App) -> Seq<FlatNode> {
    let shown = app.shown();
    if app.is_visual_mode {
        match visual_range(app) {
            Some((s, e)) => shown.subrange(min_int(s as int, shown.len() as int), min_int(e + 1, shown.len() as int)),
            None => Seq::empty(),
        }
    } else {
        match app.active_sel() {
            Some(i) => if i < shown.len() {
                seq![shown[i as int]]
            } else {
                Seq::empty()
            },
            None => Seq::empty(),
        }
    }
}

/// Staging direction decided by a row: staged rows are unstaged, others
/// staged.
pub open spec fn direction_for(row: FlatNode) -> StageAction {
    if row.raw_status@.contains('+') {
        StageAction::Unstage
    } else {
        StageAction::Stage
    }
}

pub open spec fn paths_of(rows: Seq<FlatNode>) -> Seq<Seq<char>> {
    rows.map_values(|n: FlatNode| n.full_path@)
}

/// The full paths of the directory rows among `rows`.
pub open spec fn dir_paths(rows: Seq<FlatNode>) -> Set<Seq<char>>
    decreases rows.len(),
{
    if rows.len() == 0 {
        Set::empty()
    } else if rows.last().is_dir {
        dir_paths(rows.drop_last()).insert(rows.last().full_path@)
    } else {
        dir_paths(rows.drop_last())
    }
}

pub open spec fn path_set(v: Seq<String>) -> Set<Seq<char>> {
    views(v).to_set()
}

pub(crate) proof fn lemma_path_set_push(v: Seq<String>, s: String)
    ensures
        path_set(v.push(s)) == path_set(v).insert(s@),
{
    assert(views(v.push(s)) =~= views(v).push(s@));
    assert(path_set(v.push(s)) =~= path_set(v).insert(s@)) by {
        assert forall|p: Seq<char>| path_set(v.push(s)).contains(p) <==> path_set(v).insert(s@).contains(p) by {
            if path_set(v.push(s)).contains(p) {
                let i = choose|i: int| 0 <= i < views(v.push(s)).len() && views(v.push(s))[i] == p;
                if i < v.len() {
                    assert(views(v)[i] == p);
                }
            }
            if path_set(v).contains(p) {
                let i = choose|i: int| 0 <= i < views(v).len() && views(v)[i] == p;
                assert(views(v.push(s))[i] == p);
            }
            if p == s@ {
                assert(views(v.push(s))[v.len() as int] == p);
            }
        }
    }
}

/// A copy of `v` without the entries equal to `p`.
fn without_path(v: &Vec<String>, p: &String) -> (r: Vec<String>)
    ensures
        path_set(r@) == path_set(v@).remove(p@),
{
    let mut out: Vec<String> = Vec::new();
    let mut i: usize = 0;
    while i < v.len()
        invariant
            i <= v.len(),
            path_set(out@) == path_set(v@.subrange(0, i as int)).remove(p@),
        decreases v.len() - i,
    {
        let ghost pre = v@.subrange(0, i as int);
        assert(v@.subrange(0, i + 1) =~= pre.push(v@[i as int]));
        proof {
            lemma_path_set_push(pre, v@[i as int]);
        }
        if !same_text(v[i].as_str(), p.as_str()) {
            let ghost before = out@;
            out.push(v[i].clone());
            proof {
                lemma_path_set_push(before, out@[before.len() as int]);
            }
            assert(path_set(out@) =~= path_set(v@.subrange(0, i + 1)).remove(p@));
        } else {
            assert(path_set(out@) =~= path_set(v@.subrange(0, i + 1)).remove(p@));
        }
        i += 1;
    }
    assert(v@.subrange(0, v.len() as int) =~= v@);
    out
}

impl App {
    /// The visual selection range, when visual mode is on and both ends are
    /// known.
    pub fn get_visual_range(&self) -> (r: Option<(usize, usize)>)
        ensures
            r == visual_range(*self),
    {
        if !self.is_visual_mode {
            return None;
        }
        match (self.visual_origin, self.selected()) {
            (Some(o), Some(c)) => {
                if o < c {
                    Some((o, c))
                } else {
                    Some((c, o))
                }
            },
            _ => None,
        }
    }

    /// Turns visual mode off, or on with the cursor as origin when a row is
    /// selected.
    pub fn toggle_visual_mode(&mut self)
        ensures
            old(self).is_visual_mode ==> *final(self) == (App { is_visual_mode: false, visual_origin: None, ..*old(self) }),
            !old(self).is_visual_mode ==> match old(self).active_sel() {
                Some(i) => *final(self) == (App { is_visual_mode: true, visual_origin: Some(i), ..*old(self) }),
                None => *final(self) == *old(self),
            },
    {
        if self.is_visual_mode {
            self.is_visual_mode = false;
            self.visual_origin = None;
        } else {
            match self.selected() {
                Some(i) => {
                    self.is_visual_mode = true;
                    self.visual_origin = Some(i);
                },
                None => {},
            }
        }
    }

    /// Leaves visual mode.
    pub fn leave_visual(&mut self)
        ensures
            *final(self) == (App { is_visual_mode: false, visual_origin: None, ..*old(self) }),
    {
        self.is_visual_mode = false;
        self.visual_origin = None;
    }

    /// The rows an action on the selection applies to.
    fn scope(&self) -> (r: Vec<FlatNode>)
        ensures
            crate::flatten::row_models(r@) == crate::flatten::row_models(scope_rows(*self)),
            paths_of(r@) == paths_of(scope_rows(*self)),
            r@.len() == scope_rows(*self).len(),
            forall|k: int| 0 <= k < r@.len() ==> (#[trigger] r@[k]).is_dir == scope_rows(*self)[k].is_dir
                && r@[k].raw_status@ == scope_rows(*self)[k].raw_status@,
    {
        let rows = match self.layout {
            AppLayout::Split => match self.focus {
                crate::session::Focus::Staged => &self.staged_nodes,
                crate::session::Focus::Unstaged => &self.unstaged_nodes,
            },
            _ => &self.unified_nodes,
        };
        let f = App::filter_nodes(rows, self.search_query.as_str());
        let ghost shown = self.shown();
        assert(crate::session::derefs(f@) == shown);
        let len = f.len();
        let (from, to) = if self.is_visual_mode {
            match self.get_visual_range() {
                Some((s, e)) => {
                    let a = if s < len { s } else { len };
                    let b = if e < len { e + 1 } else { len };
                    (a, b)
                },
                None => (0, 0),
            }
        } else {
            match self.selected() {
                Some(i) => if i < len { (i, i + 1) } else { (0, 0) },
                None => (0, 0),
            }
        };
        let ghost want = scope_rows(*self);
        assert(want =~= shown.subrange(from as int, to as int)) by {
            if self.is_visual_mode {
            } else {
                match self.active_sel() {
                    Some(i) => if i < len {
                        assert(shown.subrange(i as int, i + 1) =~= seq![shown[i as int]]);
                    },
                    None => {},
                }
            }
        }
        let mut out: Vec<FlatNode> = Vec::new();
        let mut k = from;
        while k < to
            invariant
                from <= k <= to <= len,
                len == f.len(),
                crate::session::derefs(f@) == shown,
                want == shown.subrange(from as int, to as int),
                out@.len() == k - from,
                forall|j: int| 0 <= j < out@.len() ==> (#[trigger] out@[j]).model() == want[j].model()
                    && out@[j].raw_status@ == want[j].raw_status@,
            decreases to - k,
        {
            let n = f[k];
            assert(*n == shown[k as int]);
            out.push(FlatNode {
                name: n.name.clone(),
                name_colored: n.name_colored.clone(),
                full_path: n.full_path.clone(),
                is_dir: n.is_dir,
                status: n.status,
                raw_status: n.raw_status.clone(),
                connector: n.connector.clone(),
                stats: n.stats,
                depth: n.depth,
            });
            k += 1;
        }
        assert(crate::flatten::row_models(out@) =~= crate::flatten::row_models(want));
        assert(paths_of(out@) =~= paths_of(want));
        out
    }

    /// What staging the selection would do: the paths in scope and the
    /// direction, decided by the first of them. `None` when nothing is in
    /// scope.
    pub fn stage_plan(&self) -> (r: Option<(Vec<String>, StageAction)>)
        ensures
            scope_rows(*self).len() == 0 <==> r.is_none(),
            r matches Some((paths, action)) ==> {
                &&& views(paths@) == paths_of(scope_rows(*self))
                &&& action == direction_for(scope_rows(*self)[0])
            },
    {
        let rows = self.scope();
        if rows.len() == 0 {
            return None;
        }
        let ghost want = scope_rows(*self);
        let staged = {
            let st = crate::text::chars_of(rows[0].raw_status.as_str());
            crate::status::code_has(&st, '+')
        };
        let action = if staged {
            StageAction::Unstage
        } else {
            StageAction::Stage
        };
        let mut paths: Vec<String> = Vec::new();
        let mut i: usize = 0;
        while i < rows.len()
            invariant
                i <= rows.len(),
                paths_of(rows@) == paths_of(want),
                views(paths@) == paths_of(rows@).subrange(0, i as int),
            decreases rows.len() - i,
        {
            let ghost before = paths@;
            paths.push(rows[i].full_path.clone());
            assert(views(paths@) =~= views(before).push(rows@[i as int].full_path@));
            assert(paths_of(rows@).subrange(0, i + 1) =~= paths_of(rows@).subrange(0, i as int).push(rows@[i as int].full_path@));
            i += 1;
        }
        assert(paths_of(rows@).subrange(0, rows.len() as int) =~= paths_of(rows@));
        Some((paths, action))
    }

    /// Records a completed staging step: the history gains one entry (its
    /// redo stack is cleared) and visual mode ends.
    pub fn record_staging(&mut self, paths: Vec<String>, action: StageAction)
        ensures
            final(self).history.undo_model() == old(self).history.undo_model().push(
                crate::history::EntryModel { paths: views(paths@), action },
            ),
            final(self).history.redo_model().len() == 0,
            !final(self).is_visual_mode,
            final(self).visual_origin.is_none(),
    {
        self.history.push_action(paths, action);
        self.is_visual_mode = false;
        self.visual_origin = None;
    }

    /// Folds the directories in scope. Returns whether the rows must be
    /// rebuilt: in visual mode whenever a range exists (visual mode then
    /// ends), else when the selected directory was not folded yet.
    pub fn collapse_node(&mut self) -> (r: bool)
        ensures
            path_set(final(self).collapsed_paths@) == path_set(old(self).collapsed_paths@).union(
                dir_paths(scope_rows(*old(self))),
            ),
            old(self).is_visual_mode && visual_range(*old(self)).is_some() ==> r && !final(self).is_visual_mode
                && final(self).visual_origin.is_none(),
            !old(self).is_visual_mode ==> (r <==> !dir_paths(scope_rows(*old(self))).subset_of(
                path_set(old(self).collapsed_paths@),
            )),
    {
        let rows = self.scope();
        let ghost want = scope_rows(*self);
        let ghost start = path_set(self.collapsed_paths@);
        let mut changed = false;
        let mut i: usize = 0;
        while i < rows.len()
            invariant
                i <= rows.len(),
                rows@.len() == want.len(),
                forall|k: int| 0 <= k < rows@.len() ==> (#[trigger] rows@[k]).is_dir == want[k].is_dir,
                paths_of(rows@) == paths_of(want),
                path_set(self.collapsed_paths@) == start.union(dir_paths(want.subrange(0, i as int))),
                changed <==> !dir_paths(want.subrange(0, i as int)).subset_of(start),
                self.is_visual_mode == old(self).is_visual_mode,
                self.visual_origin == old(self).visual_origin,
                self.layout == old(self).layout,
                self.focus == old(self).focus,
                self.unified_state == old(self).unified_state,
                self.staged_state == old(self).staged_state,
                self.unstaged_state == old(self).unstaged_state,
            decreases rows.len() - i,
        {
            assert(paths_of(rows@)[i as int] == rows@[i as int].full_path@);
            if rows[i].is_dir && !crate::flatten::holds_path(&self.collapsed_paths, &rows[i].full_path) {
                let ghost before = self.collapsed_paths@;
                self.collapsed_paths.push(rows[i].full_path.clone());
                proof {
                    lemma_path_set_push(before, self.collapsed_paths@[before.len() as int]);
                }
                changed = true;
            }
            proof {
                assert(want.subrange(0, i + 1).drop_last() =~= want.subrange(0, i as int));
                assert(path_set(self.collapsed_paths@) =~= start.union(dir_paths(want.subrange(0, i + 1))));
            }
            i += 1;
        }
        assert(want.subrange(0, rows.len() as int) =~= want);
        let visual = self.is_visual_mode;
        if visual {
            let ranged = self.get_visual_range().is_some();
            if ranged {
                self.is_visual_mode = false;
                self.visual_origin = None;
            }
            ranged
        } else {
            changed
        }
    }
}

impl App {
    /// Unfolds the directories in scope. Returns whether the rows must be
    /// rebuilt: in visual mode whenever a range exists (visual mode then
    /// ends), else when the selected directory was folded.
    pub fn expand_node(&mut self) -> (r: bool)
        ensures
            path_set(final(self).collapsed_paths@) == path_set(old(self).collapsed_paths@).difference(
                dir_paths(scope_rows(*old(self))),
            ),
            old(self).is_visual_mode && visual_range(*old(self)).is_some() ==> r && !final(self).is_visual_mode
                && final(self).visual_origin.is_none(),
            !old(self).is_visual_mode ==> (r <==> !dir_paths(scope_rows(*old(self))).disjoint(
                path_set(old(self).collapsed_paths@),
            )),
    {
        let rows = self.scope();
        let ghost want = scope_rows(*self);
        let ghost start = path_set(self.collapsed_paths@);
        let mut changed = false;
        let mut i: usize = 0;
        while i < rows.len()
            invariant
                i <= rows.len(),
                rows@.len() == want.len(),
                forall|k: int| 0 <= k < rows@.len() ==> (#[trigger] rows@[k]).is_dir == want[k].is_dir,
                paths_of(rows@) == paths_of(want),
                path_set(self.collapsed_paths@) == start.difference(dir_paths(want.subrange(0, i as int))),
                changed <==> !dir_paths(want.subrange(0, i as int)).disjoint(start),
                self.is_visual_mode == old(self).is_visual_mode,
                self.visual_origin == old(self).visual_origin,
                self.layout == old(self).layout,
                self.focus == old(self).focus,
                self.unified_state == old(self).unified_state,
                self.staged_state == old(self).staged_state,
                self.unstaged_state == old(self).unstaged_state,
            decreases rows.len() - i,
        {
            assert(paths_of(rows@)[i as int] == rows@[i as int].full_path@);
            if rows[i].is_dir && crate::flatten::holds_path(&self.collapsed_paths, &rows[i].full_path) {
                self.collapsed_paths = without_path(&self.collapsed_paths, &rows[i].full_path);
                changed = true;
            }
            proof {
                assert(want.subrange(0, i + 1).drop_last() =~= want.subrange(0, i as int));
                assert(path_set(self.collapsed_paths@) =~= start.difference(dir_paths(want.subrange(0, i + 1))));
            }
            i += 1;
        }
        assert(want.subrange(0, rows.len() as int) =~= want);
        let visual = self.is_visual_mode;
        if visual {
            let ranged = self.get_visual_range().is_some();
            if ranged {
                self.is_visual_mode = false;
                self.visual_origin = None;
            }
            ranged
        } else {
            changed
        }
    }

    /// Unfolds every directory.
    pub fn expand_all(&mut self)
        ensures
            *final(self) == (App { collapsed_paths: final(self).collapsed_paths, ..*old(self) }),
            final(self).collapsed_paths@.len() == 0,
    {
        self.collapsed_paths.clear();
    }

    /// Cycles the unified layout's filter; other layouts ignore it. Returns
    /// whether the rows must be rebuilt.
    pub fn toggle_filter(&mut self) -> (r: bool)
        ensures
            r == (old(self).layout == AppLayout::Unified),
            r ==> *final(self) == (App { filter_mode: old(self).filter_mode.spec_next(), ..*old(self) }),
            !r ==> *final(self) == *old(self),
    {
        if self.layout == AppLayout::Unified {
            self.filter_mode = self.filter_mode.next();
            true
        } else {
            false
        }
    }

    /// Cycles the layout and ends visual mode; the rows must then be rebuilt.
    pub fn toggle_layout(&mut self)
        ensures
            *final(self) == (App {
                layout: old(self).layout.spec_next(),
                is_visual_mode: false,
                visual_origin: None,
                ..*old(self)
            }),
    {
        self.layout = self.layout.next();
        self.is_visual_mode = false;
        self.visual_origin = None;
    }

    /// Cycles the drawing style; the rows must then be rebuilt.
    pub fn toggle_theme(&mut self)
        ensures
            final(self).theme_type == old(self).theme_type.spec_next(),
            final(self).theme_type == crate::theme::ThemeType::Ascii ==> final(self).theme == Theme::spec_ascii(),
            final(self).theme_type == crate::theme::ThemeType::Unicode ==> final(self).theme == Theme::spec_unicode(),
            final(self).theme_type == crate::theme::ThemeType::Rounded ==> final(self).theme == Theme::spec_rounded(),
            final(self).theme_type == crate::theme::ThemeType::Nerd ==> final(self).theme == Theme::spec_nerd(),
            *final(self) == (App { theme_type: final(self).theme_type, theme: final(self).theme, ..*old(self) }),
    {
        self.theme_type = self.theme_type.next();
        self.theme = Theme::new(self.theme_type);
    }

    /// Hands the focus to the other pane.
    pub fn toggle_focus(&mut self)
        ensures
            *final(self) == (App { focus: old(self).focus.spec_next(), ..*old(self) }),
    {
        self.focus = self.focus.next();
    }

    /// Selects the first row of every pane.
    pub fn reset_selection(&mut self)
        ensures
            *final(self) == (App { staged_state: Some(0), unstaged_state: Some(0), unified_state: Some(0), ..*old(self) }),
    {
        self.staged_state = Some(0);
        self.unstaged_state = Some(0);
        self.unified_state = Some(0);
    }

    /// Selects the first row and clears both edge flags.
    #[verifier::rlimit(80)]
    pub fn jump_to_top(&mut self)
        ensures
            *final(self) == (App { hit_top_edge: false, hit_bottom_edge: false, ..*old(self) }).with_sel(Some(0)),
    {
        self.select(Some(0));
        self.hit_top_edge = false;
        self.hit_bottom_edge = false;
    }

    /// Selects the last shown row, if any, and clears both edge flags.
    pub fn jump_to_bottom(&mut self)
        ensures
            old(self).shown().len() > 0 ==> *final(self) == (App { hit_top_edge: false, hit_bottom_edge: false, ..*old(self) }).with_sel(
                Some((old(self).shown().len() - 1) as usize),
            ),
            old(self).shown().len() == 0 ==> *final(self) == (App { hit_top_edge: false, hit_bottom_edge: false, ..*old(self) }),
    {
        let len = self.shown_len();
        if len > 0 {
            self.select(Some(len - 1));
        }
        self.hit_top_edge = false;
        self.hit_bottom_edge = false;
    }

    /// Moves the selection by `amount` rows, stopping at either end.
    pub fn scroll_paging(&mut self, amount: i32)
        ensures
            ({
                let len = old(self).shown().len() as int;
                if len == 0 {
                    *final(self) == *old(self)
                } else {
                    let target: int = match old(self).active_sel() {
                        None => 0,
                        Some(i) => if amount > 0 {
                            min_int(i + amount, len - 1)
                        } else if i + amount > 0 {
                            i + amount
                        } else {
                            0
                        },
                    };
                    *final(self) == old(self).with_sel(Some(target as usize))
                }
            }),
    {
        let len = self.shown_len();
        if len == 0 {
            return;
        }
        let i = match self.selected() {
            Some(i) => {
                if amount > 0 {
                    let up = i.saturating_add(amount as usize);
                    if up < len - 1 {
                        up
                    } else {
                        len - 1
                    }
                } else {
                    let down = (-(amount as i64)) as usize;
                    i.saturating_sub(down)
                }
            },
            None => 0,
        };
        self.select(Some(i));
    }

    /// Leaves the diff view.
    pub fn close_diff(&mut self)
        ensures
            final(self).view_mode == ViewMode::Tree,
            final(self).diff_content@.len() == 0,
            *final(self) == (App { view_mode: ViewMode::Tree, diff_content: final(self).diff_content, ..*old(self) }),
    {
        self.view_mode = ViewMode::Tree;
        self.diff_content = String::new();
    }

    /// Scrolls the diff by `amount` lines, stopping at the top and at the
    /// largest offset.
    pub fn scroll_diff(&mut self, amount: i16)
        ensures
            final(self).diff_scroll as int == if old(self).diff_scroll + amount < 0 {
                0
            } else if old(self).diff_scroll + amount > u16::MAX {
                u16::MAX as int
            } else {
                old(self).diff_scroll + amount
            },
            *final(self) == (App { diff_scroll: final(self).diff_scroll, ..*old(self) }),
    {
        if amount > 0 {
            self.diff_scroll = self.diff_scroll.saturating_add(amount as u16);
        } else {
            self.diff_scroll = self.diff_scroll.saturating_sub((-(amount as i32)) as u16);
        }
    }

    /// Shows or hides the help, scrolled to the top, ending any diff search
    /// input.
    pub fn toggle_help(&mut self)
        ensures
            *final(self) == (App { show_help: !old(self).show_help, help_scroll: 0, is_diff_search: false, ..*old(self) }),
    {
        self.show_help = !self.show_help;
        self.help_scroll = 0;
        self.is_diff_search = false;
    }

    /// Scrolls the help by `amount` lines, within its bounds.
    pub fn scroll_help(&mut self, amount: i16)
        ensures
            amount > 0 ==> final(self).help_scroll as int == min_int(
                min_int(old(self).help_scroll + amount, u16::MAX as int),
                if old(self).help_scroll + amount > old(self).max_help_scroll { old(self).max_help_scroll as int } else { u16::MAX as int },
            ),
            amount <= 0 ==> final(self).help_scroll as int == if old(self).help_scroll + amount < 0 { 0 } else { old(self).help_scroll + amount },
            *final(self) == (App { help_scroll: final(self).help_scroll, ..*old(self) }),
    {
        if amount > 0 {
            self.help_scroll = self.help_scroll.saturating_add(amount as u16);
            if self.help_scroll > self.max_help_scroll {
                self.help_scroll = self.max_help_scroll;
            }
        } else {
            self.help_scroll = self.help_scroll.saturating_sub((-(amount as i32)) as u16);
        }
    }

    /// Opens the commit dialog with an empty message.
    pub fn open_commit_dialog(&mut self)
        ensures
            final(self).show_commit_dialog,
            final(self).commit_message@.len() == 0,
            *final(self) == (App { show_commit_dialog: true, commit_message: final(self).commit_message, ..*old(self) }),
    {
        self.show_commit_dialog = true;
        self.commit_message = String::new();
    }

    /// Closes the commit dialog and drops its message.
    pub fn close_commit_dialog(&mut self)
        ensures
            !final(self).show_commit_dialog,
            final(self).commit_message@.len() == 0,
            *final(self) == (App { show_commit_dialog: false, commit_message: final(self).commit_message, ..*old(self) }),
    {
        self.show_commit_dialog = false;
        self.commit_message = String::new();
    }
}

/// The paths joined with newlines between them.
pub open spec fn newline_joined(paths: Seq<Seq<char>>) -> Seq<char>
    decreases paths.len(),
{
    if paths.len() == 0 {
        Seq::empty()
    } else if paths.len() == 1 {
        paths[0]
    } else {
        newline_joined(paths.drop_last()) + seq!['\n'] + paths.last()
    }
}

impl App {
    /// Folds every directory of the tree a status listing describes.
    /// Returns whether there was a tree (and the rows must be rebuilt).
    pub fn collapse_all(&mut self, status_output: &str, stats: &Vec<crate::status::StatEntry>) -> (r: bool)
        ensures
            r == crate::refresh::records_of(status_output@).is_some(),
            !r ==> *final(self) == *old(self),
            r ==> exists|t: Node| crate::builder::build_outcome(t, crate::refresh::records_of(status_output@)->0, stats@, false, false) && path_set(final(self).collapsed_paths@)
                == path_set(old(self).collapsed_paths@).union(crate::tree::dir_paths_of(t)),
    {
        match crate::refresh::status_records(status_output) {
            Some(lines) => {
                let t = crate::builder::build_tree(lines, stats, false, false);
                t.get_all_dir_paths(&mut self.collapsed_paths);
                assert(crate::builder::build_outcome(t, crate::refresh::records_of(status_output@)->0, stats@, false, false));
                true
            },
            None => false,
        }
    }

    /// Opens the worktree picker on `list`, selecting its first entry.
    pub fn open_worktrees(&mut self, list: Vec<Worktree>)
        ensures
            final(self).show_worktrees,
            final(self).worktrees@ == list@,
            list@.len() > 0 ==> final(self).worktree_state == Some(0usize),
            list@.len() == 0 ==> final(self).worktree_state == old(self).worktree_state,
    {
        let nonempty = list.len() > 0;
        self.worktrees = list;
        if nonempty {
            self.worktree_state = Some(0);
        }
        self.show_worktrees = true;
    }

    /// Closes the worktree picker.
    pub fn close_worktrees(&mut self)
        ensures
            *final(self) == (App { show_worktrees: false, ..*old(self) }),
    {
        self.show_worktrees = false;
    }

    /// The path of the picked worktree, if the pick is valid.
    pub fn selected_worktree_path(&self) -> (r: Option<String>)
        ensures
            match self.worktree_state {
                Some(i) => if i < self.worktrees@.len() {
                    r matches Some(p) && p@ == self.worktrees@[i as int].path@
                } else {
                    r.is_none()
                },
                None => r.is_none(),
            },
    {
        match self.worktree_state {
            Some(i) => {
                if i < self.worktrees.len() {
                    Some(self.worktrees[i].path.clone())
                } else {
                    None
                }
            },
            None => None,
        }
    }

    /// The text to copy for the selection: the paths in scope, one per line.
    /// In visual mode with a range, visual mode then ends.
    pub fn yank_path(&mut self) -> (r: Option<String>)
        ensures
            scope_rows(*old(self)).len() == 0 ==> r.is_none(),
            scope_rows(*old(self)).len() > 0 ==> (r matches Some(t) && t@ == newline_joined(paths_of(scope_rows(*old(self))))),
            old(self).is_visual_mode && visual_range(*old(self)).is_some() ==> *final(self) == (App {
                is_visual_mode: false,
                visual_origin: None,
                ..*old(self)
            }),
            !(old(self).is_visual_mode && visual_range(*old(self)).is_some()) ==> *final(self) == *old(self),
    {
        let rows = self.scope();
        let ghost want = paths_of(scope_rows(*self));
        let mut out = String::new();
        let mut i: usize = 0;
        while i < rows.len()
            invariant
                i <= rows.len(),
                paths_of(rows@) == want,
                out@ == newline_joined(want.subrange(0, i as int)),
            decreases rows.len() - i,
        {
            assert(want[i as int] == rows@[i as int].full_path@);
            let ghost pre = want.subrange(0, i + 1);
            assert(pre.drop_last() =~= want.subrange(0, i as int));
            if i > 0 {
                crate::text::push_char(&mut out, '\n');
            } else {
                assert(want.subrange(0, 0) =~= Seq::<Seq<char>>::empty());
            }
            crate::text::append_str(&mut out, rows[i].full_path.as_str());
            assert(out@ =~= newline_joined(pre));
            i += 1;
        }
        assert(want.subrange(0, rows.len() as int) =~= want);
        if self.is_visual_mode && self.get_visual_range().is_some() {
            self.is_visual_mode = false;
            self.visual_origin = None;
        }
        if rows.len() == 0 {
            None
        } else {
            Some(out)
        }
    }
}

} // verus!

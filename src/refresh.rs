use vstd::prelude::*;

use crate::builder::build_tree;
use crate::flatten::{ctx_of, flat_rows, row_models, FlatNode};
use crate::render::{max_row_width, max_width_upto};
use crate::session::{adjust_selection, clamp_selection, App, AppLayout, FilterMode, Focus};
use crate::status::{is_staged, StatEntry};
use crate::text::{char_views, lines_of, split_lines, string_from, views};
use crate::tree::Node;

verus! {

broadcast use vstd::std_specs::vec::group_vec_axioms;

/// The status records of a status listing: its lines without a leading
/// `##` branch line; `None` when no record is left.
pub open spec fn records_of(text: Seq<char>) -> Option<Seq<Seq<char>>> {
    let lines = lines_of(text);
    let rest = if lines.len() > 0 && lines[0].len() >= 2 && lines[0][0] == '#' && lines[0][1] == '#' {
        lines.drop_first()
    } else {
        lines
    };
    if rest.len() == 0 {
        None
    } else {
        Some(rest)
    }
}

/// Splits a status listing into its records.
pub fn status_records(text: &str) -> (r: Option<Vec<String>>)
    ensures
        match r {
            Some(v) => records_of(text@) == Some(views(v@)),
            None => records_of(text@).is_none(),
        },
{
    let lines = split_lines(text);
    let ghost ls = char_views(lines@);
    let skip: usize = if lines.len() > 0 && lines[0].len() >= 2 && lines[0][0] == '#' && lines[0][1] == '#' {
        1
    } else {
        0
    };
    let mut out: Vec<String> = Vec::new();
    let mut i = skip;
    while i < lines.len()
        invariant
            ls == char_views(lines@),
            skip <= i <= lines.len(),
            views(out@) == ls.subrange(skip as int, i as int),
        decreases lines.len() - i,
    {
        let ghost before = out@;
        out.push(string_from(&lines[i]));
        assert(views(out@) =~= views(before).push(ls[i as int]));
        assert(ls.subrange(skip as int, i + 1) =~= ls.subrange(skip as int, i as int).push(ls[i as int]));
        i += 1;
    }
    assert(ls.subrange(skip as int, ls.len() as int) =~= if skip == 1 { ls.drop_first() } else { ls });
    if out.len() == 0 {
        None
    } else {
        Some(out)
    }
}

/// The branch line of a status listing, or empty text when there is none.
pub fn status_header(text: &str) -> (r: String)
    ensures
        ({
            let lines = lines_of(text@);
            if lines.len() > 0 && lines[0].len() >= 2 && lines[0][0] == '#' && lines[0][1] == '#' {
                r@ == lines[0]
            } else {
                r@.len() == 0
            }
        }),
{
    let lines = split_lines(text);
    if lines.len() > 0 && lines[0].len() >= 2 && lines[0][0] == '#' && lines[0][1] == '#' {
        string_from(&lines[0])
    } else {
        String::new()
    }
}

/// The rows of `rows` that are not staged.
pub open spec fn unstaged_only(rows: Seq<FlatNode>) -> Seq<FlatNode>
    decreases rows.len(),
{
    if rows.len() == 0 {
        rows
    } else if is_staged(rows.last().raw_status@) {
        unstaged_only(rows.drop_last())
    } else {
        unstaged_only(rows.drop_last()).push(rows.last())
    }
}

fn drop_staged(rows: Vec<FlatNode>) -> (r: Vec<FlatNode>)
    ensures
        r@ == unstaged_only(rows@),
{
    let mut out: Vec<FlatNode> = Vec::new();
    let mut rest = rows;
    let mut kept: Vec<FlatNode> = Vec::new();
    let ghost all = rest@;
    // Walk from the back, then restore the order.
    while rest.len() > 0
        invariant
            all == rows@,
            rest@.len() <= all.len(),
            rest@ == all.subrange(0, rest@.len() as int),
            unstaged_only(all) == unstaged_only(rest@) + kept@.reverse(),
        decreases rest.len(),
    {
        let ghost pre = rest@;
        let x = rest.pop().unwrap();
        assert(pre.drop_last() =~= rest@);
        let st = crate::text::chars_of(x.raw_status.as_str());
        if !crate::status::code_is_staged(&st) {
            let ghost k0 = kept@;
            kept.push(x);
            assert(kept@.reverse() =~= seq![pre.last()] + k0.reverse());
        }
        assert(rest@ =~= all.subrange(0, rest@.len() as int));
    }
    while kept.len() > 0
        invariant
            unstaged_only(all) == out@ + kept@.reverse(),
            all == rows@,
        decreases kept.len(),
    {
        let ghost k0 = kept@;
        let x = kept.pop().unwrap();
        assert(k0.reverse() =~= seq![x] + kept@.reverse());
        out.push(x);
    }
    assert(unstaged_only(Seq::<FlatNode>::empty()) =~= Seq::empty());
    out
}

/// Saturating column sums of the statistics table.
pub open spec fn stat_sums(stats: Seq<StatEntry>) -> (usize, usize)
    decreases stats.len(),
{
    if stats.len() == 0 {
        (0, 0)
    } else {
        let (a, d) = stat_sums(stats.drop_last());
        let (x, y) = stats.last().1;
        (sat_add(a, x), sat_add(d, y))
    }
}

pub open spec fn sat_add(a: usize, b: usize) -> usize {
    if a + b > usize::MAX {
        usize::MAX
    } else {
        (a + b) as usize
    }
}

fn sum_stats(stats: &Vec<StatEntry>) -> (r: (usize, usize))
    ensures
        r == stat_sums(stats@),
{
    let mut a: usize = 0;
    let mut d: usize = 0;
    let mut i: usize = 0;
    while i < stats.len()
        invariant
            i <= stats.len(),
            (a, d) == stat_sums(stats@.subrange(0, i as int)),
        decreases stats.len() - i,
    {
        assert(stats@.subrange(0, i + 1).drop_last() =~= stats@.subrange(0, i as int));
        a = a.saturating_add(stats[i].1.0);
        d = d.saturating_add(stats[i].1.1);
        i += 1;
    }
    assert(stats@.subrange(0, stats.len() as int) =~= stats@);
    (a, d)
}

/// The filters the unified layout builds with.
pub open spec fn unified_filters(m: FilterMode) -> (bool, bool) {
    match m {
        FilterMode::All => (false, false),
        FilterMode::Modified => (false, true),
        FilterMode::Staged => (true, false),
    }
}

impl App {
    /// The settings the panes are flattened with.
    pub open spec fn flat_ctx(&self) -> crate::flatten::FlatCtx {
        ctx_of(self.indent_size, self.collapse, self.theme, self.collapsed_paths@)
    }

    /// The settings the unified pane is flattened with: the compact layout
    /// always collapses chains.
    pub open spec fn unified_ctx(&self) -> crate::flatten::FlatCtx {
        if self.layout == AppLayout::Compact {
            ctx_of(self.indent_size, true, self.theme, self.collapsed_paths@)
        } else {
            self.flat_ctx()
        }
    }

    /// The filters the unified pane is built with: none in the compact
    /// layout, else those of the filter mode.
    pub open spec fn unified_filters(&self) -> (bool, bool) {
        if self.layout == AppLayout::Compact {
            (false, false)
        } else {
            unified_filters(self.filter_mode)
        }
    }

    /// Rebuilds the rows of every pane of the current layout from a status
    /// listing and the line statistics, keeps each selection within its
    /// rows, recomputes the name column width, and totals the statistics.
    pub fn refresh(&mut self, status_output: &str, stats: &Vec<StatEntry>)
        requires
            old(self).indent_size >= 2,
        ensures
            final(self).layout == old(self).layout,
            final(self).focus == old(self).focus,
            final(self).indent_size == old(self).indent_size,
            final(self).collapsed_paths == old(self).collapsed_paths,
            final(self).global_stats == Some(stat_sums(stats@)),
            old(self).layout == AppLayout::Split ==> (records_of(status_output@).is_none() ==> final(self).staged_nodes@.len() == 0 && final(self).unstaged_nodes@.len() == 0),
            old(self).layout == AppLayout::Split ==> (records_of(status_output@).is_some() ==> exists|s: Node|
                crate::builder::build_outcome(s, records_of(status_output@)->0, stats@, true, false) && row_models(final(self).staged_nodes@) == flat_rows(s, old(self).flat_ctx())),
            old(self).layout == AppLayout::Split ==> (records_of(status_output@).is_some() ==> exists|
                a: Node,
                all: Seq<FlatNode>,
            |
                crate::builder::build_outcome(a, records_of(status_output@)->0, stats@, false, false) && row_models(all) == flat_rows(a, old(self).flat_ctx())
                    && final(self).unstaged_nodes@ == unstaged_only(all)),
            old(self).layout == AppLayout::Split ==> final(self).staged_state == clamp_selection(
                final(self).staged_nodes@.len() as int,
                old(self).staged_state,
                old(self).focus == Focus::Staged,
            ) && final(self).unstaged_state == clamp_selection(
                final(self).unstaged_nodes@.len() as int,
                old(self).unstaged_state,
                old(self).focus == Focus::Unstaged,
            ),
            old(self).layout == AppLayout::Split ==> final(self).max_name_width as int == {
                let ms = max_width_upto(row_models(final(self).staged_nodes@), final(self).staged_nodes@.len() as int);
                let mu = max_width_upto(row_models(final(self).unstaged_nodes@), final(self).unstaged_nodes@.len() as int);
                if ms > mu { ms } else { mu }
            },
            old(self).layout != AppLayout::Split ==> (records_of(status_output@).is_none()
                ==> final(self).unified_nodes@.len() == 0),
            old(self).layout != AppLayout::Split ==> (records_of(status_output@).is_some() ==> exists|t: Node|
                crate::builder::build_outcome(t, records_of(status_output@)->0, stats@, old(self).unified_filters().0, old(self).unified_filters().1) && row_models(
                    final(self).unified_nodes@,
                ) == flat_rows(t, old(self).unified_ctx())),
            old(self).layout != AppLayout::Split ==> final(self).unified_state == clamp_selection(
                final(self).unified_nodes@.len() as int,
                old(self).unified_state,
                true,
            ),
            old(self).layout != AppLayout::Split ==> final(self).max_name_width as int == max_width_upto(
                row_models(final(self).unified_nodes@),
                final(self).unified_nodes@.len() as int,
            ),
    {
        let records = status_records(status_output);
        match self.layout {
            AppLayout::Split => {
                match &records {
                    Some(lines) => {
                        let s = build_tree(crate::text::clone_strings(lines), stats, true, false);
                        self.staged_nodes = s.flatten(self.indent_size, self.collapse, &self.theme, &self.collapsed_paths);
                        let a = build_tree(crate::text::clone_strings(lines), stats, false, false);
                        let all = a.flatten(self.indent_size, self.collapse, &self.theme, &self.collapsed_paths);
                        let ghost all_rows = all@;
                        self.unstaged_nodes = drop_staged(all);
                        assert(crate::builder::build_outcome(s, records_of(status_output@)->0, stats@, true, false));
                        assert(crate::builder::build_outcome(a, records_of(status_output@)->0, stats@, false, false));
                        assert(ctx_of(self.indent_size, self.collapse, self.theme, self.collapsed_paths@) == old(self).flat_ctx());
                        assert(row_models(self.staged_nodes@) == flat_rows(s, old(self).flat_ctx()));
                        assert(row_models(all_rows) == flat_rows(a, old(self).flat_ctx()));
                        assert(self.unstaged_nodes@ == unstaged_only(all_rows));
                        assert(row_models(all_rows) == flat_rows(a, ctx_of(self.indent_size, self.collapse, self.theme, self.collapsed_paths@)));
                    },
                    None => {
                        self.staged_nodes = Vec::new();
                        self.unstaged_nodes = Vec::new();
                    },
                }
                let ms = max_row_width(&self.staged_nodes);
                let mu = max_row_width(&self.unstaged_nodes);
                self.max_name_width = if ms > mu { ms } else { mu };
                self.staged_state = adjust_selection(self.staged_nodes.len(), self.staged_state, self.focus == Focus::Staged);
                self.unstaged_state = adjust_selection(self.unstaged_nodes.len(), self.unstaged_state, self.focus == Focus::Unstaged);
            },
            _ => {
                let compact = self.layout == AppLayout::Compact;
                let (so, mo) = if compact {
                    (false, false)
                } else {
                    match self.filter_mode {
                        FilterMode::All => (false, false),
                        FilterMode::Modified => (false, true),
                        FilterMode::Staged => (true, false),
                    }
                };
                let collapse = if compact { true } else { self.collapse };
                match &records {
                    Some(lines) => {
                        let t = build_tree(crate::text::clone_strings(lines), stats, so, mo);
                        self.unified_nodes = t.flatten(self.indent_size, collapse, &self.theme, &self.collapsed_paths);
                        assert(crate::builder::build_outcome(t, records_of(status_output@)->0, stats@, so, mo));
                        assert(row_models(self.unified_nodes@) == flat_rows(t, ctx_of(self.indent_size, collapse, self.theme, self.collapsed_paths@)));
                        assert(ctx_of(self.indent_size, collapse, self.theme, self.collapsed_paths@) == old(self).unified_ctx());
                        assert((so, mo) == old(self).unified_filters());
                        assert(crate::builder::build_outcome(t, records_of(status_output@)->0, stats@, old(self).unified_filters().0, old(self).unified_filters().1) && row_models(
                            self.unified_nodes@,
                        ) == flat_rows(t, old(self).unified_ctx()));
                    },
                    None => {
                        self.unified_nodes = Vec::new();
                    },
                }
                self.max_name_width = max_row_width(&self.unified_nodes);
                self.unified_state = adjust_selection(self.unified_nodes.len(), self.unified_state, true);
            },
        }
        let (a, d) = sum_stats(stats);
        self.global_stats = Some((a, d));
    }
}

} // verus!

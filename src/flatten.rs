use vstd::prelude::*;

use crate::icons::{get_icon, icon_for};
use crate::text::{chars_of, extend_chars, push_char, same_text, string_from, views};
use crate::style::{paint_bold, paint_green, paint_red};
use crate::theme::Theme;
use crate::tree::{aggregate_status, children_of, is_dir, status_class, Node, NodeType};

verus! {

broadcast use vstd::std_specs::vec::group_vec_axioms;

/// One display row of the flattened tree.
#[derive(Debug, Clone)]
pub struct FlatNode {
    /// Display name: icon, name and, for files, the status in parentheses.
    pub name: String,
    /// The display name styled for a terminal.
    pub name_colored: String,
    pub full_path: String,
    pub is_dir: bool,
    /// Status class: `+`, `?`, `M`, or blank for a directory.
    pub status: char,
    pub raw_status: String,
    /// Tree-drawing glyphs and indentation in front of the name.
    pub connector: String,
    pub stats: Option<(usize, usize)>,
    pub depth: usize,
}

/// What a row shows, leaving out its terminal styling.
pub struct RowModel {
    pub name: Seq<char>,
    pub full_path: Seq<char>,
    pub is_dir: bool,
    pub status: char,
    pub raw_status: Seq<char>,
    pub connector: Seq<char>,
    pub stats: Option<(usize, usize)>,
    pub depth: int,
}

impl FlatNode {
    pub open spec fn model(&self) -> RowModel {
        RowModel {
            name: self.name@,
            full_path: self.full_path@,
            is_dir: self.is_dir,
            status: self.status,
            raw_status: self.raw_status@,
            connector: self.connector@,
            stats: self.stats,
            depth: self.depth as int,
        }
    }
}

pub open spec fn row_models(rows: Seq<FlatNode>) -> Seq<RowModel> {
    rows.map_values(|r: FlatNode| r.model())
}

/// The settings a flattening runs under.
pub struct FlatCtx {
    pub indent: int,
    pub collapse: bool,
    pub theme: Theme,
    pub folded: Set<Seq<char>>,
}

pub open spec fn repeat(c: char, k: int) -> Seq<char> {
    Seq::new(k as nat, |_i: int| c)
}

/// The glyphs in front of a row: the parent's prefix, a branch or end glyph,
/// dashes up to the indent, and a space.
pub open spec fn connector_of(prefix: Seq<char>, is_last: bool, ctx: FlatCtx) -> Seq<char> {
    prefix.push(if is_last { ctx.theme.tree_end } else { ctx.theme.tree_branch }) + repeat(
        ctx.theme.tree_dash,
        ctx.indent - 2,
    ) + seq![' ']
}

/// The prefix handed to the children of a row: a vertical bar while later
/// siblings follow, blank after the last one.
pub open spec fn child_prefix(prefix: Seq<char>, is_last: bool, ctx: FlatCtx) -> Seq<char> {
    if is_last {
        prefix + seq![' ', ' '] + repeat(' ', ctx.indent - 2)
    } else {
        prefix + seq![ctx.theme.tree_vertical, ' '] + repeat(' ', ctx.indent - 2)
    }
}

/// The icon text in front of a name.
pub open spec fn icon_text(label: Seq<char>, dir: bool, theme: Theme) -> Seq<char> {
    if theme.uses_name_icons() {
        icon_for(label, dir) + seq![' ']
    } else if dir {
        theme.icon_dir@
    } else {
        theme.icon_file@
    }
}

/// Display name of an entry: icon and name, and for a file its status in
/// parentheses.
pub open spec fn clean_name(label: Seq<char>, dir: bool, status: Seq<char>, theme: Theme) -> Seq<char> {
    if dir {
        icon_text(label, true, theme) + label
    } else {
        icon_text(label, false, theme) + label + seq![' ', '('] + status + seq![')']
    }
}

/// A file's own status code; empty for a directory.
pub open spec fn file_code(n: Node) -> Seq<char> {
    match n.node_type {
        NodeType::File { status, .. } => status@,
        NodeType::Directory { .. } => Seq::empty(),
    }
}

pub open spec fn stats_of(n: Node) -> Option<(usize, usize)> {
    match n.node_type {
        NodeType::File { stats, .. } => stats,
        NodeType::Directory { .. } => None,
    }
}

pub open spec fn row_of(n: Node, label: Seq<char>, connector: Seq<char>, depth: int, theme: Theme) -> RowModel {
    RowModel {
        name: clean_name(label, is_dir(n), file_code(n), theme),
        full_path: n.full_path@,
        is_dir: is_dir(n),
        status: status_class(n),
        raw_status: aggregate_status(n),
        connector,
        stats: stats_of(n),
        depth,
    }
}

/// A directory whose only child is a directory: chain collapsing merges
/// the two into one row.
pub open spec fn collapsible(n: Node) -> bool {
    match n.node_type {
        NodeType::Directory { children } => children.len() == 1 && is_dir(children@[0]),
        NodeType::File { .. } => false,
    }
}

pub open spec fn inc(d: int) -> int {
    if d < usize::MAX {
        d + 1
    } else {
        d
    }
}

/// The rows of `n` at a child position. `lead` is the part of the name that
/// chain collapsing carried down from the collapsed ancestors.
pub open spec fn node_rows(n: Node, lead: Seq<char>, prefix: Seq<char>, is_last: bool, depth: int, ctx: FlatCtx) -> Seq<RowModel>
    decreases n, 1int, 0int,
{
    match n.node_type {
        NodeType::Directory { children } => if ctx.collapse && collapsible(n) {
            node_rows(children@[0], lead + n.name@ + ctx.theme.path_divider@, prefix, is_last, depth, ctx)
        } else {
            seq![row_of(n, lead + n.name@, connector_of(prefix, is_last, ctx), depth, ctx.theme)] + if ctx.folded.contains(
                n.full_path@,
            ) {
                Seq::empty()
            } else {
                children_rows(n, 0, child_prefix(prefix, is_last, ctx), inc(depth), ctx)
            }
        },
        NodeType::File { .. } => seq![row_of(n, lead + n.name@, connector_of(prefix, is_last, ctx), depth, ctx.theme)],
    }
}

/// The rows of the children of `n` from the `i`-th on.
pub open spec fn children_rows(n: Node, i: int, prefix: Seq<char>, depth: int, ctx: FlatCtx) -> Seq<RowModel>
    decreases n, 0int, children_of(n).len() - i,
{
    match n.node_type {
        NodeType::Directory { children } => if 0 <= i < children.len() {
            node_rows(children@[i], Seq::empty(), prefix, i == children.len() - 1, depth, ctx) + children_rows(
                n,
                i + 1,
                prefix,
                depth,
                ctx,
            )
        } else {
            Seq::empty()
        },
        NodeType::File { .. } => Seq::empty(),
    }
}

/// The rows of a whole tree: the root, never collapsed and never folded,
/// then its children.
pub open spec fn flat_rows(root: Node, ctx: FlatCtx) -> Seq<RowModel> {
    seq![row_of(root, root.name@, Seq::empty(), 0, ctx.theme)] + children_rows(root, 0, Seq::empty(), 1, ctx)
}

pub open spec fn ctx_of(indent: usize, collapse: bool, theme: Theme, folded: Seq<String>) -> FlatCtx {
    FlatCtx { indent: indent as int, collapse, theme, folded: views(folded).to_set() }
}

fn icon_chars(label: &Vec<char>, dir: bool, theme: &Theme) -> (r: Vec<char>)
    ensures
        r@ == icon_text(label@, dir, *theme),
{
    if theme.is_nerd && !theme.simple_icons {
        let name = string_from(label);
        let mut r = chars_of(get_icon(name.as_str(), dir));
        r.push(' ');
        r
    } else if dir {
        chars_of(theme.icon_dir)
    } else {
        chars_of(theme.icon_file)
    }
}

/// The display name of an entry called `label`.
pub fn clean_name_of(label: &Vec<char>, dir: bool, status: &Vec<char>, theme: &Theme) -> (r: String)
    ensures
        r@ == clean_name(label@, dir, status@, *theme),
{
    let mut v = icon_chars(label, dir, theme);
    extend_chars(&mut v, label);
    if !dir {
        v.push(' ');
        v.push('(');
        extend_chars(&mut v, status);
        v.push(')');
    }
    let r = string_from(&v);
    assert(r@ =~= clean_name(label@, dir, status@, *theme));
    r
}

/// The display name of an entry called `label`, styled for a terminal:
/// directories bold, staged files green, others red.
fn styled_name_of(label: &Vec<char>, dir: bool, status: &Vec<char>, theme: &Theme) -> String {
    let mut s = string_from(&icon_chars(label, dir, theme));
    let plain = string_from(label);
    if dir {
        let b = paint_bold(plain.as_str());
        crate::text::append_str(&mut s, b.as_str());
    } else {
        let painted = if crate::status::code_has(status, '+') {
            paint_green(plain.as_str())
        } else {
            paint_red(plain.as_str())
        };
        crate::text::append_str(&mut s, painted.as_str());
        push_char(&mut s, ' ');
        push_char(&mut s, '(');
        crate::text::append_seq(&mut s, status);
        push_char(&mut s, ')');
    }
    s
}

fn file_code_of(n: &Node) -> (r: Vec<char>)
    ensures
        r@ == file_code(*n),
{
    match &n.node_type {
        NodeType::File { status, .. } => chars_of(status.as_str()),
        NodeType::Directory { .. } => {
            let r: Vec<char> = Vec::new();
            assert(r@ =~= Seq::<char>::empty());
            r
        },
    }
}

impl Node {
    /// Icon, name and, for a file, its status in parentheses.
    pub fn get_display_name_clean(&self, theme: &Theme) -> (r: String)
        ensures
            r@ == clean_name(self.name@, is_dir(*self), file_code(*self), *theme),
    {
        let label = chars_of(self.name.as_str());
        clean_name_of(&label, self.is_dir(), &file_code_of(self), theme)
    }

    /// The display name styled for a terminal.
    pub fn format_name(&self, theme: &Theme) -> String {
        let label = chars_of(self.name.as_str());
        styled_name_of(&label, self.is_dir(), &file_code_of(self), theme)
    }
}

fn make_row(n: &Node, label: &Vec<char>, connector: Vec<char>, depth: usize, theme: &Theme) -> (r: FlatNode)
    ensures
        r.model() == row_of(*n, label@, connector@, depth as int, *theme),
{
    let code = file_code_of(n);
    let dir = n.is_dir();
    FlatNode {
        name: clean_name_of(label, dir, &code, theme),
        name_colored: styled_name_of(label, dir, &code, theme),
        full_path: n.full_path.clone(),
        is_dir: dir,
        status: n.get_status_char(),
        raw_status: n.get_raw_status(),
        connector: string_from(&connector),
        stats: n.get_stats(),
        depth,
    }
}

fn repeat_onto(v: &mut Vec<char>, c: char, k: usize)
    ensures
        final(v)@ == old(v)@ + repeat(c, k as int),
{
    let mut i: usize = 0;
    while i < k
        invariant
            i <= k,
            v@ == old(v)@ + repeat(c, i as int),
        decreases k - i,
    {
        v.push(c);
        assert(repeat(c, i + 1) =~= repeat(c, i as int).push(c));
        i += 1;
    }
}

/// Whether `path` is one of `set`.
pub fn holds_path(set: &Vec<String>, path: &String) -> (r: bool)
    ensures
        r == views(set@).to_set().contains(path@),
{
    let mut i: usize = 0;
    while i < set.len()
        invariant
            i <= set.len(),
            forall|j: int| 0 <= j < i ==> set@[j]@ != path@,
        decreases set.len() - i,
    {
        if same_text(set[i].as_str(), path.as_str()) {
            assert(views(set@)[i as int] == path@);
            return true;
        }
        i += 1;
    }
    assert(!views(set@).contains(path@));
    false
}

/// Settings of one flattening, as exec values.
struct FlatSettings<'a> {
    indent: usize,
    collapse: bool,
    theme: &'a Theme,
    folded: &'a Vec<String>,
}

impl<'a> FlatSettings<'a> {
    spec fn ctx(&self) -> FlatCtx {
        ctx_of(self.indent, self.collapse, *self.theme, self.folded@)
    }
}

fn flatten_node(n: &Node, lead: Vec<char>, prefix: &Vec<char>, is_last: bool, depth: usize, cfg: &FlatSettings, out: &mut Vec<FlatNode>)
    requires
        cfg.indent >= 2,
    ensures
        row_models(final(out)@) == row_models(old(out)@) + node_rows(*n, lead@, prefix@, is_last, depth as int, cfg.ctx()),
    decreases *n, 1int, 0int,
{
    let ghost start = row_models(out@);
    match &n.node_type {
        NodeType::Directory { children } => {
            if cfg.collapse && children.len() == 1 && children[0].is_dir() {
                let mut l = lead;
                extend_chars(&mut l, &chars_of(n.name.as_str()));
                extend_chars(&mut l, &chars_of(cfg.theme.path_divider));
                proof {
                    crate::tree::lemma_child_decreases(*n, 0);
                }
                flatten_node(&children[0], l, prefix, is_last, depth, cfg, out);
                return;
            }
        },
        NodeType::File { .. } => {},
    }
    let mut label = lead;
    extend_chars(&mut label, &chars_of(n.name.as_str()));
    let mut conn: Vec<char> = Vec::new();
    extend_chars(&mut conn, prefix);
    conn.push(if is_last { cfg.theme.tree_end } else { cfg.theme.tree_branch });
    repeat_onto(&mut conn, cfg.theme.tree_dash, cfg.indent - 2);
    conn.push(' ');
    assert(conn@ =~= connector_of(prefix@, is_last, cfg.ctx()));
    let ghost before = out@;
    out.push(make_row(n, &label, conn, depth, cfg.theme));
    assert(row_models(out@) =~= row_models(before).push(
        row_of(*n, label@, connector_of(prefix@, is_last, cfg.ctx()), depth as int, *cfg.theme),
    ));
    match &n.node_type {
        NodeType::Directory { .. } => {
            if !holds_path(cfg.folded, &n.full_path) {
                let mut next: Vec<char> = Vec::new();
                extend_chars(&mut next, prefix);
                if is_last {
                    next.push(' ');
                    next.push(' ');
                } else {
                    next.push(cfg.theme.tree_vertical);
                    next.push(' ');
                }
                repeat_onto(&mut next, ' ', cfg.indent - 2);
                assert(next@ =~= child_prefix(prefix@, is_last, cfg.ctx()));
                let d = if depth < usize::MAX { depth + 1 } else { depth };
                let ghost mid = row_models(out@);
                flatten_children(n, &next, d, cfg, out);
                assert(row_models(out@) =~= start + node_rows(*n, lead@, prefix@, is_last, depth as int, cfg.ctx()));
            } else {
                assert(row_models(out@) =~= start + node_rows(*n, lead@, prefix@, is_last, depth as int, cfg.ctx()));
            }
        },
        NodeType::File { .. } => {
            assert(row_models(out@) =~= start + node_rows(*n, lead@, prefix@, is_last, depth as int, cfg.ctx()));
        },
    }
}

fn flatten_children(n: &Node, prefix: &Vec<char>, depth: usize, cfg: &FlatSettings, out: &mut Vec<FlatNode>)
    requires
        cfg.indent >= 2,
    ensures
        row_models(final(out)@) == row_models(old(out)@) + children_rows(*n, 0, prefix@, depth as int, cfg.ctx()),
    decreases *n, 0int, children_of(*n).len(),
{
    match &n.node_type {
        NodeType::Directory { children } => {
            let count = children.len();
            let mut i: usize = 0;
            while i < count
                invariant
                    cfg.indent >= 2,
                    n.node_type is Directory,
                    n.node_type->children == *children,
                    count == children.len(),
                    i <= count,
                    row_models(old(out)@) + children_rows(*n, 0, prefix@, depth as int, cfg.ctx()) == row_models(out@)
                        + children_rows(*n, i as int, prefix@, depth as int, cfg.ctx()),
                decreases count - i,
            {
                proof {
                    crate::tree::lemma_child_decreases(*n, i as int);
                }
                let ghost before = row_models(out@);
                let empty: Vec<char> = Vec::new();
                assert(empty@ =~= Seq::<char>::empty());
                flatten_node(&children[i], empty, prefix, i == count - 1, depth, cfg, out);
                assert(children_rows(*n, i as int, prefix@, depth as int, cfg.ctx()) == node_rows(
                    children@[i as int],
                    Seq::empty(),
                    prefix@,
                    i == count - 1,
                    depth as int,
                    cfg.ctx(),
                ) + children_rows(*n, i + 1, prefix@, depth as int, cfg.ctx()));
                i += 1;
            }
            assert(children_rows(*n, count as int, prefix@, depth as int, cfg.ctx()) =~= Seq::empty());
        },
        NodeType::File { .. } => {
            assert(row_models(out@) =~= row_models(old(out)@) + children_rows(*n, 0, prefix@, depth as int, cfg.ctx()));
        },
    }
}

impl Node {
    /// The display rows of this tree, depth first, directories before files.
    /// Directories in `collapsed_paths` show their own row but not their
    /// contents; with `collapse`, chains of single-child directories share
    /// one row.
    pub fn flatten(&self, indent_size: usize, collapse: bool, theme: &Theme, collapsed_paths: &Vec<String>) -> (r: Vec<FlatNode>)
        requires
            indent_size >= 2,
        ensures
            row_models(r@) == flat_rows(*self, ctx_of(indent_size, collapse, *theme, collapsed_paths@)),
    {
        let cfg = FlatSettings { indent: indent_size, collapse, theme, folded: collapsed_paths };
        let mut out: Vec<FlatNode> = Vec::new();
        let label = chars_of(self.name.as_str());
        let root = make_row(self, &label, Vec::new(), 0, theme);
        out.push(root);
        let empty: Vec<char> = Vec::new();
        assert(empty@ =~= Seq::<char>::empty());
        assert(row_models(out@) =~= seq![row_of(*self, self.name@, Seq::empty(), 0, *theme)]);
        flatten_children(self, &empty, 1, &cfg, &mut out);
        out
    }
}

/// The names a chain of single-child directories starting at `n` merges,
/// from the top down.
pub open spec fn chain_names(n: Node) -> Seq<Seq<char>>
    decreases n,
{
    match n.node_type {
        NodeType::Directory { children } => if collapsible(n) {
            seq![n.name@] + chain_names(children@[0])
        } else {
            seq![n.name@]
        },
        NodeType::File { .. } => seq![n.name@],
    }
}

/// The node at the bottom of the chain starting at `n`.
pub open spec fn chain_end(n: Node) -> Node
    decreases n,
{
    match n.node_type {
        NodeType::Directory { children } => if collapsible(n) {
            chain_end(children@[0])
        } else {
            n
        },
        NodeType::File { .. } => n,
    }
}

/// The parts joined with `sep` between neighbours.
pub open spec fn joined(parts: Seq<Seq<char>>, sep: Seq<char>) -> Seq<char>
    decreases parts.len(),
{
    if parts.len() == 0 {
        Seq::empty()
    } else if parts.len() == 1 {
        parts[0]
    } else {
        parts[0] + sep + joined(parts.drop_first(), sep)
    }
}

/// Chain collapsing fires exactly on a directory whose only child is a
/// directory: the chain then has more than one name. With collapsing on,
/// the first row drawn for `n` is the row of the bottom of the chain, named
/// by the chain's names joined with the theme's divider, in order from the
/// top.
pub proof fn lemma_chain_collapse(n: Node, lead: Seq<char>, prefix: Seq<char>, is_last: bool, depth: int, ctx: FlatCtx)
    requires
        ctx.collapse,
    ensures
        (chain_names(n).len() > 1) == collapsible(n),
        !collapsible(n) ==> chain_end(n) == n,
        node_rows(n, lead, prefix, is_last, depth, ctx).len() > 0,
        node_rows(n, lead, prefix, is_last, depth, ctx)[0] == row_of(
            chain_end(n),
            lead + joined(chain_names(n), ctx.theme.path_divider@),
            connector_of(prefix, is_last, ctx),
            depth,
            ctx.theme,
        ),
    decreases n,
{
    match n.node_type {
        NodeType::Directory { children } => {
            if collapsible(n) {
                let c = children@[0];
                lemma_chain_collapse(c, lead + n.name@ + ctx.theme.path_divider@, prefix, is_last, depth, ctx);
                lemma_chain_nonempty(c);
                let names = chain_names(n);
                assert(names.drop_first() =~= chain_names(c));
                assert(lead + n.name@ + ctx.theme.path_divider@ + joined(chain_names(c), ctx.theme.path_divider@)
                    =~= lead + joined(names, ctx.theme.path_divider@));
            } else {
                assert(lead + n.name@ =~= lead + joined(chain_names(n), ctx.theme.path_divider@));
            }
        },
        NodeType::File { .. } => {
            assert(lead + n.name@ =~= lead + joined(chain_names(n), ctx.theme.path_divider@));
        },
    }
}

proof fn lemma_chain_nonempty(n: Node)
    ensures
        chain_names(n).len() >= 1,
        chain_names(n)[0] == n.name@,
    decreases n,
{
    match n.node_type {
        NodeType::Directory { children } => {
            if collapsible(n) {
                lemma_chain_nonempty(children@[0]);
            }
        },
        NodeType::File { .. } => {},
    }
}

/// Folding a directory keeps its own row and drops exactly the rows of its
/// contents: the output shrinks by the number of those rows.
pub proof fn lemma_fold_hides_contents(n: Node, lead: Seq<char>, prefix: Seq<char>, is_last: bool, depth: int, ctx: FlatCtx)
    requires
        is_dir(n),
        !(ctx.collapse && collapsible(n)),
        !ctx.folded.contains(n.full_path@),
    ensures
        ({
            let folded_ctx = FlatCtx { folded: ctx.folded.insert(n.full_path@), ..ctx };
            let open_rows = node_rows(n, lead, prefix, is_last, depth, ctx);
            let contents = children_rows(n, 0, child_prefix(prefix, is_last, ctx), inc(depth), ctx);
            &&& node_rows(n, lead, prefix, is_last, depth, folded_ctx) == open_rows.subrange(0, 1)
            &&& open_rows.subrange(1, open_rows.len() as int) == contents
            &&& node_rows(n, lead, prefix, is_last, depth, folded_ctx).len() == open_rows.len() - contents.len()
        }),
{
    let folded_ctx = FlatCtx { folded: ctx.folded.insert(n.full_path@), ..ctx };
    let open_rows = node_rows(n, lead, prefix, is_last, depth, ctx);
    let row = row_of(n, lead + n.name@, connector_of(prefix, is_last, ctx), depth, ctx.theme);
    assert(row == row_of(n, lead + n.name@, connector_of(prefix, is_last, folded_ctx), depth, folded_ctx.theme));
    assert(node_rows(n, lead, prefix, is_last, depth, folded_ctx) =~= seq![row]);
    assert(open_rows.subrange(0, 1) =~= seq![row]);
    assert(open_rows.subrange(1, open_rows.len() as int) =~= children_rows(
        n,
        0,
        child_prefix(prefix, is_last, ctx),
        inc(depth),
        ctx,
    ));
}

/// The bottom of the collapsible chain starting at this node, and the
/// chain's names joined with `divider`.
pub fn get_collapsed_view<'a>(n: &'a Node, divider: &str) -> (r: (String, &'a Node))
    ensures
        r.0@ == joined(chain_names(*n), divider@),
        *r.1 == chain_end(*n),
    decreases *n,
{
    match &n.node_type {
        NodeType::Directory { children } => {
            if children.len() == 1 && children[0].is_dir() {
                proof {
                    crate::tree::lemma_child_decreases(*n, 0);
                    lemma_chain_nonempty(children@[0]);
                }
                let (rest, end) = get_collapsed_view(&children[0], divider);
                let mut name = n.name.clone();
                crate::text::append_str(&mut name, divider);
                crate::text::append_str(&mut name, rest.as_str());
                assert(chain_names(*n).drop_first() =~= chain_names(children@[0]));
                assert(name@ =~= joined(chain_names(*n), divider@));
                return (name, end);
            }
        },
        NodeType::File { .. } => {},
    }
    let name = n.name.clone();
    assert(name@ =~= joined(chain_names(*n), divider@));
    (name, n)
}

/// The settings with directory `d` folded as well.
pub open spec fn fold_in(ctx: FlatCtx, d: Seq<char>) -> FlatCtx {
    FlatCtx { folded: ctx.folded.insert(d), ..ctx }
}

/// How many rows the drawing of `n` shows below a directory whose path is
/// `d`: the rows that folding `d` removes.
pub open spec fn hidden_rows(n: Node, lead: Seq<char>, prefix: Seq<char>, is_last: bool, depth: int, ctx: FlatCtx, d: Seq<char>) -> int
    decreases n, 1int, 0int,
{
    match n.node_type {
        NodeType::Directory { children } => if ctx.collapse && collapsible(n) {
            hidden_rows(children@[0], lead + n.name@ + ctx.theme.path_divider@, prefix, is_last, depth, ctx, d)
        } else if ctx.folded.contains(n.full_path@) {
            0
        } else if n.full_path@ == d {
            children_rows(n, 0, child_prefix(prefix, is_last, ctx), inc(depth), ctx).len() as int
        } else {
            hidden_children(n, 0, child_prefix(prefix, is_last, ctx), inc(depth), ctx, d)
        },
        NodeType::File { .. } => 0,
    }
}

/// The rows folding `d` removes from the children of `n` from the `i`-th on.
pub open spec fn hidden_children(n: Node, i: int, prefix: Seq<char>, depth: int, ctx: FlatCtx, d: Seq<char>) -> int
    decreases n, 0int, children_of(n).len() - i,
{
    match n.node_type {
        NodeType::Directory { children } => if 0 <= i < children.len() {
            hidden_rows(children@[i], Seq::empty(), prefix, i == children.len() - 1, depth, ctx, d)
                + hidden_children(n, i + 1, prefix, depth, ctx, d)
        } else {
            0
        },
        NodeType::File { .. } => 0,
    }
}

proof fn lemma_fold_node(n: Node, lead: Seq<char>, prefix: Seq<char>, is_last: bool, depth: int, ctx: FlatCtx, d: Seq<char>)
    ensures
        node_rows(n, lead, prefix, is_last, depth, fold_in(ctx, d)).len() == node_rows(n, lead, prefix, is_last, depth, ctx).len()
            - hidden_rows(n, lead, prefix, is_last, depth, ctx, d),
    decreases n, 1int, 0int,
{
    let f = fold_in(ctx, d);
    assert(connector_of(prefix, is_last, f) == connector_of(prefix, is_last, ctx));
    assert(child_prefix(prefix, is_last, f) == child_prefix(prefix, is_last, ctx));
    match n.node_type {
        NodeType::Directory { children } => {
            if ctx.collapse && collapsible(n) {
                lemma_fold_node(children@[0], lead + n.name@ + ctx.theme.path_divider@, prefix, is_last, depth, ctx, d);
            } else if ctx.folded.contains(n.full_path@) {
            } else if n.full_path@ == d {
            } else {
                lemma_fold_children(n, 0, child_prefix(prefix, is_last, ctx), inc(depth), ctx, d);
            }
        },
        NodeType::File { .. } => {},
    }
}

proof fn lemma_fold_children(n: Node, i: int, prefix: Seq<char>, depth: int, ctx: FlatCtx, d: Seq<char>)
    ensures
        children_rows(n, i, prefix, depth, fold_in(ctx, d)).len() == children_rows(n, i, prefix, depth, ctx).len()
            - hidden_children(n, i, prefix, depth, ctx, d),
    decreases n, 0int, children_of(n).len() - i,
{
    match n.node_type {
        NodeType::Directory { children } => {
            if 0 <= i < children.len() {
                crate::tree::lemma_child_decreases(n, i);
                lemma_fold_node(children@[i], Seq::empty(), prefix, i == children.len() - 1, depth, ctx, d);
                lemma_fold_children(n, i + 1, prefix, depth, ctx, d);
            }
        },
        NodeType::File { .. } => {},
    }
}

/// Folding directory `d` shortens the whole drawing by exactly the number
/// of rows that stood below the rows of `d`.
pub proof fn lemma_fold_whole_tree(root: Node, ctx: FlatCtx, d: Seq<char>)
    ensures
        flat_rows(root, fold_in(ctx, d)).len() == flat_rows(root, ctx).len() - hidden_children(root, 0, Seq::empty(), 1, ctx, d),
{
    lemma_fold_children(root, 0, Seq::empty(), 1, ctx, d);
    assert(row_of(root, root.name@, Seq::empty(), 0, fold_in(ctx, d).theme) == row_of(root, root.name@, Seq::empty(), 0, ctx.theme));
}

} // verus!

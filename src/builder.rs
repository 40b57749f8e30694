use vstd::prelude::*;

use crate::status::{
    code_is_staged, code_is_untracked, components, find_stats, parse_status_line, passes_filter,
    path_components, place_record, placement, stat_lookup, status_code, StatEntry,
};
use crate::text::{chars_of, seq_equal, string_from, views};
use crate::tree::{children_of, has_files, siblings_sorted, tree_sorted, tree_sorted_from, Node, NodeType};

verus! {

broadcast use vstd::std_specs::vec::group_vec_axioms;

/// Every file of the tree passes the filters.
pub open spec fn files_pass(n: Node, staged_only: bool, modified_only: bool) -> bool
    decreases n, 1int, 0int,
{
    match n.node_type {
        NodeType::File { status, .. } => passes_filter(status@, staged_only, modified_only),
        NodeType::Directory { .. } => files_pass_from(n, 0, staged_only, modified_only),
    }
}

/// Every file below the children of `n` from the `i`-th on passes the filters.
pub open spec fn files_pass_from(n: Node, i: int, staged_only: bool, modified_only: bool) -> bool
    decreases n, 0int, children_of(n).len() - i,
{
    match n.node_type {
        NodeType::File { .. } => true,
        NodeType::Directory { children } => if 0 <= i < children.len() {
            files_pass(children@[i], staged_only, modified_only) && files_pass_from(
                n,
                i + 1,
                staged_only,
                modified_only,
            )
        } else {
            true
        },
    }
}

/// A file called `name` at `path` with code `status` and statistics `st`
/// is what line `line` describes, its statistics looked up in `stats`.
pub open spec fn leaf_from_line(
    name: Seq<char>,
    path: Seq<char>,
    status: Seq<char>,
    st: Option<(usize, usize)>,
    line: Seq<char>,
    stats: Seq<StatEntry>,
) -> bool {
    let code = status_code(line[0], line[1]);
    let pl = placement(line.subrange(3, line.len() as int), code);
    &&& line.len() >= 4
    &&& name == pl.display_name
    &&& path == pl.tree_path
    &&& status == code
    &&& st == stat_lookup(stats, pl.stats_key)
}

/// Some line describes this file.
pub open spec fn from_lines(
    name: Seq<char>,
    path: Seq<char>,
    status: Seq<char>,
    st: Option<(usize, usize)>,
    lines: Seq<Seq<char>>,
    stats: Seq<StatEntry>,
) -> bool {
    exists|i: int| 0 <= i < lines.len() && leaf_from_line(name, path, status, st, #[trigger] lines[i], stats)
}

/// Every file of the tree is one that some line describes.
pub open spec fn leaves_from(n: Node, lines: Seq<Seq<char>>, stats: Seq<StatEntry>) -> bool
    decreases n, 1int, 0int,
{
    match n.node_type {
        NodeType::File { status, stats: st } => from_lines(n.name@, n.full_path@, status@, st, lines, stats),
        NodeType::Directory { .. } => leaves_from_from(n, 0, lines, stats),
    }
}

/// Every file below the children of `n` from the `i`-th on is one that
/// some line describes.
pub open spec fn leaves_from_from(n: Node, i: int, lines: Seq<Seq<char>>, stats: Seq<StatEntry>) -> bool
    decreases n, 0int, children_of(n).len() - i,
{
    match n.node_type {
        NodeType::File { .. } => true,
        NodeType::Directory { children } => if 0 <= i < children.len() {
            leaves_from(children@[i], lines, stats) && leaves_from_from(n, i + 1, lines, stats)
        } else {
            true
        },
    }
}

/// Every directory of the tree holds at least one file.
pub open spec fn dirs_hold_files(n: Node) -> bool
    decreases n, 1int, 0int,
{
    match n.node_type {
        NodeType::File { .. } => true,
        NodeType::Directory { .. } => has_files(n) && dirs_hold_files_from(n, 0),
    }
}

/// Every directory below the children of `n` from the `i`-th on holds a file.
pub open spec fn dirs_hold_files_from(n: Node, i: int) -> bool
    decreases n, 0int, children_of(n).len() - i,
{
    match n.node_type {
        NodeType::File { .. } => true,
        NodeType::Directory { children } => if 0 <= i < children.len() {
            dirs_hold_files(children@[i]) && dirs_hold_files_from(n, i + 1)
        } else {
            true
        },
    }
}

/// The path of an entry called `name` in the directory whose path is
/// `parent` (empty for the root).
pub open spec fn join_under(parent: Seq<char>, name: Seq<char>) -> Seq<char> {
    if parent.len() == 0 {
        name
    } else {
        parent + seq!['/'] + name
    }
}

/// The path made of components `cs`.
pub open spec fn joined_path(cs: Seq<Seq<char>>) -> Seq<char>
    decreases cs.len(),
{
    if cs.len() == 0 {
        Seq::empty()
    } else {
        join_under(joined_path(cs.drop_last()), cs.last())
    }
}

/// The path of the directory a file path names (empty for the root).
pub open spec fn dir_of(p: Seq<char>) -> Seq<char> {
    joined_path(components(p).drop_last())
}

/// `n` sits in the directory whose path is `pp`: a directory's path is
/// `pp` joined with its name and its entries sit in it; a file's path
/// names `pp` as its directory.
pub open spec fn placed_in(n: Node, pp: Seq<char>) -> bool
    decreases n, 1int, 0int,
{
    match n.node_type {
        NodeType::File { .. } => dir_of(n.full_path@) == pp,
        NodeType::Directory { .. } => n.name@.len() > 0 && n.full_path@ == join_under(pp, n.name@) && kids_placed(n, 0, n.full_path@),
    }
}

/// The children of `n` from the `i`-th on sit in the directory `p`.
pub open spec fn kids_placed(n: Node, i: int, p: Seq<char>) -> bool
    decreases n, 0int, children_of(n).len() - i,
{
    match n.node_type {
        NodeType::File { .. } => true,
        NodeType::Directory { children } => if 0 <= i < children.len() {
            placed_in(children@[i], p) && kids_placed(n, i + 1, p)
        } else {
            true
        },
    }
}

/// No directory of the tree holds two entries with the same name.
pub open spec fn names_unique(n: Node) -> bool
    decreases n, 1int, 0int,
{
    match n.node_type {
        NodeType::File { .. } => true,
        NodeType::Directory { children } => crate::tree::names_apart(children@) && names_unique_from(n, 0),
    }
}

/// The subtrees of the children of `n` from the `i`-th on have unique names.
pub open spec fn names_unique_from(n: Node, i: int) -> bool
    decreases n, 0int, children_of(n).len() - i,
{
    match n.node_type {
        NodeType::File { .. } => true,
        NodeType::Directory { children } => if 0 <= i < children.len() {
            names_unique(children@[i]) && names_unique_from(n, i + 1)
        } else {
            true
        },
    }
}

/// One node of the tree under construction; children are indices into the
/// builder's arena, always greater than the node's own index.
struct BuilderNode {
    name: Vec<char>,
    full_path: Vec<char>,
    children: Vec<usize>,
    file_status: Option<Vec<char>>,
    stats: Option<(usize, usize)>,
}

/// The mutable tree under construction, keyed by path component.
struct TreeBuilder {
    nodes: Vec<BuilderNode>,
    staged_only: bool,
    modified_only: bool,
    lines: Ghost<Seq<Seq<char>>>,
    table: Ghost<Seq<StatEntry>>,
}

impl TreeBuilder {
    spec fn wf(&self) -> bool {
        &&& self.nodes.len() >= 1
        &&& forall|i: int, k: int|
            0 <= i < self.nodes.len() && 0 <= k < self.nodes@[i].children.len() ==> i
                < #[trigger] self.nodes@[i].children@[k] < self.nodes.len()
        &&& forall|i: int|
            0 <= i < self.nodes.len() && (#[trigger] self.nodes@[i]).file_status is Some
                ==> passes_filter(
                self.nodes@[i].file_status->0@,
                self.staged_only,
                self.modified_only,
            )
        &&& forall|i: int|
            0 <= i < self.nodes.len() && (#[trigger] self.nodes@[i]).file_status is Some ==> from_lines(
                self.nodes@[i].name@,
                self.nodes@[i].full_path@,
                self.nodes@[i].file_status->0@,
                self.nodes@[i].stats,
                self.lines@,
                self.table@,
            )
    }

    /// The path under which the entries of node `i` sit.
    spec fn base(&self, i: int) -> Seq<char> {
        if i == 0 {
            Seq::empty()
        } else {
            self.nodes@[i].full_path@
        }
    }

    /// The entries of every directory sit in it.
    spec fn placed(&self) -> bool {
        forall|i: int, k: int|
            0 <= i < self.nodes.len() && self.nodes@[i].file_status is None && 0 <= k < self.nodes@[i].children.len()
                ==> #[trigger] self.entry_placed(i, self.nodes@[i].children@[k] as int)
    }

    spec fn entry_placed(&self, i: int, j: int) -> bool {
        if self.nodes@[j].file_status is None {
            self.nodes@[j].name@.len() > 0 && self.nodes@[j].full_path@ == join_under(self.base(i), self.nodes@[j].name@)
        } else {
            dir_of(self.nodes@[j].full_path@) == self.base(i)
        }
    }

    /// The `k`-th child of the root is a file with these fields.
    spec fn root_file_at(&self, k: int, name: Seq<char>, path: Seq<char>, status: Seq<char>, st: Option<(usize, usize)>) -> bool {
        &&& 0 <= k < self.nodes@[0].children.len()
        &&& self.nodes@[0].children@[k] < self.nodes.len()
        &&& self.nodes@[self.nodes@[0].children@[k] as int].file_status matches Some(f) && f@ == status
        &&& self.nodes@[self.nodes@[0].children@[k] as int].name@ == name
        &&& self.nodes@[self.nodes@[0].children@[k] as int].full_path@ == path
        &&& self.nodes@[self.nodes@[0].children@[k] as int].stats == st
    }

    /// Node `q` has the name, path, status and statistics of `n`.
    spec fn same_fields(&self, n: BuilderNode, q: int) -> bool {
        &&& self.nodes@[q].name == n.name
        &&& self.nodes@[q].full_path == n.full_path
        &&& self.nodes@[q].file_status == n.file_status
        &&& self.nodes@[q].stats == n.stats
    }

    /// The `k`-th child of node `i`, frozen, is `n`'s file.
    spec fn kid_matches(&self, i: int, k: int, n: Node) -> bool {
        let c = self.nodes@[i].children@[k] as int;
        self.nodes@[c].file_status matches Some(f) ==> tree_file(n, self.nodes@[c].name@, self.nodes@[c].full_path@, f@, self.nodes@[c].stats)
    }

    /// No node has two children with the same name.
    spec fn siblings_apart(&self) -> bool {
        forall|i: int, a: int, b: int|
            0 <= i < self.nodes.len() && 0 <= a < b < self.nodes@[i].children.len() ==> #[trigger] self.child_name(i, a)
                != #[trigger] self.child_name(i, b)
    }

    spec fn child_name(&self, i: int, a: int) -> Seq<char> {
        self.nodes@[self.nodes@[i].children@[a] as int].name@
    }

    /// Every directory but the root has a child.
    spec fn dirs_filled(&self) -> bool {
        forall|i: int|
            0 < i < self.nodes.len() && (#[trigger] self.nodes@[i]).file_status is None ==> self.nodes@[i].children.len() > 0
    }

    fn new(staged_only: bool, modified_only: bool, lines: Ghost<Seq<Seq<char>>>, table: Ghost<Seq<StatEntry>>) -> (r: TreeBuilder)
        ensures
            r.wf(),
            r.lines == lines,
            r.table == table,
            r.dirs_filled(),
            r.placed(),
            r.siblings_apart(),
            r.nodes@[0].children.len() == 0,
            r.staged_only == staged_only,
            r.modified_only == modified_only,
            r.nodes@[0].name@ == seq!['.'],
            r.nodes@[0].full_path@ == seq!['.'],
            r.nodes@[0].file_status is None,
    {
        let root = BuilderNode {
            name: vec!['.'],
            full_path: vec!['.'],
            children: Vec::new(),
            file_status: None,
            stats: None,
        };
        let r = TreeBuilder { nodes: vec![root], staged_only, modified_only, lines, table };
        assert(r.nodes@[0].name@ =~= seq!['.']);
        assert(r.nodes@[0].full_path@ =~= seq!['.']);
        r
    }

    /// The child of `parent` called `name`, if any.
    fn find_child(&self, parent: usize, name: &Vec<char>) -> (r: Option<usize>)
        requires
            self.wf(),
            parent < self.nodes.len(),
        ensures
            r matches Some(k) ==> k < self.nodes@[parent as int].children.len()
                && self.nodes@[self.nodes@[parent as int].children@[k as int] as int].name@ == name@,
            r is None ==> forall|k: int| 0 <= k < self.nodes@[parent as int].children.len() ==> #[trigger] self.child_name(parent as int, k) != name@,
    {
        let mut k: usize = 0;
        while k < self.nodes[parent].children.len()
            invariant
                self.wf(),
                parent < self.nodes.len(),
                k <= self.nodes@[parent as int].children.len(),
                forall|q: int| 0 <= q < k ==> #[trigger] self.child_name(parent as int, q) != name@,
            decreases self.nodes@[parent as int].children.len() - k,
        {
            let c = self.nodes[parent].children[k];
            if seq_equal(&self.nodes[c].name, name) {
                return Some(k);
            }
            k += 1;
        }
        None
    }

    /// Adds `node` to the arena as a child of `parent`, in place of the
    /// child at `slot` when one is given; returns its index.
    fn attach(&mut self, parent: usize, slot: Option<usize>, node: BuilderNode) -> (r: usize)
        requires
            old(self).wf(),
            parent < old(self).nodes.len(),
            slot matches Some(k) ==> k < old(self).nodes@[parent as int].children.len(),
            node.children.len() == 0,
            node.file_status matches Some(s) ==> passes_filter(
                s@,
                old(self).staged_only,
                old(self).modified_only,
            ),
            node.file_status matches Some(s) ==> from_lines(node.name@, node.full_path@, s@, node.stats, old(self).lines@, old(self).table@),
            old(self).placed(),
            old(self).siblings_apart(),
            slot matches Some(k) ==> old(self).child_name(parent as int, k as int) == node.name@,
            slot is None ==> forall|k: int| 0 <= k < old(self).nodes@[parent as int].children.len() ==> #[trigger] old(self).child_name(parent as int, k) != node.name@,
            old(self).nodes@[parent as int].file_status is None,
            node.file_status is None ==> node.name@.len() > 0 && node.full_path@ == join_under(old(self).base(parent as int), node.name@),
            node.file_status is Some ==> dir_of(node.full_path@) == old(self).base(parent as int),
        ensures
            final(self).placed(),
            final(self).siblings_apart(),
            final(self).wf(),
            final(self).lines == old(self).lines,
            final(self).table == old(self).table,
            final(self).staged_only == old(self).staged_only,
            final(self).modified_only == old(self).modified_only,
            r == old(self).nodes.len(),
            r < final(self).nodes.len(),
            final(self).nodes@[0].name == old(self).nodes@[0].name,
            final(self).nodes@[0].full_path == old(self).nodes@[0].full_path,
            final(self).nodes@[0].file_status == old(self).nodes@[0].file_status,
            final(self).nodes@[0].children.len() >= old(self).nodes@[0].children.len(),
            parent == 0 ==> final(self).nodes@[0].children.len() > 0,
            final(self).nodes.len() == old(self).nodes.len() + 1,
            final(self).nodes@[r as int].file_status == node.file_status,
            final(self).nodes@[r as int].full_path == node.full_path,
            final(self).nodes@[r as int].name == node.name,
            final(self).nodes@[r as int].stats == node.stats,
            final(self).nodes@[r as int].children.len() == 0,
            final(self).nodes@[parent as int].children.len() > 0,
            final(self).nodes@[parent as int].file_status == old(self).nodes@[parent as int].file_status,
            forall|i: int| 0 <= i < old(self).nodes.len() && i != parent ==> #[trigger] final(self).nodes@[i] == old(self).nodes@[i],
            final(self).nodes@[parent as int].name == old(self).nodes@[parent as int].name,
            final(self).nodes@[parent as int].full_path == old(self).nodes@[parent as int].full_path,
            final(self).nodes@[parent as int].stats == old(self).nodes@[parent as int].stats,
            forall|k: int|
                0 <= k < old(self).nodes@[parent as int].children.len() && slot != Some(k as usize)
                    ==> #[trigger] final(self).nodes@[parent as int].children@[k] == old(self).nodes@[parent as int].children@[k],
            final(self).nodes@[parent as int].children.len() >= old(self).nodes@[parent as int].children.len(),
            exists|k: int| 0 <= k < final(self).nodes@[parent as int].children.len() && #[trigger] final(self).nodes@[parent as int].children@[k] == r,
    {
        let idx = self.nodes.len();
        let ghost before = self.nodes@;
        let ghost node_name = node.name@;
        self.nodes.push(node);
        match slot {
            Some(k) => {
                self.nodes[parent].children.set(k, idx);
                assert(self.nodes@[parent as int].children@[k as int] == idx);
            },
            None => {
                self.nodes[parent].children.push(idx);
                assert(self.nodes@[parent as int].children@[before[parent as int].children.len() as int] == idx);
            },
        }
        assert forall|i: int, k: int|
            0 <= i < self.nodes.len() && 0 <= k < self.nodes@[i].children.len() implies i
                < #[trigger] self.nodes@[i].children@[k] < self.nodes.len() by {
            if i != parent && i < before.len() {
                assert(self.nodes@[i] == before[i]);
            }
        }
        assert forall|i: int|
            0 <= i < self.nodes.len() && (#[trigger] self.nodes@[i]).file_status is Some
                implies passes_filter(
                self.nodes@[i].file_status->0@,
                self.staged_only,
                self.modified_only,
            ) by {
            if i < before.len() {
                assert(self.nodes@[i].file_status == before[i].file_status);
            }
        }
        assert forall|i: int, a: int, b: int|
            0 <= i < self.nodes.len() && 0 <= a < b < self.nodes@[i].children.len() implies #[trigger] self.child_name(i, a)
                != #[trigger] self.child_name(i, b) by {
            let ca = self.nodes@[i].children@[a] as int;
            let cb = self.nodes@[i].children@[b] as int;
            if i < before.len() {
                assert(ca < self.nodes.len() && cb < self.nodes.len());
                if ca != idx as int {
                    assert(self.nodes@[ca].name == before[ca].name);
                }
                if cb != idx as int {
                    assert(self.nodes@[cb].name == before[cb].name);
                }
                if i == parent as int {
                    let ol = before[i].children.len() as int;
                    match slot {
                        Some(k) => {
                            if a != k as int && b != k as int {
                                assert(old(self).child_name(i, a) != old(self).child_name(i, b));
                            } else if a == k as int {
                                assert(old(self).child_name(i, k as int) != old(self).child_name(i, b));
                            } else {
                                assert(old(self).child_name(i, a) != old(self).child_name(i, k as int));
                            }
                        },
                        None => {
                            if b < ol {
                                assert(old(self).child_name(i, a) != old(self).child_name(i, b));
                            } else {
                                assert(old(self).child_name(i, a) != node_name);
                            }
                        },
                    }
                } else {
                    assert(old(self).child_name(i, a) != old(self).child_name(i, b));
                }
            }
        }
        assert forall|i: int, k: int|
            0 <= i < self.nodes.len() && self.nodes@[i].file_status is None && 0 <= k < self.nodes@[i].children.len()
                implies #[trigger] self.entry_placed(i, self.nodes@[i].children@[k] as int) by {
            let j = self.nodes@[i].children@[k] as int;
            if i == parent as int {
                if j != idx as int {
                    assert(before[i].children@[k] as int == j);
                    assert(old(self).entry_placed(i, j));
                    assert(self.nodes@[j] == before[j]);
                }
            } else {
                assert(self.nodes@[i] == before[i]);
                assert(old(self).entry_placed(i, j));
                assert(self.nodes@[j].file_status == before[j].file_status);
                assert(self.nodes@[j].full_path == before[j].full_path);
                assert(self.nodes@[j].name == before[j].name);
            }
        }
        assert forall|i: int|
            0 <= i < self.nodes.len() && (#[trigger] self.nodes@[i]).file_status is Some
                implies from_lines(
                self.nodes@[i].name@,
                self.nodes@[i].full_path@,
                self.nodes@[i].file_status->0@,
                self.nodes@[i].stats,
                self.lines@,
                self.table@,
            ) by {
            if i < before.len() {
                assert(self.nodes@[i].file_status == before[i].file_status);
                assert(self.nodes@[i].name == before[i].name);
                assert(self.nodes@[i].full_path == before[i].full_path);
                assert(self.nodes@[i].stats == before[i].stats);
            }
        }
        idx
    }
}

impl TreeBuilder {
    /// Inserts one file at `path` (its components `comps`), creating the
    /// directories above it as needed.
    fn insert_file(
        &mut self,
        comps: &Vec<Vec<char>>,
        path: Vec<char>,
        name: Vec<char>,
        status: Vec<char>,
        stats: Option<(usize, usize)>,
    )
        requires
            old(self).wf(),
            comps.len() > 0,
            passes_filter(status@, old(self).staged_only, old(self).modified_only),
            from_lines(name@, path@, status@, stats, old(self).lines@, old(self).table@),
            old(self).dirs_filled(),
            old(self).placed(),
            old(self).siblings_apart(),
            old(self).nodes@[0].file_status is None,
            crate::text::char_views(comps@) == components(path@),
        ensures
            final(self).wf(),
            final(self).dirs_filled(),
            final(self).placed(),
            final(self).siblings_apart(),
            forall|k: int, n: Seq<char>, p: Seq<char>, c: Seq<char>, t: Option<(usize, usize)>|
                #[trigger] old(self).root_file_at(k, n, p, c, t) && n != name@ && n != comps@[0]@ ==> final(self).root_file_at(k, n, p, c, t),
            comps.len() == 1 ==> exists|k: int| #[trigger] final(self).root_file_at(k, name@, path@, status@, stats),
            final(self).lines == old(self).lines,
            final(self).table == old(self).table,
            final(self).staged_only == old(self).staged_only,
            final(self).modified_only == old(self).modified_only,
            final(self).nodes@[0].name == old(self).nodes@[0].name,
            final(self).nodes@[0].full_path == old(self).nodes@[0].full_path,
            final(self).nodes@[0].file_status == old(self).nodes@[0].file_status,
            final(self).nodes@[0].children.len() > 0,
    {
        let mut cur: usize = 0;
        let mut cur_path: Vec<char> = Vec::new();
        let mut k: usize = 0;
        while k < comps.len() - 1
            invariant
                self.wf(),
                self.staged_only == old(self).staged_only,
                self.modified_only == old(self).modified_only,
                self.lines == old(self).lines,
                self.table == old(self).table,
                self.nodes@[0].name == old(self).nodes@[0].name,
                self.nodes@[0].full_path == old(self).nodes@[0].full_path,
                self.nodes@[0].file_status == old(self).nodes@[0].file_status,
                cur < self.nodes.len(),
                k < comps.len(),
                self.nodes@[0].children.len() >= old(self).nodes@[0].children.len(),
                k > 0 ==> self.nodes@[0].children.len() > 0,
                forall|i: int|
                    0 < i < self.nodes.len() && i != cur && (#[trigger] self.nodes@[i]).file_status is None ==> self.nodes@[i].children.len() > 0,
                k == 0 ==> cur == 0,
                self.placed(),
                self.siblings_apart(),
                self.nodes@[cur as int].file_status is None,
                cur_path@ == joined_path(crate::text::char_views(comps@).subrange(0, k as int)),
                cur_path@ == self.base(cur as int),
                crate::text::char_views(comps@) == components(path@),
                cur_path@.len() == 0 <==> k == 0,
                self.nodes.len() >= old(self).nodes.len(),
                self.nodes@[0].children.len() >= old(self).nodes@[0].children.len(),
                forall|q: int| 0 <= q < old(self).nodes@[0].children.len() ==> #[trigger] self.nodes@[0].children@[q] == old(self).nodes@[0].children@[q],
                forall|q: int| 0 <= q < old(self).nodes.len() ==> #[trigger] self.same_fields(old(self).nodes@[q], q),
            decreases comps.len() - k,
        {
            let ghost cs = crate::text::char_views(comps@);
            let ghost old_path = cur_path@;
            if cur_path.len() > 0 {
                cur_path.push('/');
            }
            crate::text::extend_chars(&mut cur_path, &comps[k]);
            proof {
                assert(cs[k as int] == comps@[k as int]@);
                assert(cs.subrange(0, k + 1).drop_last() =~= cs.subrange(0, k as int));
                assert(cur_path@ =~= join_under(old_path, cs[k as int]));
                lemma_component_nonempty(path@, k as int);
            }
            match self.find_child(cur, &comps[k]) {
                Some(j) => {
                    let next = self.nodes[cur].children[j];
                    assert(self.entry_placed(cur as int, next as int));
                    if self.nodes[next].file_status.is_some() {
                        // below a file nothing is kept: the record is dropped
                        proof {
                            assert forall|kk: int, n: Seq<char>, p: Seq<char>, c: Seq<char>, t: Option<(usize, usize)>|
                                #[trigger] old(self).root_file_at(kk, n, p, c, t) implies self.root_file_at(kk, n, p, c, t) by {
                                let ch = old(self).nodes@[0].children@[kk];
                                assert(self.nodes@[0].children@[kk] == ch);
                                assert(self.same_fields(old(self).nodes@[ch as int], ch as int));
                            }
                        }
                        return;
                    }
                    assert(next > cur);
                    assert(self.base(next as int) == self.nodes@[next as int].full_path@);
                    cur = next;
                },
                None => {
                    let dir = BuilderNode {
                        name: copy_chars(&comps[k]),
                        full_path: copy_chars(&cur_path),
                        children: Vec::new(),
                        file_status: None,
                        stats: None,
                    };
                    let ghost pre = *self;
                    let ghost parent = cur as int;
                    cur = self.attach(cur, None, dir);
                    assert(self.base(cur as int) == self.nodes@[cur as int].full_path@);
                    assert forall|q: int| 0 <= q < old(self).nodes.len() implies #[trigger] self.same_fields(old(self).nodes@[q], q) by {
                        assert(pre.same_fields(old(self).nodes@[q], q));
                        if q != parent {
                            assert(self.nodes@[q] == pre.nodes@[q]);
                        }
                    }
                },
            }
            k += 1;
        }
        proof {
            let cs = crate::text::char_views(comps@);
            assert(cs.subrange(0, k as int) =~= cs.drop_last());
        }
        let slot = self.find_child(cur, &name);
        let ghost mid = *self;
        let ghost lname = name@;
        let ghost lpath = path@;
        let ghost lstatus = status@;
        let leaf = BuilderNode { name, full_path: path, children: Vec::new(), file_status: Some(status), stats };
        let r = self.attach(cur, slot, leaf);
        proof {
            assert forall|k: int, n: Seq<char>, p: Seq<char>, c: Seq<char>, t: Option<(usize, usize)>|
                #[trigger] old(self).root_file_at(k, n, p, c, t) && n != lname && n != comps@[0]@ implies self.root_file_at(k, n, p, c, t) by {
                let ch = old(self).nodes@[0].children@[k];
                assert(mid.nodes@[0].children@[k] == ch);
                assert(mid.same_fields(old(self).nodes@[ch as int], ch as int));
                assert(mid.nodes@[ch as int].name@ == n);
                if cur == 0 {
                    if slot == Some(k as usize) {
                        assert(mid.nodes@[mid.nodes@[0].children@[k] as int].name@ == lname);
                    }
                    assert(self.nodes@[0].children@[k] == ch);
                } else {
                    assert(self.nodes@[0] == mid.nodes@[0]);
                }
                if ch as int == cur as int {
                } else {
                    assert(self.nodes@[ch as int] == mid.nodes@[ch as int]);
                }
            }
            if comps.len() == 1 {
                assert(cur == 0);
                let k = choose|k: int| 0 <= k < self.nodes@[0].children.len() && #[trigger] self.nodes@[0].children@[k] == r;
                assert(self.root_file_at(k, lname, lpath, lstatus, stats));
            }
        }
    }

    /// The immutable subtree rooted at arena index `idx`.
    fn freeze(&self, idx: usize) -> (r: Node)
        requires
            self.wf(),
            self.dirs_filled(),
            self.placed(),
            self.siblings_apart(),
            idx < self.nodes.len(),
        ensures
            names_unique(r),
            self.nodes@[idx as int].file_status is None ==> kids_placed(r, 0, self.base(idx as int)),
            self.nodes@[idx as int].file_status matches Some(f) ==> r.node_type matches NodeType::File { status, stats }
                && status@ == f@ && stats == self.nodes@[idx as int].stats,
            idx == 0 && self.nodes@[0].file_status is None ==> forall|k: int, n: Seq<char>, p: Seq<char>, c: Seq<char>, t: Option<(usize, usize)>|
                #[trigger] self.root_file_at(k, n, p, c, t) ==> exists|j: int| 0 <= j < children_of(r).len() && #[trigger] tree_file(children_of(r)[j], n, p, c, t),
            idx > 0 ==> dirs_hold_files(r),
            r.node_type is Directory ==> dirs_hold_files_from(r, 0),
            tree_sorted(r),
            files_pass(r, self.staged_only, self.modified_only),
            leaves_from(r, self.lines@, self.table@),
            r.name@ == self.nodes@[idx as int].name@,
            r.full_path@ == self.nodes@[idx as int].full_path@,
            (r.node_type is Directory) == (self.nodes@[idx as int].file_status is None),
            self.nodes@[idx as int].file_status is None ==> children_of(r).len() == self.nodes@[idx as int].children.len(),
        decreases self.nodes.len() - idx,
    {
        let node = &self.nodes[idx];
        match &node.file_status {
            Some(status) => {
                let r = Node::new_file(
                    string_from(&node.name),
                    string_from(&node.full_path),
                    string_from(status),
                    node.stats,
                );
                assert(passes_filter(status@, self.staged_only, self.modified_only));
                assert(from_lines(node.name@, node.full_path@, status@, node.stats, self.lines@, self.table@));
                r
            },
            None => {
                let mut kids: Vec<Node> = Vec::new();
                let mut k: usize = 0;
                while k < node.children.len()
                    invariant
                        self.wf(),
                        idx < self.nodes.len(),
                        *node == self.nodes@[idx as int],
                        k <= node.children.len(),
                        kids.len() == k,
                        forall|j: int| 0 <= j < k ==> tree_sorted(#[trigger] kids@[j]) && files_pass(
                            kids@[j],
                            self.staged_only,
                            self.modified_only,
                        ) && leaves_from(kids@[j], self.lines@, self.table@) && dirs_hold_files(kids@[j])
                            && placed_in(kids@[j], self.base(idx as int)),
                        self.dirs_filled(),
                        self.placed(),
                        self.nodes@[idx as int].file_status is None,
                        forall|j: int| 0 <= j < k ==> #[trigger] self.kid_matches(idx as int, j, kids@[j]),
                        self.siblings_apart(),
                        forall|j: int| 0 <= j < k ==> names_unique(#[trigger] kids@[j]) && kids@[j].name@ == self.child_name(idx as int, j),
                    decreases node.children.len() - k,
                {
                    let c = node.children[k];
                    assert(idx < self.nodes@[idx as int].children@[k as int]);
                    let kid = self.freeze(c);
                    proof {
                        assert(self.entry_placed(idx as int, c as int));
                        assert(self.base(c as int) == self.nodes@[c as int].full_path@);
                    }
                    kids.push(kid);
                    assert(self.kid_matches(idx as int, k as int, kid));
                    assert(kid.name@ == self.child_name(idx as int, k as int));
                    k += 1;
                }
                let ghost before = kids@;
                let r = Node::new_dir(string_from(&node.name), string_from(&node.full_path), kids);
                proof {
                    let out = children_of(r);
                    assert forall|j: int| 0 <= j < out.len() implies tree_sorted(#[trigger] out[j]) && files_pass(
                        out[j],
                        self.staged_only,
                        self.modified_only,
                    ) && leaves_from(out[j], self.lines@, self.table@) && dirs_hold_files(out[j])
                        && placed_in(out[j], self.base(idx as int)) by {
                        lemma_multiset_member(out, before, j);
                    }
                    lemma_sorted_from(r, 0);
                    out.to_multiset_ensures();
                    before.to_multiset_ensures();
                    lemma_pass_from(r, 0, self.staged_only, self.modified_only);
                    lemma_leaves_from(r, 0, self.lines@, self.table@);
                    lemma_hold_from(r, 0);
                    lemma_kids_placed(r, 0, self.base(idx as int));
                    assert(crate::tree::names_apart(before)) by {
                        assert forall|a: int, b2: int| 0 <= a < b2 < before.len() implies (#[trigger] before[a]).name@ != (#[trigger] before[b2]).name@ by {
                            assert(self.child_name(idx as int, a) != self.child_name(idx as int, b2));
                        }
                    }
                    assert forall|j: int| 0 <= j < out.len() implies names_unique(#[trigger] out[j]) by {
                        lemma_multiset_member(out, before, j);
                    }
                    lemma_unique_from(r, 0);
                    if idx == 0 {
                        assert forall|k: int, n: Seq<char>, p: Seq<char>, c: Seq<char>, t: Option<(usize, usize)>|
                            #[trigger] self.root_file_at(k, n, p, c, t) implies exists|j: int|
                                0 <= j < children_of(r).len() && #[trigger] tree_file(children_of(r)[j], n, p, c, t) by {
                            assert(self.kid_matches(0, k, before[k]));
                            assert(tree_file(before[k], n, p, c, t));
                            lemma_multiset_member(before, out, k);
                        }
                    }
                    if idx > 0 {
                        assert(out.len() > 0);
                        lemma_hold_has(out[0]);
                        crate::tree::lemma_from_has(r, 0, 0);
                    }
                }
                r
            },
        }
    }
}

fn copy_chars(v: &Vec<char>) -> (r: Vec<char>)
    ensures
        r@ == v@,
{
    let mut out: Vec<char> = Vec::new();
    crate::text::extend_chars(&mut out, v);
    assert(out@ =~= v@);
    out
}

proof fn lemma_multiset_member(a: Seq<Node>, b: Seq<Node>, k: int)
    requires
        a.to_multiset() == b.to_multiset(),
        0 <= k < a.len(),
    ensures
        exists|j: int| 0 <= j < b.len() && b[j] == a[k],
{
    a.to_multiset_ensures();
    b.to_multiset_ensures();
    assert(a.contains(a[k]));
    assert(a.to_multiset().count(a[k]) > 0);
    assert(b.to_multiset().count(a[k]) > 0);
    assert(b.contains(a[k]));
}

proof fn lemma_sorted_from(n: Node, i: int)
    requires
        n.node_type is Directory,
        siblings_sorted(children_of(n)),
        forall|j: int| 0 <= j < children_of(n).len() ==> tree_sorted(#[trigger] children_of(n)[j]),
        0 <= i,
    ensures
        tree_sorted_from(n, i),
    decreases children_of(n).len() - i,
{
    if i < children_of(n).len() {
        lemma_sorted_from(n, i + 1);
    }
}

proof fn lemma_pass_from(n: Node, i: int, staged_only: bool, modified_only: bool)
    requires
        n.node_type is Directory,
        forall|j: int| 0 <= j < children_of(n).len() ==> files_pass(#[trigger] children_of(n)[j], staged_only, modified_only),
        0 <= i,
    ensures
        files_pass_from(n, i, staged_only, modified_only),
    decreases children_of(n).len() - i,
{
    if i < children_of(n).len() {
        lemma_pass_from(n, i + 1, staged_only, modified_only);
    }
}

/// Line `line` is a status record that the filters keep and that names at
/// least one path component.
pub open spec fn kept(line: Seq<char>, staged_only: bool, modified_only: bool) -> bool {
    let status = status_code(line[0], line[1]);
    &&& line.len() >= 4
    &&& passes_filter(status, staged_only, modified_only)
    &&& components(placement(line.subrange(3, line.len() as int), status).tree_path).len() > 0
}

proof fn lemma_component_nonempty(p: Seq<char>, k: int)
    requires
        0 <= k < components(p).len(),
    ensures
        components(p)[k].len() > 0,
{
    crate::status::lemma_nonempty_parts(crate::text::split_on(p, '/'));
}

proof fn lemma_unique_from(n: Node, i: int)
    requires
        n.node_type is Directory,
        forall|j: int| 0 <= j < children_of(n).len() ==> names_unique(#[trigger] children_of(n)[j]),
        0 <= i,
    ensures
        names_unique_from(n, i),
    decreases children_of(n).len() - i,
{
    if i < children_of(n).len() {
        lemma_unique_from(n, i + 1);
    }
}

proof fn lemma_kids_placed(n: Node, i: int, p: Seq<char>)
    requires
        n.node_type is Directory,
        forall|j: int| 0 <= j < children_of(n).len() ==> placed_in(#[trigger] children_of(n)[j], p),
        0 <= i,
    ensures
        kids_placed(n, i, p),
    decreases children_of(n).len() - i,
{
    if i < children_of(n).len() {
        lemma_kids_placed(n, i + 1, p);
    }
}

proof fn lemma_hold_from(n: Node, i: int)
    requires
        n.node_type is Directory,
        forall|j: int| 0 <= j < children_of(n).len() ==> dirs_hold_files(#[trigger] children_of(n)[j]),
        0 <= i,
    ensures
        dirs_hold_files_from(n, i),
    decreases children_of(n).len() - i,
{
    if i < children_of(n).len() {
        lemma_hold_from(n, i + 1);
    }
}

proof fn lemma_hold_has(n: Node)
    requires
        dirs_hold_files(n),
    ensures
        has_files(n),
{
}

proof fn lemma_leaves_from(n: Node, i: int, lines: Seq<Seq<char>>, stats: Seq<StatEntry>)
    requires
        n.node_type is Directory,
        forall|j: int| 0 <= j < children_of(n).len() ==> leaves_from(#[trigger] children_of(n)[j], lines, stats),
        0 <= i,
    ensures
        leaves_from_from(n, i, lines, stats),
    decreases children_of(n).len() - i,
{
    if i < children_of(n).len() {
        lemma_leaves_from(n, i + 1, lines, stats);
    }
}

/// Where the record on line `line` goes and how it is named.
pub open spec fn rec_place(line: Seq<char>) -> crate::status::Placement {
    placement(line.subrange(3, line.len() as int), status_code(line[0], line[1]))
}

/// Record `t` is kept, names a file directly in the root, and no other kept
/// record takes its name there (as a file or as a first directory).
pub open spec fn lone(recs: Seq<Seq<char>>, t: int, staged_only: bool, modified_only: bool) -> bool {
    &&& kept(recs[t], staged_only, modified_only)
    &&& components(rec_place(recs[t]).tree_path).len() == 1
    &&& forall|j: int|
        0 <= j < recs.len() && j != t && #[trigger] kept(recs[j], staged_only, modified_only) ==> rec_place(recs[j]).display_name
            != rec_place(recs[t]).display_name && components(rec_place(recs[j]).tree_path)[0] != rec_place(
            recs[t],
        ).display_name
}

/// `n` is a file with these fields.
pub open spec fn tree_file(n: Node, name: Seq<char>, path: Seq<char>, status: Seq<char>, st: Option<(usize, usize)>) -> bool {
    match n.node_type {
        NodeType::File { status: s, stats } => n.name@ == name && n.full_path@ == path && s@ == status && stats == st,
        NodeType::Directory { .. } => false,
    }
}

/// `n` is the file that line `line` describes.
pub open spec fn file_of_line(n: Node, line: Seq<char>, stats: Seq<StatEntry>) -> bool {
    match n.node_type {
        NodeType::File { status, stats: st } => leaf_from_line(n.name@, n.full_path@, status@, st, line, stats),
        NodeType::Directory { .. } => false,
    }
}

/// What `build_tree` promises of a tree built from records `recs` with
/// statistics `stats` under the given filters.
pub open spec fn build_outcome(t: Node, recs: Seq<Seq<char>>, stats: Seq<StatEntry>, staged_only: bool, modified_only: bool) -> bool {
    &&& t.name@ == seq!['.']
    &&& t.full_path@ == seq!['.']
    &&& t.node_type is Directory
    &&& tree_sorted(t)
    &&& files_pass(t, staged_only, modified_only)
    &&& leaves_from(t, recs, stats)
    &&& dirs_hold_files_from(t, 0)
    &&& kids_placed(t, 0, Seq::empty())
    &&& names_unique(t)
    &&& forall|i: int| 0 <= i < recs.len() && #[trigger] lone(recs, i, staged_only, modified_only) ==> exists|j: int|
        0 <= j < children_of(t).len() && file_of_line(#[trigger] children_of(t)[j], recs[i], stats)
    &&& (exists|i: int| 0 <= i < recs.len() && kept(#[trigger] recs[i], staged_only, modified_only)) ==> children_of(t).len() > 0
    &&& !(exists|i: int| 0 <= i < recs.len() && kept(#[trigger] recs[i], staged_only, modified_only)) ==> children_of(t).len() == 0
}

/// Builds the status tree from status lines.
///
/// Malformed lines (shorter than four characters, or naming no path
/// component) are skipped. With `staged_only` only staged records are kept;
/// with `modified_only` untracked ones are dropped. The root is the
/// directory `.`; every directory's children are in sibling order and have
/// distinct names; every directory below the root holds a file, is named by
/// a path component and has its parent's path joined with that name; every
/// file comes from a kept line, in the directory its path names, with the
/// line's display name, code and statistics. A kept record that names a
/// file directly in the root and whose name no other kept record takes
/// there is always present. A record whose path passes through a file is
/// dropped, as nothing below a file is shown.
pub fn build_tree(lines: Vec<String>, stats: &Vec<StatEntry>, staged_only: bool, modified_only: bool) -> (r: Node)
    ensures
        r.name@ == seq!['.'],
        r.full_path@ == seq!['.'],
        r.node_type is Directory,
        tree_sorted(r),
        files_pass(r, staged_only, modified_only),
        (exists|i: int| 0 <= i < lines@.len() && kept(#[trigger] lines@[i]@, staged_only, modified_only))
            ==> children_of(r).len() > 0,
        leaves_from(r, views(lines@), stats@),
        dirs_hold_files_from(r, 0),
        kids_placed(r, 0, Seq::empty()),
        !(exists|i: int| 0 <= i < lines@.len() && kept(#[trigger] lines@[i]@, staged_only, modified_only))
            ==> children_of(r).len() == 0,
        build_outcome(r, views(lines@), stats@, staged_only, modified_only),
{
    let mut b = TreeBuilder::new(staged_only, modified_only, Ghost(views(lines@)), Ghost(stats@));
    let mut i: usize = 0;
    while i < lines.len()
        invariant
            b.wf(),
            b.staged_only == staged_only,
            b.modified_only == modified_only,
            b.lines@ == views(lines@),
            b.table@ == stats@,
            b.nodes@[0].name@ == seq!['.'],
            b.nodes@[0].full_path@ == seq!['.'],
            b.nodes@[0].file_status is None,
            i <= lines.len(),
            (exists|j: int| 0 <= j < i && kept(#[trigger] lines@[j]@, staged_only, modified_only))
                ==> b.nodes@[0].children.len() > 0,
            !(exists|j: int| 0 <= j < i && kept(#[trigger] lines@[j]@, staged_only, modified_only))
                ==> b.nodes@[0].children.len() == 0,
            b.dirs_filled(),
            b.placed(),
            b.siblings_apart(),
            forall|t: int| 0 <= t < i && #[trigger] lone(views(lines@), t, staged_only, modified_only) ==> exists|k: int|
                #[trigger] b.root_file_at(k, rec_place(views(lines@)[t]).display_name, rec_place(views(lines@)[t]).tree_path,
                    status_code(views(lines@)[t][0], views(lines@)[t][1]), stat_lookup(stats@, rec_place(views(lines@)[t]).stats_key)),
        decreases lines.len() - i,
    {
        let ghost recs = views(lines@);
        let ghost pre = b;
        proof {
            assert(recs[i as int] == lines@[i as int]@);
        }
        match parse_status_line(lines[i].as_str()) {
            Some((path_text, status_text)) => {
                let status = chars_of(status_text.as_str());
                let keep = (!staged_only || code_is_staged(&status)) && (!modified_only
                    || !code_is_untracked(&status));
                if keep {
                    let path = chars_of(path_text.as_str());
                    let (tree_path, name, key) = place_record(&path, &status);
                    let file_stats = find_stats(stats, &key);
                    let comps = path_components(&tree_path);
                    if comps.len() > 0 {
                        proof {
                            assert(views(lines@)[i as int] == lines@[i as int]@);
                            assert(leaf_from_line(name@, tree_path@, status@, file_stats, views(lines@)[i as int], stats@));
                        }
                        let ghost lname = name@;
                        let ghost c0 = comps@[0]@;
                        b.insert_file(&comps, tree_path, name, status, file_stats);
                        proof {
                            assert(kept(recs[i as int], staged_only, modified_only));
                            assert(lname == rec_place(recs[i as int]).display_name);
                            assert(c0 == components(rec_place(recs[i as int]).tree_path)[0]);
                            assert forall|t: int| 0 <= t < i + 1 && #[trigger] lone(recs, t, staged_only, modified_only) implies exists|k: int|
                                #[trigger] b.root_file_at(k, rec_place(recs[t]).display_name, rec_place(recs[t]).tree_path,
                                    status_code(recs[t][0], recs[t][1]), stat_lookup(stats@, rec_place(recs[t]).stats_key)) by {
                                if t < i {
                                    let k = choose|k: int| #[trigger] pre.root_file_at(k, rec_place(recs[t]).display_name, rec_place(recs[t]).tree_path,
                                        status_code(recs[t][0], recs[t][1]), stat_lookup(stats@, rec_place(recs[t]).stats_key));
                                    assert(kept(recs[i as int], staged_only, modified_only));
                                    assert(b.root_file_at(k, rec_place(recs[t]).display_name, rec_place(recs[t]).tree_path,
                                        status_code(recs[t][0], recs[t][1]), stat_lookup(stats@, rec_place(recs[t]).stats_key)));
                                }
                            }
                        }
                    } else {
                        assert(!kept(lines@[i as int]@, staged_only, modified_only));
                    }
                } else {
                    assert(!kept(lines@[i as int]@, staged_only, modified_only));
                }
            },
            None => {
                assert(!kept(lines@[i as int]@, staged_only, modified_only));
            },
        }
        i += 1;
    }
    let r = b.freeze(0);
    proof {
        let recs = views(lines@);
        assert forall|t: int| 0 <= t < recs.len() && #[trigger] lone(recs, t, staged_only, modified_only) implies exists|j: int|
            0 <= j < children_of(r).len() && file_of_line(#[trigger] children_of(r)[j], recs[t], stats@) by {
            let pl = rec_place(recs[t]);
            let k = choose|k: int| #[trigger] b.root_file_at(k, pl.display_name, pl.tree_path, status_code(recs[t][0], recs[t][1]), stat_lookup(stats@, pl.stats_key));
            let j = choose|j: int| 0 <= j < children_of(r).len() && #[trigger] tree_file(children_of(r)[j], pl.display_name, pl.tree_path,
                status_code(recs[t][0], recs[t][1]), stat_lookup(stats@, pl.stats_key));
            assert(file_of_line(children_of(r)[j], recs[t], stats@));
        }
        if exists|i: int| 0 <= i < recs.len() && kept(#[trigger] recs[i], staged_only, modified_only) {
            let i = choose|i: int| 0 <= i < recs.len() && kept(#[trigger] recs[i], staged_only, modified_only);
            assert(recs[i] == lines@[i]@);
            assert(kept(lines@[i]@, staged_only, modified_only));
        }
        if exists|i: int| 0 <= i < lines@.len() && kept(#[trigger] lines@[i]@, staged_only, modified_only) {
            let i = choose|i: int| 0 <= i < lines@.len() && kept(#[trigger] lines@[i]@, staged_only, modified_only);
            assert(recs[i] == lines@[i]@);
            assert(kept(recs[i], staged_only, modified_only));
        }
    }
    r
}

} // verus!

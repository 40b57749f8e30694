use vstd::multiset::Multiset;
use vstd::prelude::*;

use crate::status::is_staged;
use crate::text::chars_of;

verus! {

broadcast use vstd::std_specs::vec::group_vec_axioms;

/// What a tree node is: a changed file or a directory of further nodes.
#[derive(Debug)]
pub enum NodeType {
    File { status: String, stats: Option<(usize, usize)> },
    Directory { children: Vec<Node> },
}

/// One node of the status tree.
#[derive(Debug)]
pub struct Node {
    pub name: String,
    pub full_path: String,
    pub node_type: NodeType,
}

pub open spec fn is_dir(n: Node) -> bool {
    n.node_type is Directory
}

/// The children of a directory; empty for a file.
pub open spec fn children_of(n: Node) -> Seq<Node> {
    match n.node_type {
        NodeType::Directory { children } => children@,
        NodeType::File { .. } => Seq::empty(),
    }
}

/// Some file lies below `n` (or `n` is one).
pub open spec fn has_files(n: Node) -> bool
    decreases n, 1int, 0int,
{
    match n.node_type {
        NodeType::File { .. } => true,
        NodeType::Directory { .. } => has_files_from(n, 0),
    }
}

/// Some file lies below one of the children of `n` from the `i`-th on.
pub open spec fn has_files_from(n: Node, i: int) -> bool
    decreases n, 0int, children_of(n).len() - i,
{
    match n.node_type {
        NodeType::File { .. } => false,
        NodeType::Directory { children } => if 0 <= i < children.len() {
            has_files(children@[i]) || has_files_from(n, i + 1)
        } else {
            false
        },
    }
}

/// Every file below `n` (or `n` itself) is staged.
pub open spec fn all_staged(n: Node) -> bool
    decreases n, 1int, 0int,
{
    match n.node_type {
        NodeType::File { status, .. } => is_staged(status@),
        NodeType::Directory { .. } => all_staged_from(n, 0),
    }
}

/// Every file below the children of `n` from the `i`-th on is staged.
pub open spec fn all_staged_from(n: Node, i: int) -> bool
    decreases n, 0int, children_of(n).len() - i,
{
    match n.node_type {
        NodeType::File { .. } => true,
        NodeType::Directory { children } => if 0 <= i < children.len() {
            all_staged(children@[i]) && all_staged_from(n, i + 1)
        } else {
            true
        },
    }
}

/// The status shown for a node: a file's own code; for a directory `M+`
/// when every file below it is staged, `M` when one is not, and nothing when
/// no file lies below it.
pub open spec fn aggregate_status(n: Node) -> Seq<char> {
    match n.node_type {
        NodeType::File { status, .. } => status@,
        NodeType::Directory { .. } => if !has_files(n) {
            Seq::empty()
        } else if all_staged(n) {
            seq!['M', '+']
        } else {
            seq!['M']
        },
    }
}

/// The status class of a node: `+` staged, `?` untracked, `M` other
/// change, blank for a directory.
pub open spec fn status_class(n: Node) -> char {
    match n.node_type {
        NodeType::File { status, .. } => if status@.contains('+') {
            '+'
        } else if status@.contains('?') {
            '?'
        } else {
            'M'
        },
        NodeType::Directory { .. } => ' ',
    }
}

/// `a` comes before `b` in code-point order.
pub open spec fn lex_lt(a: Seq<char>, b: Seq<char>) -> bool
    decreases a.len(),
{
    if a.len() == 0 {
        b.len() > 0
    } else if b.len() == 0 {
        false
    } else if a[0] != b[0] {
        (a[0] as u32) < (b[0] as u32)
    } else {
        lex_lt(a.drop_first(), b.drop_first())
    }
}

/// Sibling order: directories first, then by name.
pub open spec fn node_lt(a: Node, b: Node) -> bool {
    if is_dir(a) != is_dir(b) {
        is_dir(a)
    } else {
        lex_lt(a.name@, b.name@)
    }
}

/// Siblings stand in order.
pub open spec fn siblings_sorted(c: Seq<Node>) -> bool {
    forall|i: int| 0 <= i < c.len() - 1 ==> !node_lt(#[trigger] c[i + 1], c[i])
}

/// The children of every directory in the tree stand in order.
pub open spec fn tree_sorted(n: Node) -> bool
    decreases n, 1int, 0int,
{
    match n.node_type {
        NodeType::File { .. } => true,
        NodeType::Directory { children } => siblings_sorted(children@) && tree_sorted_from(n, 0),
    }
}

/// The subtrees of the children of `n` from the `i`-th on are in order.
pub open spec fn tree_sorted_from(n: Node, i: int) -> bool
    decreases n, 0int, children_of(n).len() - i,
{
    match n.node_type {
        NodeType::File { .. } => true,
        NodeType::Directory { children } => if 0 <= i < children.len() {
            tree_sorted(children@[i]) && tree_sorted_from(n, i + 1)
        } else {
            true
        },
    }
}

pub(crate) proof fn lemma_child_decreases(n: Node, i: int)
    requires
        0 <= i < children_of(n).len(),
    ensures
        decreases_to!(n => children_of(n)[i]),
{
    match n.node_type {
        NodeType::Directory { children } => {
            assert(decreases_to!(n => n.node_type));
            assert(decreases_to!(n.node_type => children));
            assert(decreases_to!(children => children@));
            assert(decreases_to!(children@ => children@[i]));
        },
        NodeType::File { .. } => {},
    }
}

proof fn lemma_lex_asym(a: Seq<char>, b: Seq<char>)
    requires
        lex_lt(a, b),
    ensures
        !lex_lt(b, a),
    decreases a.len(),
{
    if a.len() > 0 && b.len() > 0 && a[0] == b[0] {
        lemma_lex_asym(a.drop_first(), b.drop_first());
    }
}

proof fn lemma_node_asym(a: Node, b: Node)
    requires
        node_lt(a, b),
    ensures
        !node_lt(b, a),
{
    if is_dir(a) == is_dir(b) {
        lemma_lex_asym(a.name@, b.name@);
    }
}

fn lex_less(a: &Vec<char>, b: &Vec<char>) -> (r: bool)
    ensures
        r == lex_lt(a@, b@),
{
    let mut i: usize = 0;
    assert(a@.subrange(0, a.len() as int) =~= a@);
    assert(b@.subrange(0, b.len() as int) =~= b@);
    while i < a.len() && i < b.len() && a[i] == b[i]
        invariant
            i <= a.len(),
            i <= b.len(),
            lex_lt(a@, b@) == lex_lt(a@.subrange(i as int, a.len() as int), b@.subrange(i as int, b.len() as int)),
        decreases a.len() - i,
    {
        assert(a@.subrange(i as int, a.len() as int).drop_first() =~= a@.subrange(i + 1, a.len() as int));
        assert(b@.subrange(i as int, b.len() as int).drop_first() =~= b@.subrange(i + 1, b.len() as int));
        i += 1;
    }
    assert(a@.subrange(0, a.len() as int) =~= a@);
    assert(b@.subrange(0, b.len() as int) =~= b@);
    if i == a.len() {
        i < b.len()
    } else if i == b.len() {
        false
    } else {
        (a[i] as u32) < (b[i] as u32)
    }
}

impl Node {
    /// A file node.
    pub fn new_file(name: String, full_path: String, status: String, stats: Option<(usize, usize)>) -> (r: Node)
        ensures
            r.name@ == name@,
            r.full_path@ == full_path@,
            r.node_type matches NodeType::File { status: s, stats: t } && s@ == status@ && t == stats,
    {
        Node { name, full_path, node_type: NodeType::File { status, stats } }
    }

    /// A directory node; its children are put in sibling order.
    pub fn new_dir(name: String, full_path: String, children: Vec<Node>) -> (r: Node)
        ensures
            r.name@ == name@,
            r.full_path@ == full_path@,
            r.node_type is Directory,
            siblings_sorted(children_of(r)),
            children_of(r).to_multiset() == children@.to_multiset(),
            names_apart(children@) ==> names_apart(children_of(r)),
    {
        let sorted = sort_nodes(children);
        Node { name, full_path, node_type: NodeType::Directory { children: sorted } }
    }

    pub fn is_dir(&self) -> (r: bool)
        ensures
            r == is_dir(*self),
    {
        match self.node_type {
            NodeType::Directory { .. } => true,
            NodeType::File { .. } => false,
        }
    }

    pub fn is_file(&self) -> (r: bool)
        ensures
            r == !is_dir(*self),
    {
        !self.is_dir()
    }

    /// Whether this node comes before `other` among siblings.
    pub fn sorts_before(&self, other: &Node) -> (r: bool)
        ensures
            r == node_lt(*self, *other),
    {
        if self.is_dir() != other.is_dir() {
            self.is_dir()
        } else {
            let a = chars_of(self.name.as_str());
            let b = chars_of(other.name.as_str());
            lex_less(&a, &b)
        }
    }

    /// Whether some file lies below, and whether every file below is staged.
    fn summary(&self) -> (r: (bool, bool))
        ensures
            r.0 == has_files(*self),
            r.1 == all_staged(*self),
        decreases self,
    {
        match &self.node_type {
            NodeType::File { status, .. } => {
                let s = chars_of(status.as_str());
                let st = crate::status::code_is_staged(&s);
                assert(st == all_staged(*self));
                assert(has_files(*self));
                (true, st)
            },
            NodeType::Directory { children } => {
                let mut any = false;
                let mut all = true;
                let mut i: usize = 0;
                while i < children.len()
                    invariant
                        self.node_type is Directory,
                        self.node_type->children == *children,
                        i <= children.len(),
                        has_files(*self) == (any || has_files_from(*self, i as int)),
                        all_staged(*self) == (all && all_staged_from(*self, i as int)),
                    decreases children.len() - i,
                {
                    proof {
                        lemma_child_decreases(*self, i as int);
                    }
                    let (h, a) = children[i].summary();
                    any = any || h;
                    all = all && a;
                    i += 1;
                }
                (any, all)
            },
        }
    }

    /// The status code shown for this node.
    pub fn get_raw_status(&self) -> (r: String)
        ensures
            r@ == aggregate_status(*self),
    {
        match &self.node_type {
            NodeType::File { status, .. } => status.clone(),
            NodeType::Directory { .. } => {
                let (h, a) = self.summary();
                let mut r = String::new();
                if h {
                    crate::text::push_char(&mut r, 'M');
                    if a {
                        crate::text::push_char(&mut r, '+');
                    }
                }
                assert(r@ =~= aggregate_status(*self));
                r
            },
        }
    }

    /// The status class character of this node.
    pub fn get_status_char(&self) -> (r: char)
        ensures
            r == status_class(*self),
    {
        match &self.node_type {
            NodeType::File { status, .. } => {
                let s = chars_of(status.as_str());
                if crate::status::code_has(&s, '+') {
                    '+'
                } else if crate::status::code_has(&s, '?') {
                    '?'
                } else {
                    'M'
                }
            },
            NodeType::Directory { .. } => ' ',
        }
    }

    /// The line statistics of a file; `None` for a directory.
    pub fn get_stats(&self) -> (r: Option<(usize, usize)>)
        ensures
            r == match self.node_type {
                NodeType::File { stats, .. } => stats,
                NodeType::Directory { .. } => None,
            },
    {
        match &self.node_type {
            NodeType::File { stats, .. } => *stats,
            NodeType::Directory { .. } => None,
        }
    }
}

/// Puts nodes in sibling order.
/// No two of the nodes share a name.
pub open spec fn names_apart(c: Seq<Node>) -> bool {
    forall|a: int, b: int| 0 <= a < b < c.len() ==> (#[trigger] c[a]).name@ != (#[trigger] c[b]).name@
}

fn sort_nodes(nodes: Vec<Node>) -> (r: Vec<Node>)
    ensures
        siblings_sorted(r@),
        r@.to_multiset() == nodes@.to_multiset(),
        names_apart(nodes@) ==> names_apart(r@),
{
    broadcast use vstd::seq_lib::group_to_multiset_ensures;

    let mut rest = nodes;
    let mut out: Vec<Node> = Vec::new();
    while rest.len() > 0
        invariant
            siblings_sorted(out@),
            out@.to_multiset().add(rest@.to_multiset()) == nodes@.to_multiset(),
            names_apart(nodes@) ==> names_apart(out@) && names_apart(rest@) && forall|a: int, b: int|
                0 <= a < out@.len() && 0 <= b < rest@.len() ==> (#[trigger] out@[a]).name@ != (#[trigger] rest@[b]).name@,
        decreases rest.len(),
    {
        let ghost before_rest = rest@;
        let x = rest.pop().unwrap();
        proof {
            assert(before_rest =~= rest@.push(x));
            if names_apart(nodes@) {
                assert forall|b: int| 0 <= b < rest@.len() implies (#[trigger] rest@[b]).name@ != x.name@ by {
                    assert(before_rest[b] == rest@[b]);
                    assert(before_rest[rest@.len() as int] == x);
                }
                assert forall|a: int| 0 <= a < out@.len() implies (#[trigger] out@[a]).name@ != x.name@ by {
                    assert(before_rest[rest@.len() as int] == x);
                }
                assert forall|a: int, b: int| 0 <= a < b < rest@.len() implies (#[trigger] rest@[a]).name@ != (#[trigger] rest@[b]).name@ by {
                    assert(before_rest[a] == rest@[a] && before_rest[b] == rest@[b]);
                }
                assert forall|a: int, b: int| 0 <= a < out@.len() && 0 <= b < rest@.len() implies (#[trigger] out@[a]).name@ != (#[trigger] rest@[b]).name@ by {
                    assert(before_rest[b] == rest@[b]);
                }
            }
        }
        let mut p: usize = 0;
        while p < out.len() && !x.sorts_before(&out[p])
            invariant
                p <= out.len(),
                siblings_sorted(out@),
                forall|j: int| 0 <= j < p ==> !node_lt(x, #[trigger] out@[j]),
                names_apart(nodes@) ==> forall|a: int| 0 <= a < out@.len() ==> (#[trigger] out@[a]).name@ != x.name@,
            decreases out.len() - p,
        {
            p += 1;
        }
        let ghost old_out = out@;
        out.insert(p, x);
        proof {
            assert(out@ == old_out.insert(p as int, x));
            old_out.insert_ensures(p as int, x);
            assert forall|i: int| 0 <= i < out@.len() - 1 implies !node_lt(#[trigger] out@[i + 1], out@[i]) by {
                if i + 1 < p {
                    assert(out@[i] == old_out[i] && out@[i + 1] == old_out[i + 1]);
                } else if i + 1 == p {
                    assert(out@[i + 1] == x && out@[i] == old_out[i]);
                } else if i == p {
                    assert(out@[i] == x && out@[i + 1] == old_out[i]);
                    lemma_node_asym(x, old_out[i]);
                } else {
                    assert(out@[i] == old_out[i - 1] && out@[i + 1] == old_out[i]);
                }
            }
            assert(out@.remove(p as int) =~= old_out);
            out@.to_multiset_ensures();
            assert(out@.to_multiset().remove(x) =~= old_out.to_multiset());
            assert(out@.to_multiset().count(x) > 0) by {
                assert(out@[p as int] == x);
                assert(out@.contains(x));
            }
            assert(out@.to_multiset() =~= old_out.to_multiset().insert(x));
            rest@.to_multiset_ensures();
            assert(rest@.push(x).to_multiset() =~= rest@.to_multiset().insert(x));
            if names_apart(nodes@) {
                assert forall|a: int, b: int| 0 <= a < b < out@.len() implies (#[trigger] out@[a]).name@ != (#[trigger] out@[b]).name@ by {
                    if b < p {
                        assert(out@[a] == old_out[a] && out@[b] == old_out[b]);
                    } else if b == p {
                        assert(out@[a] == old_out[a] && out@[b] == x);
                    } else if a < p {
                        assert(out@[a] == old_out[a] && out@[b] == old_out[b - 1]);
                    } else if a == p {
                        assert(out@[a] == x && out@[b] == old_out[b - 1]);
                    } else {
                        assert(out@[a] == old_out[a - 1] && out@[b] == old_out[b - 1]);
                    }
                }
                assert forall|a: int, b: int| 0 <= a < out@.len() && 0 <= b < rest@.len() implies (#[trigger] out@[a]).name@ != (#[trigger] rest@[b]).name@ by {
                    if a < p {
                        assert(out@[a] == old_out[a]);
                    } else if a == p {
                        assert(out@[a] == x);
                    } else {
                        assert(out@[a] == old_out[a - 1]);
                    }
                }
            }
        }
    }
    proof {
        assert(rest@.to_multiset() =~= Multiset::empty());
    }
    out
}

/// The full paths of the directories of the tree, the canonical root `.`
/// and an empty path left out.
pub open spec fn dir_paths_of(n: Node) -> Set<Seq<char>>
    decreases n, 1int, 0int,
{
    match n.node_type {
        NodeType::File { .. } => Set::empty(),
        NodeType::Directory { .. } => {
            let own = if n.full_path@.len() > 0 && n.full_path@ != seq!['.'] {
                set![n.full_path@]
            } else {
                Set::empty()
            };
            own.union(dir_paths_from(n, 0))
        },
    }
}

/// The directory paths below the children of `n` from the `i`-th on.
pub open spec fn dir_paths_from(n: Node, i: int) -> Set<Seq<char>>
    decreases n, 0int, children_of(n).len() - i,
{
    match n.node_type {
        NodeType::Directory { children } => if 0 <= i < children.len() {
            dir_paths_of(children@[i]).union(dir_paths_from(n, i + 1))
        } else {
            Set::empty()
        },
        NodeType::File { .. } => Set::empty(),
    }
}

impl Node {
    /// Adds the full path of every directory of the tree to `paths`, except
    /// the root `.` and an empty path.
    pub fn get_all_dir_paths(&self, paths: &mut Vec<String>)
        ensures
            crate::actions::path_set(final(paths)@) == crate::actions::path_set(old(paths)@).union(dir_paths_of(*self)),
        decreases self,
    {
        match &self.node_type {
            NodeType::File { .. } => {
                assert(crate::actions::path_set(paths@) =~= crate::actions::path_set(old(paths)@).union(dir_paths_of(*self)));
            },
            NodeType::Directory { children } => {
                let p = chars_of(self.full_path.as_str());
                let is_root = p.len() == 1 && p[0] == '.';
                assert(is_root == (self.full_path@ == seq!['.'])) by {
                    if p@.len() == 1 && p@[0] == '.' {
                        assert(p@ =~= seq!['.']);
                    }
                }
                if p.len() > 0 && !is_root && !crate::flatten::holds_path(paths, &self.full_path) {
                    let ghost before = paths@;
                    paths.push(self.full_path.clone());
                    proof {
                        crate::actions::lemma_path_set_push(before, paths@[before.len() as int]);
                    }
                }
                let ghost own = if self.full_path@.len() > 0 && self.full_path@ != seq!['.'] {
                    set![self.full_path@]
                } else {
                    Set::empty()
                };
                assert(crate::actions::path_set(paths@) =~= crate::actions::path_set(old(paths)@).union(own));
                let mut i: usize = 0;
                while i < children.len()
                    invariant
                        self.node_type is Directory,
                        self.node_type->children == *children,
                        i <= children.len(),
                        crate::actions::path_set(paths@).union(dir_paths_from(*self, i as int))
                            == crate::actions::path_set(old(paths)@).union(dir_paths_of(*self)),
                    decreases children.len() - i,
                {
                    proof {
                        lemma_child_decreases(*self, i as int);
                    }
                    let ghost mid = paths@;
                    children[i].get_all_dir_paths(paths);
                    assert(crate::actions::path_set(paths@).union(dir_paths_from(*self, i + 1))
                        =~= crate::actions::path_set(mid).union(dir_paths_from(*self, i as int)));
                    i += 1;
                }
                assert(dir_paths_from(*self, children.len() as int) =~= Set::empty());
                assert(crate::actions::path_set(paths@) =~= crate::actions::path_set(paths@).union(Set::<Seq<char>>::empty()));
            },
        }
    }
}

/// A directory's status is `M+` exactly when it holds files and every file
/// below it is staged; one unstaged file anywhere below makes it `M`, and so
/// every directory on the way down to that file.
pub proof fn lemma_unstaged_descendant(n: Node, path: Seq<int>)
    requires
        is_dir(n),
        reaches(n, path),
        !all_staged(at_path(n, path)),
    ensures
        aggregate_status(n) == seq!['M'],
        forall|k: int| 0 <= k <= path.len() && is_dir(#[trigger] at_path(n, path.subrange(0, k)))
            ==> aggregate_status(at_path(n, path.subrange(0, k))) == seq!['M'],
    decreases path.len(),
{
    lemma_unstaged_up(n, path);
    lemma_has_files_up(n, path);
    assert forall|k: int| 0 <= k <= path.len() && is_dir(#[trigger] at_path(n, path.subrange(0, k)))
        implies aggregate_status(at_path(n, path.subrange(0, k))) == seq!['M'] by {
        lemma_split_path(n, path, k);
        let m = at_path(n, path.subrange(0, k));
        let rest = path.subrange(k, path.len() as int);
        lemma_unstaged_up(m, rest);
        lemma_has_files_up(m, rest);
    }
    assert(path.subrange(0, 0) =~= Seq::<int>::empty());
}

/// Following child indices `path` from `n` stays within the tree.
pub open spec fn reaches(n: Node, path: Seq<int>) -> bool
    decreases path.len(),
{
    if path.len() == 0 {
        true
    } else {
        0 <= path[0] < children_of(n).len() && reaches(children_of(n)[path[0]], path.drop_first())
    }
}

/// The node reached by following child indices `path` from `n`.
pub open spec fn at_path(n: Node, path: Seq<int>) -> Node
    decreases path.len(),
{
    if path.len() == 0 || !(0 <= path[0] < children_of(n).len()) {
        n
    } else {
        at_path(children_of(n)[path[0]], path.drop_first())
    }
}

proof fn lemma_from_all(n: Node, i: int, j: int)
    requires
        is_dir(n),
        0 <= i <= j < children_of(n).len(),
        !all_staged(children_of(n)[j]),
    ensures
        !all_staged_from(n, i),
    decreases j - i,
{
    if i < j {
        lemma_from_all(n, i + 1, j);
    }
}

pub(crate) proof fn lemma_from_has(n: Node, i: int, j: int)
    requires
        is_dir(n),
        0 <= i <= j < children_of(n).len(),
        has_files(children_of(n)[j]),
    ensures
        has_files_from(n, i),
    decreases j - i,
{
    if i < j {
        lemma_from_has(n, i + 1, j);
    }
}

proof fn lemma_unstaged_up(n: Node, path: Seq<int>)
    requires
        reaches(n, path),
        !all_staged(at_path(n, path)),
    ensures
        !all_staged(n),
    decreases path.len(),
{
    if path.len() > 0 {
        let c = children_of(n)[path[0]];
        lemma_unstaged_up(c, path.drop_first());
        lemma_from_all(n, 0, path[0]);
    }
}

proof fn lemma_unstaged_has_files(n: Node)
    requires
        !all_staged(n),
    ensures
        has_files(n),
    decreases n, 1int, 0int,
{
    match n.node_type {
        NodeType::File { .. } => {},
        NodeType::Directory { .. } => {
            lemma_unstaged_has_files_from(n, 0);
        },
    }
}

proof fn lemma_unstaged_has_files_from(n: Node, i: int)
    requires
        is_dir(n),
        !all_staged_from(n, i),
        0 <= i,
    ensures
        has_files_from(n, i),
    decreases n, 0int, children_of(n).len() - i,
{
    if i < children_of(n).len() {
        lemma_child_decreases(n, i);
        if !all_staged(children_of(n)[i]) {
            lemma_unstaged_has_files(children_of(n)[i]);
        } else {
            lemma_unstaged_has_files_from(n, i + 1);
        }
    }
}

proof fn lemma_has_files_up(n: Node, path: Seq<int>)
    requires
        reaches(n, path),
        !all_staged(at_path(n, path)),
    ensures
        has_files(n),
{
    lemma_unstaged_up(n, path);
    lemma_unstaged_has_files(n);
}

proof fn lemma_split_path(n: Node, path: Seq<int>, k: int)
    requires
        reaches(n, path),
        0 <= k <= path.len(),
    ensures
        reaches(at_path(n, path.subrange(0, k)), path.subrange(k, path.len() as int)),
        at_path(at_path(n, path.subrange(0, k)), path.subrange(k, path.len() as int)) == at_path(n, path),
    decreases k,
{
    if k > 0 {
        let c = children_of(n)[path[0]];
        lemma_split_path(c, path.drop_first(), k - 1);
        assert(path.subrange(0, k).drop_first() =~= path.drop_first().subrange(0, k - 1));
        assert(path.drop_first().subrange(k - 1, path.len() - 1) =~= path.subrange(k, path.len() as int));
    } else {
        assert(path.subrange(0, 0) =~= Seq::<int>::empty());
        assert(path.subrange(0, path.len() as int) =~= path);
    }
}

} // verus!

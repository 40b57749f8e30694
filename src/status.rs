use vstd::prelude::*;

use crate::text::{
    char_views, extend_chars, chars_of, contains_seq, find_from, occurs_at, push_char, split_chars,
    split_on, string_of,
};

verus! {

/// The normalized status code of a record whose index letter is `x` and
/// whose worktree letter is `y`.
pub open spec fn status_code(x: char, y: char) -> Seq<char> {
    if x == '?' && y == '?' {
        seq!['?', '?']
    } else if y == ' ' {
        seq![x, '+']
    } else {
        seq![y]
    }
}

/// A staged change: the code ends in `+`.
pub open spec fn is_staged(s: Seq<char>) -> bool {
    s.len() > 0 && s.last() == '+'
}

/// The untracked sentinel `??`.
pub open spec fn is_untracked(s: Seq<char>) -> bool {
    s == seq!['?', '?']
}

/// Whether a record with this status survives the active filters.
pub open spec fn passes_filter(status: Seq<char>, staged_only: bool, modified_only: bool) -> bool {
    (!staged_only || is_staged(status)) && (!modified_only || !is_untracked(status))
}

/// Splits one status line into its path text and its normalized status code.
/// Lines shorter than four characters give `None`.
pub fn parse_status_line(line: &str) -> (r: Option<(String, String)>)
    ensures
        r.is_none() <==> line@.len() < 4,
        r matches Some((path, status)) ==> {
            &&& path@ == line@.subrange(3, line@.len() as int)
            &&& status@ == status_code(line@[0], line@[1])
        },
{
    let v = chars_of(line);
    if v.len() < 4 {
        return None;
    }
    let x = v[0];
    let y = v[1];
    let mut status = String::new();
    if x == '?' && y == '?' {
        push_char(&mut status, '?');
        push_char(&mut status, '?');
    } else if y == ' ' {
        push_char(&mut status, x);
        push_char(&mut status, '+');
    } else {
        push_char(&mut status, y);
    }
    assert(status@ =~= status_code(line@[0], line@[1]));
    let rest = string_of(&v, 3, v.len());
    Some((rest, status))
}

/// Whether the status code holds `c`.
pub fn code_has(status: &Vec<char>, c: char) -> (r: bool)
    ensures
        r == status@.contains(c),
{
    let mut i: usize = 0;
    while i < status.len()
        invariant
            i <= status.len(),
            forall|j: int| 0 <= j < i ==> status@[j] != c,
        decreases status.len() - i,
    {
        if status[i] == c {
            return true;
        }
        i += 1;
    }
    false
}

/// Whether the status code ends in `+`.
pub fn code_is_staged(status: &Vec<char>) -> (r: bool)
    ensures
        r == is_staged(status@),
{
    status.len() > 0 && status[status.len() - 1] == '+'
}

/// Whether the status code is `??`.
pub fn code_is_untracked(status: &Vec<char>) -> (r: bool)
    ensures
        r == is_untracked(status@),
{
    let r = status.len() == 2 && status[0] == '?' && status[1] == '?';
    proof {
        if status@.len() == 2 && status@[0] == '?' && status@[1] == '?' {
            assert(status@ =~= seq!['?', '?']);
        }
    }
    r
}

/// The rename separator.
pub open spec fn arrow() -> Seq<char> {
    seq![' ', '-', '>', ' ']
}

fn arrow_chars() -> (r: Vec<char>)
    ensures
        r@ == arrow(),
{
    let r = vec![' ', '-', '>', ' '];
    assert(r@ =~= arrow());
    r
}

/// The position of the last `c` in `s`, or -1.
pub open spec fn last_index(s: Seq<char>, c: char) -> int
    decreases s.len(),
{
    if s.len() == 0 {
        -1
    } else if s.last() == c {
        s.len() - 1
    } else {
        last_index(s.drop_last(), c)
    }
}

/// The last component of a `/`-separated path.
pub open spec fn basename(s: Seq<char>) -> Seq<char> {
    s.subrange(last_index(s, '/') + 1, s.len() as int)
}

/// Everything before the last `/` of a path, empty when there is none.
pub open spec fn parent(s: Seq<char>) -> Seq<char> {
    if last_index(s, '/') >= 0 {
        s.subrange(0, last_index(s, '/'))
    } else {
        Seq::empty()
    }
}

proof fn lemma_last_index(s: Seq<char>, c: char, k: int)
    requires
        -1 <= k < s.len(),
        k >= 0 ==> s[k] == c,
        forall|j: int| k < j < s.len() ==> s[j] != c,
    ensures
        last_index(s, c) == k,
    decreases s.len(),
{
    if s.len() > 0 && k < s.len() - 1 {
        lemma_last_index(s.drop_last(), c, k);
    }
}

fn last_slash(v: &Vec<char>) -> (r: Option<usize>)
    ensures
        match r {
            Some(k) => k < v.len() && last_index(v@, '/') == k,
            None => last_index(v@, '/') == -1,
        },
{
    let mut i = v.len();
    while i > 0
        invariant
            i <= v.len(),
            forall|j: int| i <= j < v.len() ==> v@[j] != '/',
        decreases i,
    {
        if v[i - 1] == '/' {
            proof {
                lemma_last_index(v@, '/', i - 1);
            }
            return Some(i - 1);
        }
        i -= 1;
    }
    proof {
        lemma_last_index(v@, '/', -1);
    }
    None
}

pub fn sub_chars(v: &Vec<char>, from: usize, to: usize) -> (r: Vec<char>)
    requires
        from <= to <= v.len(),
    ensures
        r@ == v@.subrange(from as int, to as int),
{
    let mut out: Vec<char> = Vec::new();
    let mut i = from;
    while i < to
        invariant
            from <= i <= to <= v.len(),
            out@ == v@.subrange(from as int, i as int),
        decreases to - i,
    {
        out.push(v[i]);
        assert(v@.subrange(from as int, i + 1) =~= v@.subrange(from as int, i as int).push(v@[i as int]));
        i += 1;
    }
    out
}

/// The last component of a path.
pub fn basename_of(v: &Vec<char>) -> (r: Vec<char>)
    ensures
        r@ == basename(v@),
{
    match last_slash(v) {
        Some(k) => sub_chars(v, k + 1, v.len()),
        None => sub_chars(v, 0, v.len()),
    }
}

/// The directory part of a path.
pub fn parent_of(v: &Vec<char>) -> (r: Vec<char>)
    ensures
        r@ == parent(v@),
{
    match last_slash(v) {
        Some(k) => sub_chars(v, 0, k),
        None => {
            let r: Vec<char> = Vec::new();
            assert(r@ =~= Seq::<char>::empty());
            r
        },
    }
}

/// The path text holds exactly one rename separator, at `k`, as `str::split`
/// finds it (scanning left to right, resuming after each match).
pub open spec fn single_arrow_at(path: Seq<char>, k: int) -> bool {
    &&& occurs_at(path, arrow(), k)
    &&& forall|j: int| 0 <= j < k ==> !occurs_at(path, arrow(), j)
    &&& forall|j: int| k + 4 <= j ==> !occurs_at(path, arrow(), j)
}

/// Where a record goes in the tree, what it is called there, and under which
/// path its line statistics are found.
pub struct Placement {
    pub tree_path: Seq<char>,
    pub display_name: Seq<char>,
    pub stats_key: Seq<char>,
}

/// The display name of a rename from `old` to `new`.
pub open spec fn rename_name(old: Seq<char>, new: Seq<char>) -> Seq<char> {
    if parent(old) == parent(new) {
        basename(old) + arrow() + basename(new)
    } else {
        basename(old) + arrow() + new
    }
}

/// Placement of a record with path text `path` and status `status`.
pub open spec fn placement(path: Seq<char>, status: Seq<char>) -> Placement {
    if status.contains('R') && contains_seq(path, arrow()) {
        if exists|k: int| single_arrow_at(path, k) {
            let k = choose|k: int| single_arrow_at(path, k);
            let old = path.subrange(0, k);
            let new = path.subrange(k + 4, path.len() as int);
            Placement { tree_path: old, display_name: rename_name(old, new), stats_key: new }
        } else {
            Placement { tree_path: path, display_name: path, stats_key: path }
        }
    } else {
        Placement { tree_path: path, display_name: basename(path), stats_key: path }
    }
}

proof fn lemma_single_arrow_unique(path: Seq<char>, k: int, m: int)
    requires
        single_arrow_at(path, k),
        single_arrow_at(path, m),
    ensures
        k == m,
{
    if k < m {
        assert(!occurs_at(path, arrow(), k));
    } else if m < k {
        assert(!occurs_at(path, arrow(), m));
    }
}

/// Computes the placement of a record: tree path, display name and
/// statistics key.
pub fn place_record(path: &Vec<char>, status: &Vec<char>) -> (r: (Vec<char>, Vec<char>, Vec<char>))
    ensures
        r.0@ == placement(path@, status@).tree_path,
        r.1@ == placement(path@, status@).display_name,
        r.2@ == placement(path@, status@).stats_key,
{
    let arrow_v = arrow_chars();
    let first = find_from(path, &arrow_v, 0);
    if code_has(status, 'R') && first.is_some() {
        let k = first.unwrap();
        assert(occurs_at(path@, arrow_v@, k as int));
        assert(arrow_v@.len() == 4);
        assert(k + 4 <= path.len());
        let again = find_from(path, &arrow_v, k + 4);
        if again.is_none() {
            assert(single_arrow_at(path@, k as int)) by {
                assert forall|j: int| k + 4 <= j implies !occurs_at(path@, arrow(), j) by {
                    if j > path@.len() {
                    }
                }
            }
            proof {
                let c = choose|c: int| single_arrow_at(path@, c);
                lemma_single_arrow_unique(path@, k as int, c);
            }
            let old = sub_chars(path, 0, k);
            let new = sub_chars(path, k + 4, path.len());
            let po = parent_of(&old);
            let pn = parent_of(&new);
            let mut name = basename_of(&old);
            let ghost b = name@;
            extend_chars(&mut name, &arrow_v);
            if crate::text::seq_equal(&po, &pn) {
                let bn = basename_of(&new);
                extend_chars(&mut name, &bn);
                assert(name@ =~= b + arrow() + basename(new@));
            } else {
                extend_chars(&mut name, &new);
                assert(name@ =~= b + arrow() + new@);
            }
            (old, name, new)
        } else {
            proof {
                let j = again.unwrap() as int;
                assert forall|c: int| !single_arrow_at(path@, c) by {
                    if single_arrow_at(path@, c) {
                        if c < k {
                            assert(!occurs_at(path@, arrow(), c));
                        } else if c > k {
                            assert(!occurs_at(path@, arrow(), k as int));
                        } else {
                            assert(!occurs_at(path@, arrow(), j));
                        }
                    }
                }
            }
            (sub_chars(path, 0, path.len()), sub_chars(path, 0, path.len()), sub_chars(path, 0, path.len()))
        }
    } else {
        proof {
            if status@.contains('R') {
                assert(!contains_seq(path@, arrow()));
            }
        }
        (sub_chars(path, 0, path.len()), basename_of(path), sub_chars(path, 0, path.len()))
    }
}

/// The non-empty pieces of a list.
pub open spec fn nonempty(parts: Seq<Seq<char>>) -> Seq<Seq<char>>
    decreases parts.len(),
{
    if parts.len() == 0 {
        parts
    } else if parts.last().len() == 0 {
        nonempty(parts.drop_last())
    } else {
        nonempty(parts.drop_last()).push(parts.last())
    }
}

pub proof fn lemma_nonempty_parts(parts: Seq<Seq<char>>)
    ensures
        forall|k: int| 0 <= k < nonempty(parts).len() ==> (#[trigger] nonempty(parts)[k]).len() > 0,
    decreases parts.len(),
{
    if parts.len() > 0 {
        lemma_nonempty_parts(parts.drop_last());
        let pre = nonempty(parts.drop_last());
        if parts.last().len() > 0 {
            assert(nonempty(parts) == pre.push(parts.last()));
            assert forall|k: int| 0 <= k < nonempty(parts).len() implies (#[trigger] nonempty(parts)[k]).len() > 0 by {
                if k < pre.len() {
                    assert(nonempty(parts)[k] == pre[k]);
                }
            }
        }
    }
}

/// The components of a `/`-separated path; empty components are skipped.
pub open spec fn components(path: Seq<char>) -> Seq<Seq<char>> {
    nonempty(split_on(path, '/'))
}

/// Splits a path into its components.
pub fn path_components(path: &Vec<char>) -> (r: Vec<Vec<char>>)
    ensures
        char_views(r@) == components(path@),
{
    let parts = split_chars(path, 0, path.len(), '/');
    assert(path@.subrange(0, path.len() as int) =~= path@);
    let mut out: Vec<Vec<char>> = Vec::new();
    let mut i: usize = 0;
    while i < parts.len()
        invariant
            i <= parts.len(),
            char_views(out@) == nonempty(char_views(parts@).subrange(0, i as int)),
        decreases parts.len() - i,
    {
        let ghost pre = char_views(parts@).subrange(0, i as int);
        assert(char_views(parts@).subrange(0, i + 1).drop_last() =~= pre);
        if parts[i].len() > 0 {
            let ghost before = out@;
            out.push(sub_chars(&parts[i], 0, parts[i].len()));
            assert(parts[i as int]@.subrange(0, parts[i as int]@.len() as int) =~= parts[i as int]@);
            assert(char_views(out@) =~= char_views(before).push(parts[i as int]@));
        }
        i += 1;
    }
    assert(char_views(parts@).subrange(0, parts.len() as int) =~= char_views(parts@));
    out
}

/// One entry of the per-path line statistics: path, added lines, deleted lines.
pub type StatEntry = (String, (usize, usize));

/// The statistics recorded for `key`: the first entry with that path.
pub open spec fn stat_lookup(stats: Seq<StatEntry>, key: Seq<char>) -> Option<(usize, usize)>
    decreases stats.len(),
{
    if stats.len() == 0 {
        None
    } else if stats[0].0@ == key {
        Some(stats[0].1)
    } else {
        stat_lookup(stats.drop_first(), key)
    }
}

/// Looks up the statistics recorded for `key`.
pub fn find_stats(stats: &Vec<StatEntry>, key: &Vec<char>) -> (r: Option<(usize, usize)>)
    ensures
        r == stat_lookup(stats@, key@),
{
    let mut i: usize = 0;
    assert(stats@.subrange(0, stats.len() as int) =~= stats@);
    while i < stats.len()
        invariant
            i <= stats.len(),
            stat_lookup(stats@, key@) == stat_lookup(stats@.subrange(i as int, stats.len() as int), key@),
        decreases stats.len() - i,
    {
        let k = chars_of(stats[i].0.as_str());
        assert(stats@.subrange(i as int, stats.len() as int).drop_first() =~= stats@.subrange(
            i + 1,
            stats.len() as int,
        ));
        if crate::text::seq_equal(&k, key) {
            return Some(stats[i].1);
        }
        i += 1;
    }
    None
}

} // verus!

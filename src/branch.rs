use vstd::prelude::*;

use crate::text::{char_views, chars_of, find_from, occurs_at, split_chars, split_on, string_of};

verus! {

/// One item of the ahead/behind part of a branch line.
#[derive(Debug, Clone, PartialEq, Eq)]
pub enum BranchCount {
    Ahead(String),
    Behind(String),
    Gone,
}

/// What the branch line of a status listing says
/// (`## <local>...<remote> [ahead <N>, behind <M>]`, or
/// `## No commits yet on <local>`).
#[derive(Debug, Clone, PartialEq, Eq)]
pub struct BranchHeader {
    pub no_commits: bool,
    pub local: String,
    pub remote: Option<String>,
    pub counts: Vec<BranchCount>,
}

/// White space as `char::is_whitespace` defines it.
pub open spec fn is_ws(c: char) -> bool {
    c == '\t' || c == '\n' || c == '\u{B}' || c == '\u{C}' || c == '\r' || c == ' ' || c == '\u{85}'
        || c == '\u{A0}' || c == '\u{1680}' || ('\u{2000}' <= c && c <= '\u{200A}') || c == '\u{2028}'
        || c == '\u{2029}' || c == '\u{202F}' || c == '\u{205F}' || c == '\u{3000}'
}

fn ws(c: char) -> (r: bool)
    ensures
        r == is_ws(c),
{
    c == '\t' || c == '\n' || c == '\u{B}' || c == '\u{C}' || c == '\r' || c == ' ' || c == '\u{85}'
        || c == '\u{A0}' || c == '\u{1680}' || ('\u{2000}' <= c && c <= '\u{200A}') || c == '\u{2028}'
        || c == '\u{2029}' || c == '\u{202F}' || c == '\u{205F}' || c == '\u{3000}'
}

/// `s` without its leading `## ` prefixes, as many as there are.
pub open spec fn strip_marks(s: Seq<char>) -> Seq<char>
    decreases s.len(),
{
    if s.len() >= 3 && s[0] == '#' && s[1] == '#' && s[2] == ' ' {
        strip_marks(s.subrange(3, s.len() as int))
    } else {
        s
    }
}

/// The first index at or after `i` that is not white space.
pub open spec fn skip_ws(s: Seq<char>, i: int) -> int
    decreases s.len() - i,
{
    if i < 0 || i >= s.len() || !is_ws(s[i]) {
        i
    } else {
        skip_ws(s, i + 1)
    }
}

/// The end of `s[..j]` once trailing white space is dropped, stopping at `i`.
pub open spec fn back_ws(s: Seq<char>, i: int, j: int) -> int
    decreases j - i,
{
    if j <= i || !is_ws(s[j - 1]) {
        j
    } else {
        back_ws(s, i, j - 1)
    }
}

/// `s` without white space at either end.
pub open spec fn trim_ws(s: Seq<char>) -> Seq<char> {
    let i = skip_ws(s, 0);
    s.subrange(i, back_ws(s, i, s.len() as int))
}

/// A count item: the text after `ahead ` or `behind `, or `gone`.
pub open spec fn count_item(p: Seq<char>) -> Option<(int, Seq<char>)> {
    if occurs_at(p, "ahead "@, 0) {
        Some((0, p.subrange(6, p.len() as int)))
    } else if occurs_at(p, "behind "@, 0) {
        Some((1, p.subrange(7, p.len() as int)))
    } else if p == "gone"@ {
        Some((2, Seq::empty()))
    } else {
        None
    }
}

/// The items between the commas, each after the first with one leading
/// space dropped.
pub open spec fn count_parts(parts: Seq<Seq<char>>) -> Seq<Seq<char>> {
    parts.map(|i: int, p: Seq<char>| if i > 0 && p.len() > 0 && p[0] == ' ' { p.drop_first() } else { p })
}

/// The recognised count items among `parts`, in order.
pub open spec fn counts_of(parts: Seq<Seq<char>>) -> Seq<(int, Seq<char>)>
    decreases parts.len(),
{
    if parts.len() == 0 {
        Seq::empty()
    } else {
        match count_item(parts.last()) {
            Some(x) => counts_of(parts.drop_last()).push(x),
            None => counts_of(parts.drop_last()),
        }
    }
}

impl BranchCount {
    pub open spec fn model(&self) -> (int, Seq<char>) {
        match self {
            BranchCount::Ahead(n) => (0, n@),
            BranchCount::Behind(n) => (1, n@),
            BranchCount::Gone => (2, Seq::empty()),
        }
    }
}

fn strip_marks_exec(v: &Vec<char>) -> (r: usize)
    ensures
        r <= v.len(),
        strip_marks(v@) == v@.subrange(r as int, v.len() as int),
{
    let mut i: usize = 0;
    assert(v@.subrange(0, v.len() as int) =~= v@);
    while i < v.len() && v.len() - i >= 3 && v[i] == '#' && v[i + 1] == '#' && v[i + 2] == ' '
        invariant
            i <= v.len(),
            strip_marks(v@) == strip_marks(v@.subrange(i as int, v.len() as int)),
        decreases v.len() - i,
    {
        assert(v@.subrange(i as int, v.len() as int).subrange(3, v.len() - i) =~= v@.subrange(i + 3, v.len() as int));
        i += 3;
    }
    i
}

/// Reads the branch line of a status listing. Counts are the
/// comma-separated items between ` [` and the closing brackets, each with
/// one leading space dropped; unknown items are skipped.
pub fn parse_branch_line(line: &str) -> (r: BranchHeader)
    ensures
        ({
            let content = trim_ws(strip_marks(line@));
            let prefix = "No commits yet on "@;
            if occurs_at(content, prefix, 0) {
                &&& r.no_commits
                &&& r.local@ == content.subrange(prefix.len() as int, content.len() as int)
                &&& r.remote.is_none()
                &&& r.counts@.len() == 0
            } else {
                &&& !r.no_commits
                &&& (!crate::text::contains_seq(content, "..."@) ==> r.local@ == content && r.remote.is_none()
                    && r.counts@.len() == 0)
                &&& (crate::text::contains_seq(content, "..."@) ==> exists|k: int|
                    #![trigger content.subrange(0, k)]
                    occurs_at(content, "..."@, k) && (forall|j: int| 0 <= j < k ==> !occurs_at(content, "..."@, j))
                        && r.local@ == content.subrange(0, k) && r.remote.is_some())
            }
        }),
{
    let all = chars_of(line);
    let start = strip_marks_exec(&all);
    let mut i = start;
    while i < all.len() && ws(all[i])
        invariant
            start <= i <= all.len(),
            skip_ws(all@.subrange(start as int, all.len() as int), 0) == skip_ws(
                all@.subrange(start as int, all.len() as int),
                i - start,
            ),
        decreases all.len() - i,
    {
        assert(all@.subrange(start as int, all.len() as int)[i - start] == all@[i as int]);
        i += 1;
    }
    let mut j = all.len();
    let ghost s = all@.subrange(start as int, all.len() as int);
    assert(skip_ws(s, i - start) == i - start);
    while j > i && ws(all[j - 1])
        invariant
            start <= i <= j <= all.len(),
            s == all@.subrange(start as int, all.len() as int),
            back_ws(s, i - start, s.len() as int) == back_ws(s, i - start, j - start),
        decreases j,
    {
        assert(s[j - 1 - start] == all@[j - 1]);
        j -= 1;
    }
    assert(back_ws(s, i - start, j - start) == j - start);
    let content = crate::status::sub_chars(&all, i, j);
    assert(content@ =~= trim_ws(strip_marks(line@)));
    let prefix = chars_of("No commits yet on ");
    if crate::text::starts_with_seq(&content, &prefix) {
        return BranchHeader {
            no_commits: true,
            local: string_of(&content, prefix.len(), content.len()),
            remote: None,
            counts: Vec::new(),
        };
    }
    let dots = chars_of("...");
    proof {
        reveal_strlit("...");
    }
    match find_from(&content, &dots, 0) {
        None => {
            assert(!crate::text::contains_seq(content@, "..."@));
            BranchHeader { no_commits: false, local: string_of(&content, 0, content.len()), remote: None, counts: Vec::new() }
        },
        Some(k) => {
            assert(occurs_at(content@, dots@, k as int));
            assert(dots@.len() == 3);
            let rest_start = k + 3;
            let bracket = chars_of(" [");
            proof {
                reveal_strlit(" [");
            }
            let (remote_end, counts) = match find_from(&content, &bracket, rest_start) {
                Some(b) => {
                    assert(occurs_at(content@, bracket@, b as int));
                    assert(bracket@.len() == 2);
                    let mut e = content.len();
                    while e > b + 2 && (content[e - 1] == ']' || content[e - 1] == '[')
                        invariant
                            b + 2 <= e <= content.len(),
                        decreases e,
                    {
                        e -= 1;
                    }
                    (b, count_items(&content, b + 2, e))
                },
                None => (content.len(), Vec::new()),
            };
            let local = string_of(&content, 0, k);
            assert(local@ == content@.subrange(0, k as int));
            BranchHeader {
                no_commits: false,
                local,
                remote: Some(string_of(&content, rest_start, remote_end)),
                counts,
            }
        },
    }
}

/// The count items of `v[from..to]`.
fn count_items(v: &Vec<char>, from: usize, to: usize) -> (r: Vec<BranchCount>)
    requires
        from <= to <= v.len(),
    ensures
        r@.map_values(|c: BranchCount| c.model()) == counts_of(count_parts(split_on(v@.subrange(from as int, to as int), ','))),
{
    let parts = split_chars(v, from, to, ',');
    let ahead = chars_of("ahead ");
    let behind = chars_of("behind ");
    proof {
        reveal_strlit("ahead ");
        reveal_strlit("behind ");
    }
    let gone = chars_of("gone");
    let mut out: Vec<BranchCount> = Vec::new();
    let mut i: usize = 0;
    let ghost cp = count_parts(char_views(parts@));
    while i < parts.len()
        invariant
            ahead@ == "ahead "@,
            behind@ == "behind "@,
            gone@ == "gone"@,
            i <= parts.len(),
            cp == count_parts(char_views(parts@)),
            out@.map_values(|c: BranchCount| c.model()) == counts_of(cp.subrange(0, i as int)),
        decreases parts.len() - i,
    {
        let ghost before = out@;
        let p = &parts[i];
        let skip: usize = if i > 0 && p.len() > 0 && p[0] == ' ' { 1 } else { 0 };
        let q = crate::status::sub_chars(p, skip, p.len());
        proof {
            assert(char_views(parts@)[i as int] == p@);
            if skip == 1 {
                assert(q@ =~= p@.drop_first());
            } else {
                assert(q@ =~= p@);
            }
            assert(cp[i as int] == q@);
            assert(cp.subrange(0, i + 1).drop_last() =~= cp.subrange(0, i as int));
            reveal_strlit("gone");
        }
        if crate::text::starts_with_seq(&q, &ahead) {
            assert(occurs_at(q@, ahead@, 0));
            proof {
                reveal_strlit("ahead ");
            }
            assert(ahead@.len() == 6);
            out.push(BranchCount::Ahead(string_of(&q, 6, q.len())));
            assert(out@.map_values(|c: BranchCount| c.model()) =~= before.map_values(|c: BranchCount| c.model()).push((0, q@.subrange(6, q@.len() as int))));
        } else if crate::text::starts_with_seq(&q, &behind) {
            assert(occurs_at(q@, behind@, 0));
            proof {
                reveal_strlit("behind ");
            }
            assert(behind@.len() == 7);
            out.push(BranchCount::Behind(string_of(&q, 7, q.len())));
            assert(!occurs_at(q@, "ahead "@, 0));
            assert(out@.map_values(|c: BranchCount| c.model()) =~= before.map_values(|c: BranchCount| c.model()).push((1, q@.subrange(7, q@.len() as int))));
        } else if crate::text::seq_equal(&q, &gone) {
            out.push(BranchCount::Gone);
            assert(out@.map_values(|c: BranchCount| c.model()) =~= before.map_values(|c: BranchCount| c.model()).push((2, Seq::<char>::empty())));
        }
        i += 1;
    }
    assert(cp.subrange(0, parts.len() as int) =~= cp);
    out
}

} // verus!

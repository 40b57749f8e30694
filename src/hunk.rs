use vstd::prelude::*;

use crate::text::{char_views, extend_chars, lines_of, split_lines, string_from};

verus! {

/// One hunk of a diff: its `@@` header line, its text (header and body,
/// each line ended by a newline), and the indices of its first and last line
/// in the diff.
#[derive(Debug, Clone)]
pub struct Hunk {
    pub header: String,
    pub content: String,
    pub display_start: usize,
    pub display_end: usize,
}

pub struct HunkModel {
    pub header: Seq<char>,
    pub content: Seq<char>,
    pub start: int,
    pub end: int,
}

impl Hunk {
    pub open spec fn model(&self) -> HunkModel {
        HunkModel {
            header: self.header@,
            content: self.content@,
            start: self.display_start as int,
            end: self.display_end as int,
        }
    }
}

/// A line that opens a hunk.
pub open spec fn is_marker(line: Seq<char>) -> bool {
    line.len() >= 2 && line[0] == '@' && line[1] == '@'
}

/// The first hunk marker at or after line `i`, or the number of lines.
pub open spec fn next_marker(lines: Seq<Seq<char>>, i: int) -> int
    decreases lines.len() - i,
{
    if i < 0 || i >= lines.len() {
        lines.len() as int
    } else if is_marker(lines[i]) {
        i
    } else {
        next_marker(lines, i + 1)
    }
}

/// Lines `s` up to `e` (exclusive), each followed by a newline.
pub open spec fn block(lines: Seq<Seq<char>>, s: int, e: int) -> Seq<char>
    decreases e - s,
{
    if e <= s {
        Seq::empty()
    } else {
        block(lines, s, e - 1) + lines[e - 1] + seq!['\n']
    }
}

/// The hunks that start at line `i`, a marker, and at each later marker.
pub open spec fn hunks_from(lines: Seq<Seq<char>>, i: int) -> Seq<HunkModel>
    decreases lines.len() - i,
{
    if i < 0 || i >= lines.len() {
        Seq::empty()
    } else {
        let e = next_marker(lines, i + 1);
        seq![HunkModel { header: lines[i], content: block(lines, i, e), start: i, end: e - 1 }]
            + if i < e <= lines.len() {
            hunks_from(lines, e)
        } else {
            Seq::empty()
        }
    }
}

proof fn lemma_next_marker(lines: Seq<Seq<char>>, i: int)
    requires
        0 <= i <= lines.len(),
    ensures
        i <= next_marker(lines, i) <= lines.len(),
        next_marker(lines, i) < lines.len() ==> is_marker(lines[next_marker(lines, i)]),
        forall|j: int| i <= j < next_marker(lines, i) ==> !is_marker(#[trigger] lines[j]),
    decreases lines.len() - i,
{
    if i < lines.len() && !is_marker(lines[i]) {
        lemma_next_marker(lines, i + 1);
    }
}

fn marker_at(lines: &Vec<Vec<char>>, i: usize) -> (r: bool)
    requires
        i < lines.len(),
    ensures
        r == is_marker(lines@[i as int]@),
{
    lines[i].len() >= 2 && lines[i][0] == '@' && lines[i][1] == '@'
}

/// Splits a diff into the lines before its first hunk and its hunks, in
/// order. Each hunk runs from its `@@` line up to the next one or the end.
pub fn parse_diff(diff_content: &str) -> (r: (Vec<String>, Vec<Hunk>))
    ensures
        ({
            let lines = lines_of(diff_content@);
            let first = next_marker(lines, 0);
            &&& crate::text::views(r.0@) == lines.subrange(0, first)
            &&& r.1@.map_values(|h: Hunk| h.model()) == hunks_from(lines, first)
        }),
{
    let lines = split_lines(diff_content);
    let ghost ls = char_views(lines@);
    let mut headers: Vec<String> = Vec::new();
    let mut hunks: Vec<Hunk> = Vec::new();
    let mut i: usize = 0;
    while i < lines.len() && !marker_at(&lines, i)
        invariant
            ls == char_views(lines@),
            i <= lines.len(),
            next_marker(ls, 0) == next_marker(ls, i as int),
            crate::text::views(headers@) == ls.subrange(0, i as int),
        decreases lines.len() - i,
    {
        let ghost before = headers@;
        assert(ls[i as int] == lines@[i as int]@);
        headers.push(string_from(&lines[i]));
        assert(crate::text::views(headers@) =~= crate::text::views(before).push(ls[i as int]));
        assert(crate::text::views(headers@) =~= ls.subrange(0, i + 1));
        i += 1;
    }
    let ghost first = i as int;
    assert(next_marker(ls, first) == first);
    while i < lines.len()
        invariant
            ls == char_views(lines@),
            first <= i <= lines.len(),
            i < lines.len() ==> is_marker(ls[i as int]),
            hunks_from(ls, first) == hunks@.map_values(|h: Hunk| h.model()) + hunks_from(ls, i as int),
        decreases lines.len() - i,
    {
        let start = i;
        assert(ls[i as int] == lines@[i as int]@);
        let mut content: Vec<char> = Vec::new();
        extend_chars(&mut content, &lines[i]);
        content.push('\n');
        assert(block(ls, start as int, start as int) =~= Seq::empty());
        assert(content@ =~= block(ls, start as int, start + 1));
        i += 1;
        while i < lines.len() && !marker_at(&lines, i)
            invariant
                ls == char_views(lines@),
                start < i <= lines.len(),
                next_marker(ls, start + 1) == next_marker(ls, i as int),
                content@ == block(ls, start as int, i as int),
            decreases lines.len() - i,
        {
            assert(ls[i as int] == lines@[i as int]@);
            extend_chars(&mut content, &lines[i]);
            content.push('\n');
            assert(content@ =~= block(ls, start as int, i + 1));
            i += 1;
        }
        assert(next_marker(ls, i as int) == i);
        proof {
            lemma_next_marker(ls, start + 1);
        }
        let ghost before = hunks@;
        hunks.push(Hunk { header: string_from(&lines[start]), content: string_from(&content), display_start: start, display_end: i - 1 });
        assert(hunks@.map_values(|h: Hunk| h.model()) =~= before.map_values(|h: Hunk| h.model()).push(
            HunkModel { header: ls[start as int], content: block(ls, start as int, i as int), start: start as int, end: i - 1 },
        ));
    }
    assert(hunks_from(ls, i as int) =~= Seq::empty());
    assert(hunks@.map_values(|h: Hunk| h.model()) =~= hunks@.map_values(|h: Hunk| h.model()) + Seq::<HunkModel>::empty());
    (headers, hunks)
}

} // verus!

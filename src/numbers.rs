use vstd::prelude::*;

use crate::status::StatEntry;
use crate::text::{char_views, chars_of, lines_of, split_chars, split_lines, split_on, string_from};

verus! {

pub open spec fn is_digit(c: char) -> bool {
    '0' <= c && c <= '9'
}

pub open spec fn all_digits(s: Seq<char>) -> bool {
    forall|i: int| 0 <= i < s.len() ==> is_digit(#[trigger] s[i])
}

/// The value of a run of decimal digits.
pub open spec fn digits_value(s: Seq<char>) -> int
    decreases s.len(),
{
    if s.len() == 0 {
        0
    } else {
        digits_value(s.drop_last()) * 10 + (s.last() as int - '0' as int)
    }
}

/// What reading `s` as an unsigned count gives, as `str::parse::<usize>`
/// reads it: an optional `+`, then at least one decimal digit, the value
/// fitting in `usize`.
pub open spec fn count_of(s: Seq<char>) -> Option<usize> {
    let body = if s.len() > 0 && s[0] == '+' {
        s.drop_first()
    } else {
        s
    };
    if body.len() > 0 && all_digits(body) && digits_value(body) <= usize::MAX {
        Some(digits_value(body) as usize)
    } else {
        None
    }
}

proof fn lemma_digits_nonneg(s: Seq<char>)
    requires
        forall|i: int| 0 <= i < s.len() ==> is_digit(#[trigger] s[i]),
    ensures
        digits_value(s) >= 0,
        s.len() > 0 ==> digits_value(s) >= digits_value(s.drop_last()),
    decreases s.len(),
{
    if s.len() > 0 {
        lemma_digits_nonneg(s.drop_last());
    }
}

/// Reads an unsigned count.
pub fn parse_count(v: &Vec<char>) -> (r: Option<usize>)
    ensures
        r == count_of(v@),
{
    let start: usize = if v.len() > 0 && v[0] == '+' {
        1
    } else {
        0
    };
    let ghost body = if v@.len() > 0 && v@[0] == '+' {
        v@.drop_first()
    } else {
        v@
    };
    assert(body =~= v@.subrange(start as int, v.len() as int));
    if start >= v.len() {
        return None;
    }
    let mut value: usize = 0;
    let mut i = start;
    while i < v.len()
        invariant
            start <= i <= v.len(),
            body == v@.subrange(start as int, v.len() as int),
            body == (if v@.len() > 0 && v@[0] == '+' { v@.drop_first() } else { v@ }),
            forall|j: int| start <= j < i ==> is_digit(#[trigger] v@[j]),
            value as int == digits_value(v@.subrange(start as int, i as int)),
        decreases v.len() - i,
    {
        let c = v[i];
        let ghost pre = v@.subrange(start as int, i + 1);
        assert(pre.drop_last() =~= v@.subrange(start as int, i as int));
        if !('0' <= c && c <= '9') {
            assert(!is_digit(body[i - start]));
            assert(!all_digits(body));
            return None;
        }
        let d = (c as u32 - '0' as u32) as usize;
        if value > (usize::MAX - d) / 10 {
            proof {
                assert forall|j: int| 0 <= j < pre.len() implies is_digit(#[trigger] pre[j]) by {
                    assert(pre[j] == v@[start + j]);
                }
                assert(digits_value(pre) > usize::MAX) by (nonlinear_arith)
                    requires
                        digits_value(pre) == value * 10 + d,
                        value > (usize::MAX - d) / 10,
                        0 <= d <= 9,
                ;
                lemma_grows(body, pre.len() as int);
                assert(body.subrange(0, pre.len() as int) =~= pre);
                if all_digits(body) {
                    assert(digits_value(body) > usize::MAX);
                }
            }
            return None;
        }
        value = value * 10 + d;
        i += 1;
    }
    assert(v@.subrange(start as int, i as int) =~= body);
    Some(value)
}

proof fn lemma_grows(s: Seq<char>, k: int)
    requires
        0 <= k <= s.len(),
    ensures
        (forall|i: int| 0 <= i < s.len() ==> is_digit(#[trigger] s[i])) ==> digits_value(s) >= digits_value(
            s.subrange(0, k),
        ),
    decreases s.len() - k,
{
    if (forall|i: int| 0 <= i < s.len() ==> is_digit(#[trigger] s[i])) {
        if k < s.len() {
            lemma_grows(s, k + 1);
            let t = s.subrange(0, k + 1);
            assert(t.drop_last() =~= s.subrange(0, k));
            assert forall|i: int| 0 <= i < t.len() implies is_digit(#[trigger] t[i]) by {
                assert(t[i] == s[i]);
            }
            lemma_digits_nonneg(t);
        } else {
            assert(s.subrange(0, k) =~= s);
        }
    }
}

/// The indent width: the command-line value, else the configured one if
/// it reads as a count, else 3; always within 2 to 10.
pub open spec fn indent_of(arg: Option<usize>, configured: Option<Seq<char>>) -> int {
    let picked: int = match arg {
        Some(n) => n as int,
        None => match configured {
            Some(s) => match count_of(s) {
                Some(n) => n as int,
                None => 3,
            },
            None => 3,
        },
    };
    if picked < 2 {
        2
    } else if picked > 10 {
        10
    } else {
        picked
    }
}

/// Chooses the indent width.
pub fn determine_indent(arg_indent: Option<usize>, configured: Option<String>) -> (r: usize)
    ensures
        r as int == indent_of(arg_indent, match configured { Some(s) => Some(s@), None => None }),
{
    let picked = match arg_indent {
        Some(n) => n,
        None => match configured {
            Some(s) => match parse_count(&chars_of(s.as_str())) {
                Some(n) => n,
                None => 3,
            },
            None => 3,
        },
    };
    if picked < 2 {
        2
    } else if picked > 10 {
        10
    } else {
        picked
    }
}

/// Whether chains collapse: when asked on the command line, or when the
/// configured value is exactly `true`.
pub fn determine_collapse(arg_collapse: bool, configured: Option<String>) -> (r: bool)
    ensures
        r == (arg_collapse || match configured { Some(s) => s@ == "true"@, None => false }),
{
    if arg_collapse {
        return true;
    }
    match configured {
        Some(s) => crate::text::same_text(s.as_str(), "true"),
        None => false,
    }
}

/// The table after adding `(added, deleted)` to the entry for `path`, or a
/// new entry at the end when there is none. Sums saturate.
pub open spec fn add_stat(table: Seq<(Seq<char>, (usize, usize))>, path: Seq<char>, added: usize, deleted: usize) -> Seq<(Seq<char>, (usize, usize))> {
    if exists|i: int| 0 <= i < table.len() && table[i].0 == path {
        let i = choose|i: int| 0 <= i < table.len() && table[i].0 == path;
        table.update(i, (path, (crate::refresh::sat_add(table[i].1.0, added), crate::refresh::sat_add(table[i].1.1, deleted))))
    } else {
        table.push((path, (added, deleted)))
    }
}

/// The table after one line of numstat output: `added`, `deleted` and the
/// path, tab-separated; a count that does not read as one counts 0, and a
/// line with fewer than three fields is ignored.
pub open spec fn numstat_step(table: Seq<(Seq<char>, (usize, usize))>, line: Seq<char>) -> Seq<(Seq<char>, (usize, usize))> {
    let parts = split_on(line, '\t');
    if parts.len() >= 3 {
        let a = match count_of(parts[0]) { Some(n) => n, None => 0 };
        let d = match count_of(parts[1]) { Some(n) => n, None => 0 };
        add_stat(table, parts[2], a, d)
    } else {
        table
    }
}

pub open spec fn numstat_fold(table: Seq<(Seq<char>, (usize, usize))>, lines: Seq<Seq<char>>) -> Seq<(Seq<char>, (usize, usize))>
    decreases lines.len(),
{
    if lines.len() == 0 {
        table
    } else {
        numstat_step(numstat_fold(table, lines.drop_last()), lines.last())
    }
}

pub open spec fn stat_view(stats: Seq<StatEntry>) -> Seq<(Seq<char>, (usize, usize))> {
    stats.map_values(|e: StatEntry| (e.0@, e.1))
}

/// Paths in the table are unique.
pub open spec fn keys_unique(t: Seq<(Seq<char>, (usize, usize))>) -> bool {
    forall|i: int, j: int| 0 <= i < t.len() && 0 <= j < t.len() && i != j ==> t[i].0 != t[j].0
}

/// Adds the per-path line counts of a numstat listing to the table, summing
/// counts of paths it already holds.
pub fn merge_numstat(stats: &mut Vec<StatEntry>, output: &str)
    requires
        keys_unique(stat_view(old(stats)@)),
    ensures
        keys_unique(stat_view(final(stats)@)),
        stat_view(final(stats)@) == numstat_fold(stat_view(old(stats)@), lines_of(output@)),
{
    let lines = split_lines(output);
    let ghost ls = char_views(lines@);
    let mut i: usize = 0;
    while i < lines.len()
        invariant
            ls == char_views(lines@),
            i <= lines.len(),
            keys_unique(stat_view(stats@)),
            stat_view(stats@) == numstat_fold(stat_view(old(stats)@), ls.subrange(0, i as int)),
        decreases lines.len() - i,
    {
        let line = &lines[i];
        let parts = split_chars(line, 0, line.len(), '\t');
        assert(line@.subrange(0, line@.len() as int) =~= line@);
        assert(ls.subrange(0, i + 1).drop_last() =~= ls.subrange(0, i as int));
        assert(ls[i as int] == line@);
        if parts.len() >= 3 {
            assert(char_views(parts@)[0] == parts@[0]@);
            assert(char_views(parts@)[1] == parts@[1]@);
            assert(char_views(parts@)[2] == parts@[2]@);
            let a = match parse_count(&parts[0]) {
                Some(n) => n,
                None => 0,
            };
            let d = match parse_count(&parts[1]) {
                Some(n) => n,
                None => 0,
            };
            let mut k: usize = 0;
            let mut found = false;
            while k < stats.len() && !found
                invariant
                    k <= stats.len(),
                    parts.len() >= 3,
                    found ==> k < stats.len() && stat_view(stats@)[k as int].0 == parts@[2]@,
                    forall|j: int| 0 <= j < k ==> stat_view(stats@)[j].0 != parts@[2]@,
                decreases stats.len() - k, if found { 0int } else { 1int },
            {
                let key = chars_of(stats[k].0.as_str());
                if crate::text::seq_equal(&key, &parts[2]) {
                    found = true;
                } else {
                    k += 1;
                }
            }
            let ghost before = stat_view(stats@);
            if found {
                let old_entry = stats[k].1;
                let path = stats[k].0.clone();
                stats.set(k, (path, (old_entry.0.saturating_add(a), old_entry.1.saturating_add(d))));
                proof {
                    assert(before[k as int].0 == parts@[2]@);
                    let c = choose|c: int| 0 <= c < before.len() && before[c].0 == parts@[2]@;
                    assert(c == k);
                    assert(stat_view(stats@) =~= add_stat(before, parts@[2]@, a, d));
                }
            } else {
                stats.push((string_from(&parts[2]), (a, d)));
                assert(stat_view(stats@) =~= add_stat(before, parts@[2]@, a, d));
            }
        }
        i += 1;
    }
    assert(ls.subrange(0, lines.len() as int) =~= ls);
}

} // verus!

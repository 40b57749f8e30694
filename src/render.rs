use vstd::prelude::*;

use crate::flatten::{FlatNode, RowModel};
use crate::text::{append_str, push_char};
use crate::flatten::repeat;
use crate::style::{lemma_run_unstyled, paint_green, paint_red, shown_green, shown_red};
use crate::theme::Theme;
use crate::tree::Node;

verus! {

/// Widest a statistics bar gets, in glyphs.
pub const BAR_CAP: usize = 10;

/// The display width of a text in terminal columns.
pub uninterp spec fn text_width(s: Seq<char>) -> usize;

/// Relies on `unicode_width::UnicodeWidthStr::width`: the number of terminal
/// columns a text takes, which depends on its characters alone.
#[verifier::external_body]
fn display_width(s: &str) -> (r: usize)
    ensures
        r == text_width(s@),
{
    unicode_width::UnicodeWidthStr::width(s)
}

/// Glyph counts of the statistics bar for `added` and `deleted` lines: the
/// counts themselves while their sum fits in the cap, else both scaled to
/// the cap, additions rounded to nearest (halves up), deletions the rest.
pub open spec fn bar_spec(added: int, deleted: int) -> (int, int) {
    let total = added + deleted;
    if total <= BAR_CAP {
        (added, deleted)
    } else {
        let p = (2 * BAR_CAP * added + total) / (2 * total);
        (p, BAR_CAP - p)
    }
}

/// The glyph counts of the statistics bar.
pub fn bar_counts(added: usize, deleted: usize) -> (r: (usize, usize))
    ensures
        r.0 as int == bar_spec(added as int, deleted as int).0,
        r.1 as int == bar_spec(added as int, deleted as int).1,
        added as int + deleted as int > BAR_CAP ==> r.0 + r.1 == BAR_CAP,
{
    let total: u128 = added as u128 + deleted as u128;
    if total <= BAR_CAP as u128 {
        (added, deleted)
    } else {
        assert(2 * BAR_CAP * (added as int) + total < 0x1_0000_0000_0000_0000_0000_0000_0000_0000int) by (nonlinear_arith)
            requires
                added as int <= usize::MAX,
                total == added as int + deleted as int,
                deleted as int <= usize::MAX,
                usize::MAX as int <= 0xffff_ffff_ffff_ffffint,
        ;
        let num: u128 = 2 * (BAR_CAP as u128) * (added as u128) + total;
        let p: u128 = num / (2 * total);
        proof {
            let t = total as int;
            let n = num as int;
            assert(n < (2 * t) * 11) by (nonlinear_arith)
                requires
                    n == 20 * (added as int) + t,
                    t == added as int + deleted as int,
                    t > 10,
            ;
            vstd::arithmetic::div_mod::lemma_multiply_divide_lt(n, 2 * t, 11);
        }
        (p as usize, BAR_CAP - p as usize)
    }
}

/// Decimal digits of `n`.
pub open spec fn decimal(n: nat) -> Seq<char>
    decreases n,
{
    if n < 10 {
        seq![digit(n)]
    } else {
        decimal(n / 10).push(digit(n % 10))
    }
}

pub open spec fn digit(d: nat) -> char {
    if d == 0 { '0' } else if d == 1 { '1' } else if d == 2 { '2' } else if d == 3 { '3' } else if d == 4 { '4' } else if d == 5 { '5' } else if d == 6 { '6' } else if d == 7 { '7' } else if d == 8 { '8' } else { '9' }
}

fn digit_char(d: u128) -> (r: char)
    requires
        d < 10,
    ensures
        r == digit(d as nat),
{
    if d == 0 { '0' } else if d == 1 { '1' } else if d == 2 { '2' } else if d == 3 { '3' } else if d == 4 { '4' } else if d == 5 { '5' } else if d == 6 { '6' } else if d == 7 { '7' } else if d == 8 { '8' } else { '9' }
}

/// Appends the decimal digits of `n`.
pub fn push_decimal(s: &mut String, n: u128)
    ensures
        final(s)@ == old(s)@ + decimal(n as nat),
    decreases n,
{
    if n < 10 {
        push_char(s, digit_char(n));
        assert(old(s)@.push(digit(n as nat)) =~= old(s)@ + decimal(n as nat));
    } else {
        push_decimal(s, n / 10);
        push_char(s, digit_char(n % 10));
        assert(old(s)@ + decimal((n / 10) as nat) + seq![digit((n % 10) as nat)] =~= old(s)@ + decimal(n as nat));
    }
}

/// Width of a row's connector and name together (saturating).
pub open spec fn row_width(r: RowModel) -> int {
    let w = text_width(r.connector) as int + text_width(r.name) as int;
    if w <= usize::MAX { w } else { usize::MAX as int }
}

/// The widest row among the first `k`.
pub open spec fn max_width_upto(rows: Seq<RowModel>, k: int) -> int
    decreases k,
{
    if k <= 0 {
        0
    } else {
        let m = max_width_upto(rows, k - 1);
        let w = row_width(rows[k - 1]);
        if w > m { w } else { m }
    }
}

/// The column at which statistics bars start: the widest connector plus
/// name over all rows.
pub fn max_row_width(rows: &Vec<FlatNode>) -> (r: usize)
    ensures
        r as int == max_width_upto(crate::flatten::row_models(rows@), rows.len() as int),
{
    let ghost m = crate::flatten::row_models(rows@);
    let mut best: usize = 0;
    let mut i: usize = 0;
    while i < rows.len()
        invariant
            i <= rows.len(),
            m == crate::flatten::row_models(rows@),
            best as int == max_width_upto(m, i as int),
        decreases rows.len() - i,
    {
        let w = display_width(rows[i].connector.as_str()).saturating_add(display_width(rows[i].name.as_str()));
        assert(m[i as int] == rows@[i as int].model());
        if w > best {
            best = w;
        }
        i += 1;
    }
    best
}

fn repeat_text(c: char, k: usize) -> (r: String)
    ensures
        r@ == crate::flatten::repeat(c, k as int),
{
    let mut s = String::new();
    let mut i: usize = 0;
    while i < k
        invariant
            i <= k,
            s@ == crate::flatten::repeat(c, i as int),
        decreases k - i,
    {
        push_char(&mut s, c);
        assert(crate::flatten::repeat(c, i + 1) =~= crate::flatten::repeat(c, i as int).push(c));
        i += 1;
    }
    s
}

/// The padding that brings a row of width `w` to column `max`.
pub open spec fn pad(max: int, w: int) -> Seq<char> {
    if max > w {
        crate::flatten::repeat(' ', max - w)
    } else {
        Seq::empty()
    }
}

/// Start of the statistics bar of a row with `total` changed lines.
pub open spec fn bar_head(total: nat) -> Seq<char> {
    seq![' ', '|', ' '] + decimal(total) + seq![' ']
}

/// `bar` may follow a row: nothing for a row without statistics or with
/// no changed line, else ` | <total> `, then the plus run and the minus run
/// of `bar_glyphs`, shown green and red.
pub open spec fn bar_fits(r: FlatNode, bar: Seq<char>, theme: Theme) -> bool {
    bar_for(r.stats, bar, theme)
}

/// `bar` is the statistics bar for `stats`, as `bar_fits` describes.
pub open spec fn bar_for(stats: Option<(usize, usize)>, bar: Seq<char>, theme: Theme) -> bool {
    match stats {
        Some((a, d)) => if a + d > 0 {
            let (p, m) = bar_spec(a as int, d as int);
            exists|gp: Seq<char>, mp: Seq<char>|
                #![trigger shown_green(gp, repeat(theme.diff_bar_plus, p)), shown_red(mp, repeat(theme.diff_bar_minus, m))]
                bar == bar_head((a + d) as nat) + gp + mp && shown_green(gp, repeat(theme.diff_bar_plus, p))
                    && shown_red(mp, repeat(theme.diff_bar_minus, m))
        } else {
            bar.len() == 0
        },
        None => bar.len() == 0,
    }
}

/// One line of the tree view: connector, styled name, padding to column
/// `max`, the bar, a newline.
pub open spec fn line_of(r: FlatNode, max: int, bar: Seq<char>) -> Seq<char> {
    r.connector@ + r.name_colored@ + pad(max, row_width(r.model())) + bar + seq!['\n']
}

/// The lines of the first `k` rows.
pub open spec fn lines_upto(rows: Seq<FlatNode>, max: int, bars: Seq<Seq<char>>, k: int) -> Seq<char>
    decreases k,
{
    if k <= 0 {
        Seq::empty()
    } else {
        lines_upto(rows, max, bars, k - 1) + line_of(rows[k - 1], max, bars[k - 1])
    }
}

/// The glyph runs of a statistics bar, unstyled: `bar_counts` plus glyphs,
/// then minus glyphs.
pub fn bar_glyphs(added: usize, deleted: usize, theme: &Theme) -> (r: (String, String))
    ensures
        r.0@ == crate::flatten::repeat(theme.diff_bar_plus, bar_spec(added as int, deleted as int).0),
        r.1@ == crate::flatten::repeat(theme.diff_bar_minus, bar_spec(added as int, deleted as int).1),
{
    let (p, m) = bar_counts(added, deleted);
    (repeat_text(theme.diff_bar_plus, p), repeat_text(theme.diff_bar_minus, m))
}

/// The text of a tree view: one line per row with its connector, styled
/// name, padding up to the widest row, and for files with changed lines a
/// statistics bar whose glyph runs are `bar_glyphs`, styled.
pub fn render_rows(rows: &Vec<FlatNode>, theme: &Theme) -> (r: String)
    ensures
        exists|bars: Seq<Seq<char>>|
            #![trigger lines_upto(rows@, max_width_upto(crate::flatten::row_models(rows@), rows@.len() as int), bars, rows@.len() as int)]
            bars.len() == rows@.len() && (forall|k: int| 0 <= k < rows@.len() ==> bar_fits(rows@[k], #[trigger] bars[k], *theme))
                && r@ == lines_upto(rows@, max_width_upto(crate::flatten::row_models(rows@), rows@.len() as int), bars, rows@.len() as int),
{
    let max_width = max_row_width(rows);
    let ghost w = max_width as int;
    let mut out = String::new();
    let ghost mut bars: Seq<Seq<char>> = Seq::empty();
    let mut i: usize = 0;
    while i < rows.len()
        invariant
            i <= rows.len(),
            w == max_width as int,
            bars.len() == i,
            forall|k: int| 0 <= k < i ==> bar_fits(rows@[k], #[trigger] bars[k], *theme),
            out@ == lines_upto(rows@, w, bars, i as int),
        decreases rows.len() - i,
    {
        let row = &rows[i];
        let ghost start = out@;
        let ghost old_bars = bars;
        let width = display_width(row.connector.as_str()).saturating_add(display_width(row.name.as_str()));
        assert(width as int == row_width(row.model()));
        append_str(&mut out, row.connector.as_str());
        append_str(&mut out, row.name_colored.as_str());
        if max_width > width {
            append_str(&mut out, repeat_text(' ', max_width - width).as_str());
        }
        assert(out@ =~= start + row.connector@ + row.name_colored@ + pad(w, row_width(row.model())));
        let ghost before_bar = out@;
        let bar_str = bar_text(row.stats, theme);
        append_str(&mut out, bar_str.as_str());
        let ghost bar = bar_str@;
        assert(out@ =~= before_bar + bar);
        push_char(&mut out, '\n');
        proof {
            bars = bars.push(bar);
            assert(bars[i as int] == bar);
            assert(bars.drop_last() =~= old_bars);
            lemma_lines_prefix(rows@, w, bars, i as int);
            assert(rows@[i as int] == *row);
            assert(lines_upto(rows@, w, bars, i + 1) == lines_upto(rows@, w, bars, i as int) + line_of(rows@[i as int], w, bar));
            assert(out@ =~= start + line_of(*row, w, bar));
            assert(out@ =~= lines_upto(rows@, w, bars, i + 1));
        }
        i += 1;
    }
    out
}

/// The statistics bar of a row with these statistics.
fn bar_text(stats: Option<(usize, usize)>, theme: &Theme) -> (r: String)
    ensures
        bar_for(stats, r@, *theme),
{
    let mut out = String::new();
    match stats {
        Some((added, deleted)) => {
            let total: u128 = added as u128 + deleted as u128;
            if total > 0 {
                append_str(&mut out, " | ");
                push_decimal(&mut out, total);
                push_char(&mut out, ' ');
                proof {
                    reveal_strlit(" | ");
                    assert(out@ =~= bar_head(total as nat));
                }
                let (plus, minus) = bar_glyphs(added, deleted, theme);
                proof {
                    lemma_run_unstyled(theme.diff_bar_plus, bar_spec(added as int, deleted as int).0);
                    lemma_run_unstyled(theme.diff_bar_minus, bar_spec(added as int, deleted as int).1);
                }
                let gp = paint_green(plus.as_str());
                let mp = paint_red(minus.as_str());
                append_str(&mut out, gp.as_str());
                append_str(&mut out, mp.as_str());
                assert(out@ =~= bar_head(total as nat) + gp@ + mp@);
                assert(shown_green(gp@, repeat(theme.diff_bar_plus, bar_spec(added as int, deleted as int).0)));
                assert(shown_red(mp@, repeat(theme.diff_bar_minus, bar_spec(added as int, deleted as int).1)));
            }
        },
        None => {},
    }
    out
}

proof fn lemma_lines_prefix(rows: Seq<FlatNode>, w: int, bars: Seq<Seq<char>>, k: int)
    requires
        0 <= k < bars.len(),
    ensures
        lines_upto(rows, w, bars, k) == lines_upto(rows, w, bars.drop_last(), k),
    decreases k,
{
    if k > 0 {
        lemma_lines_prefix(rows, w, bars, k - 1);
    }
}

impl Node {
    /// The tree as text: the rows of `flatten`, nothing folded, drawn by
    /// `render_rows`.
    pub fn render_tree(&self, indent: usize, collapse: bool, theme: &Theme) -> (r: String)
        requires
            indent >= 2,
        ensures
            exists|rows: Seq<FlatNode>, bars: Seq<Seq<char>>|
                #![trigger lines_upto(rows, max_width_upto(crate::flatten::row_models(rows), rows.len() as int), bars, rows.len() as int)]
                crate::flatten::row_models(rows) == crate::flatten::flat_rows(
                    *self,
                    crate::flatten::ctx_of(indent, collapse, *theme, Seq::empty()),
                ) && bars.len() == rows.len() && (forall|k: int| 0 <= k < rows.len() ==> bar_fits(rows[k], #[trigger] bars[k], *theme))
                    && r@ == lines_upto(rows, max_width_upto(crate::flatten::row_models(rows), rows.len() as int), bars, rows.len() as int),
    {
        let none: Vec<String> = Vec::new();
        assert(none@ =~= Seq::<String>::empty());
        let rows = self.flatten(indent, collapse, theme, &none);
        let r = render_rows(&rows, theme);
        r
    }
}

} // verus!

use vstd::prelude::*;

use crate::text::contains_seq;

verus! {

/// The escape sequence that ends terminal styling.
pub open spec fn reset_code() -> Seq<char> {
    seq!['\u{1b}', '[', '0', 'm']
}

/// `s` between the escape sequence for style `code` and the reset.
pub open spec fn styled(s: Seq<char>, code: Seq<char>) -> Seq<char> {
    seq!['\u{1b}', '['] + code + seq!['m'] + s + reset_code()
}

/// `r` shows `s` in style `code`, or plainly where the terminal takes no
/// colour.
pub open spec fn shown_as(r: Seq<char>, s: Seq<char>, code: Seq<char>) -> bool {
    r == s || r == styled(s, code)
}

/// `r` shows `s` green, or plainly.
pub open spec fn shown_green(r: Seq<char>, s: Seq<char>) -> bool {
    shown_as(r, s, seq!['3', '2'])
}

/// `r` shows `s` red, or plainly.
pub open spec fn shown_red(r: Seq<char>, s: Seq<char>) -> bool {
    shown_as(r, s, seq!['3', '1'])
}

/// Relies on `colored::Colorize::bold` and its `Display`: the text plainly
/// when colouring is off, else between `ESC[1m` and `ESC[0m` (the text is
/// kept as is when it holds no reset sequence).
#[verifier::external_body]
pub(crate) fn paint_bold(s: &str) -> (r: String)
    ensures
        !contains_seq(s@, reset_code()) ==> shown_as(r@, s@, seq!['1']),
{
    colored::Colorize::bold(s).to_string()
}

/// Relies on `colored::Colorize::green` and its `Display`: the text plainly
/// when colouring is off, else between `ESC[32m` and `ESC[0m` (the text is
/// kept as is when it holds no reset sequence).
#[verifier::external_body]
pub(crate) fn paint_green(s: &str) -> (r: String)
    ensures
        !contains_seq(s@, reset_code()) ==> shown_green(r@, s@),
{
    colored::Colorize::green(s).to_string()
}

/// Relies on `colored::Colorize::red` and its `Display`: the text plainly
/// when colouring is off, else between `ESC[31m` and `ESC[0m` (the text is
/// kept as is when it holds no reset sequence).
#[verifier::external_body]
pub(crate) fn paint_red(s: &str) -> (r: String)
    ensures
        !contains_seq(s@, reset_code()) ==> shown_red(r@, s@),
{
    colored::Colorize::red(s).to_string()
}

/// A run of one character holds no reset sequence.
pub proof fn lemma_run_unstyled(c: char, k: int)
    ensures
        !contains_seq(crate::flatten::repeat(c, k), reset_code()),
{
    let s = crate::flatten::repeat(c, k);
    assert forall|i: int| !crate::text::occurs_at(s, reset_code(), i) by {
        if crate::text::occurs_at(s, reset_code(), i) {
            assert(s.subrange(i, i + 4)[0] == reset_code()[0]);
            assert(s.subrange(i, i + 4)[1] == reset_code()[1]);
        }
    }
}

} // verus!

use vstd::prelude::*;

use crate::flatten::FlatNode;
use crate::hunk::{parse_diff, Hunk};
use crate::session::{App, ViewMode};
use crate::text::{
    append_str, char_views, contains_seq, contains_text, lines_of, lower_of, lowercase,
    split_lines, string_from, views,
};

verus! {

/// A text with its terminal colour and erase escape sequences removed.
pub uninterp spec fn ansi_stripped(s: Seq<char>) -> Seq<char>;

/// Relies on `regex::Regex::replace_all` with the pattern
/// `\x1B\[[0-9;]*[mK]`: the text without its SGR and erase-line escape
/// sequences, which depends on the text alone.
#[verifier::external_body]
fn strip_ansi_codes(s: &str) -> (r: String)
    ensures
        r@ == ansi_stripped(s@),
{
    let re = regex::Regex::new(r"\x1B\[[0-9;]*[mK]").unwrap();
    re.replace_all(s, "").to_string()
}

/// The selected row of the focused pane, if it exists.
pub open spec fn selected_row(app: App) -> Option<FlatNode> {
    match app.active_sel() {
        Some(i) => if i < app.shown().len() {
            Some(app.shown()[i as int])
        } else {
            None
        },
        None => None,
    }
}

/// The line offset a line index scrolls to (indices past the offset range
/// wrap, as a cast to `u16` does).
pub open spec fn scroll_to(k: int) -> u16 {
    (k % 65536) as u16
}

#[verifier::truncate]
fn to_scroll(k: usize) -> (r: u16)
    ensures
        r == scroll_to(k as int),
{
    let r = k as u16;
    assert(r == scroll_to(k as int)) by (bit_vector)
        requires
            r == k as u16,
    ;
    r
}

/// Whether diff line `line` matches the lowercase query `q`, colours ignored.
pub open spec fn line_matches(line: Seq<char>, q: Seq<char>) -> bool {
    contains_seq(lower_of(ansi_stripped(line)), q)
}

/// The indices of the lines among the first `k` that match `q`.
pub open spec fn matching_lines(lines: Seq<Seq<char>>, q: Seq<char>, k: int) -> Seq<usize>
    decreases k,
{
    if k <= 0 {
        Seq::empty()
    } else if line_matches(lines[k - 1], q) {
        matching_lines(lines, q, k - 1).push((k - 1) as usize)
    } else {
        matching_lines(lines, q, k - 1)
    }
}

/// The text to apply to stage one hunk: the file headers, each on its own
/// line, then the hunk.
pub open spec fn patch_of(headers: Seq<Seq<char>>, content: Seq<char>) -> Seq<char>
    decreases headers.len(),
{
    if headers.len() == 0 {
        content
    } else {
        patch_of(headers.drop_last(), Seq::empty()) + headers.last() + seq!['\n'] + content
    }
}

/// Builds the patch text for one hunk.
pub fn patch_text(headers: &Vec<String>, hunk: &Hunk) -> (r: String)
    ensures
        r@ == patch_of(views(headers@), hunk.content@),
{
    let mut out = String::new();
    let mut i: usize = 0;
    while i < headers.len()
        invariant
            i <= headers.len(),
            out@ == patch_of(views(headers@).subrange(0, i as int), Seq::empty()),
        decreases headers.len() - i,
    {
        append_str(&mut out, headers[i].as_str());
        crate::text::push_char(&mut out, '\n');
        proof {
            let hs = views(headers@).subrange(0, i + 1);
            assert(hs.drop_last() =~= views(headers@).subrange(0, i as int));
            assert(hs.last() == headers@[i as int]@);
            assert(patch_of(hs, Seq::empty()) =~= patch_of(hs.drop_last(), Seq::empty()) + hs.last() + seq!['\n']);
        }
        i += 1;
    }
    append_str(&mut out, hunk.content.as_str());
    proof {
        let hs = views(headers@);
        assert(views(headers@).subrange(0, headers.len() as int) =~= hs);
        if hs.len() > 0 {
            assert(patch_of(hs, hunk.content@) =~= patch_of(hs, Seq::empty()) + hunk.content@);
        } else {
            assert(patch_of(hs, Seq::empty()) =~= Seq::empty());
            assert(out@ =~= hunk.content@);
        }
    }
    out
}

impl App {
    /// The selected row of the focused pane.
    pub fn get_selected_node(&self) -> (r: Option<&FlatNode>)
        ensures
            match r {
                Some(n) => selected_row(*self) == Some(*n),
                None => selected_row(*self).is_none(),
            },
    {
        let rows = match self.layout {
            crate::session::AppLayout::Split => match self.focus {
                crate::session::Focus::Staged => &self.staged_nodes,
                crate::session::Focus::Unstaged => &self.unstaged_nodes,
            },
            _ => &self.unified_nodes,
        };
        let f = App::filter_nodes(rows, self.search_query.as_str());
        assert(crate::session::derefs(f@) == self.shown());
        match self.selected() {
            Some(i) => {
                if i < f.len() {
                    Some(f[i])
                } else {
                    None
                }
            },
            None => None,
        }
    }

    /// What the diff view of the selected row asks for: its path, whether it
    /// is staged, and whether it is untracked. `None` for a directory or
    /// when nothing is selected.
    pub fn diff_target(&self) -> (r: Option<(String, bool, bool)>)
        ensures
            match selected_row(*self) {
                Some(n) => if n.is_dir {
                    r.is_none()
                } else {
                    r matches Some((p, staged, untracked)) && p@ == n.full_path@ && staged
                        == n.raw_status@.contains('+') && untracked == (n.raw_status@ == seq!['?', '?'])
                },
                None => r.is_none(),
            },
    {
        match self.get_selected_node() {
            Some(n) => {
                if n.is_dir {
                    None
                } else {
                    let st = crate::text::chars_of(n.raw_status.as_str());
                    Some((n.full_path.clone(), crate::status::code_has(&st, '+'), crate::status::code_is_untracked(&st)))
                }
            },
            None => None,
        }
    }

    /// Shows the outcome of a diff in the diff view. An empty diff of a
    /// tracked file shows a placeholder; a failure shows its message.
    #[verifier::rlimit(80)]
    pub fn show_diff(&mut self, outcome: Result<String, String>, untracked: bool)
        ensures
            final(self).view_mode == ViewMode::Diff,
            match outcome {
                Ok(text) => {
                    &&& final(self).diff_scroll == 0
                    &&& (text@.len() == 0 && !untracked ==> final(self).diff_content@ == "(No diff or binary file)"@)
                    &&& (text@.len() > 0 || untracked ==> final(self).diff_content@ == text@)
                    &&& *final(self) == (App { view_mode: ViewMode::Diff, diff_scroll: 0, diff_content: final(self).diff_content, ..*old(self) })
                },
                Err(msg) => {
                    &&& final(self).diff_content@ == "Error running git diff: "@ + msg@
                    &&& *final(self) == (App { view_mode: ViewMode::Diff, diff_content: final(self).diff_content, ..*old(self) })
                },
            },
    {
        match outcome {
            Ok(text) => {
                if text.as_str().is_empty() && !untracked {
                    self.diff_content = String::from_str("(No diff or binary file)");
                } else {
                    self.diff_content = text;
                }
                self.view_mode = ViewMode::Diff;
                self.diff_scroll = 0;
            },
            Err(msg) => {
                let mut s = String::from_str("Error running git diff: ");
                append_str(&mut s, msg.as_str());
                self.diff_content = s;
                self.view_mode = ViewMode::Diff;
            },
        }
    }

    /// Finds the diff lines that hold the search text, case and colours
    /// ignored, and jumps to the first.
    pub fn search_diff(&mut self)
        ensures
            old(self).diff_search_query@.len() == 0 ==> final(self).diff_matches@.len() == 0
                && final(self).current_diff_match.is_none()
                && final(self).diff_scroll == old(self).diff_scroll,
            old(self).diff_search_query@.len() > 0 ==> {
                let lines = lines_of(old(self).diff_content@);
                let m = matching_lines(lines, lower_of(old(self).diff_search_query@), lines.len() as int);
                &&& final(self).diff_matches@ == m
                &&& m.len() == 0 ==> final(self).current_diff_match.is_none() && final(self).diff_scroll == old(self).diff_scroll
                &&& m.len() > 0 ==> final(self).current_diff_match == Some(0usize) && final(self).diff_scroll == scroll_to(m[0] as int)
            },
            final(self).diff_content == old(self).diff_content,
            final(self).diff_search_query == old(self).diff_search_query,
    {
        self.diff_matches = Vec::new();
        self.current_diff_match = None;
        if self.diff_search_query.as_str().is_empty() {
            return;
        }
        let q = lowercase(self.diff_search_query.as_str());
        let lines = split_lines(self.diff_content.as_str());
        let ghost ls = char_views(lines@);
        let mut found: Vec<usize> = Vec::new();
        let mut i: usize = 0;
        while i < lines.len()
            invariant
                i <= lines.len(),
                ls == char_views(lines@),
                q@ == lower_of(self.diff_search_query@),
                found@ == matching_lines(ls, q@, i as int),
            decreases lines.len() - i,
        {
            let line = string_from(&lines[i]);
            assert(ls[i as int] == line@);
            let clean = lowercase(strip_ansi_codes(line.as_str()).as_str());
            if contains_text(clean.as_str(), q.as_str()) {
                found.push(i);
            }
            i += 1;
        }
        if found.len() > 0 {
            self.diff_scroll = to_scroll(found[0]);
            self.current_diff_match = Some(0);
        }
        self.diff_matches = found;
    }

    fn jump_to_diff_match(&mut self)
        ensures
            match old(self).current_diff_match {
                Some(i) => if i < old(self).diff_matches@.len() {
                    *final(self) == (App { diff_scroll: scroll_to(old(self).diff_matches@[i as int] as int), ..*old(self) })
                } else {
                    *final(self) == *old(self)
                },
                None => *final(self) == *old(self),
            },
    {
        match self.current_diff_match {
            Some(i) => {
                if i < self.diff_matches.len() {
                    self.diff_scroll = to_scroll(self.diff_matches[i]);
                }
            },
            None => {},
        }
    }

    /// Moves to the next search match, wrapping to the first.
    #[verifier::rlimit(80)]
    pub fn next_diff_match(&mut self)
        ensures
            old(self).diff_matches@.len() == 0 ==> *final(self) == *old(self),
            old(self).diff_matches@.len() > 0 ==> {
                let cur = match old(self).current_diff_match { Some(c) => c as int, None => 0 };
                let nxt = ((cur + 1) % old(self).diff_matches@.len() as int) as usize;
                *final(self) == (App {
                    current_diff_match: Some(nxt),
                    diff_scroll: scroll_to(old(self).diff_matches@[nxt as int] as int),
                    ..*old(self)
                })
            },
    {
        if self.diff_matches.len() == 0 {
            return;
        }
        let current = match self.current_diff_match {
            Some(c) => c,
            None => 0,
        };
        let len = self.diff_matches.len();
        let next = if len == 1 {
            0
        } else {
            (current % len + 1) % len
        };
        proof {
            if len == 1 {
                assert((current + 1) % 1 == 0) by (nonlinear_arith);
            } else {
                vstd::arithmetic::div_mod::lemma_small_mod(1, len as nat);
                vstd::arithmetic::div_mod::lemma_add_mod_noop(current as int, 1, len as int);
            }
        }
        self.current_diff_match = Some(next);
        self.jump_to_diff_match();
    }

    /// Moves to the previous search match, wrapping to the last.
    pub fn prev_diff_match(&mut self)
        ensures
            old(self).diff_matches@.len() == 0 ==> *final(self) == *old(self),
            old(self).diff_matches@.len() > 0 ==> {
                let cur = match old(self).current_diff_match { Some(c) => c as int, None => 0 };
                let prv = if cur == 0 { old(self).diff_matches@.len() - 1 } else { cur - 1 };
                let moved = (App { current_diff_match: Some(prv as usize), ..*old(self) });
                if prv < old(self).diff_matches@.len() {
                    *final(self) == (App { diff_scroll: scroll_to(old(self).diff_matches@[prv] as int), ..moved })
                } else {
                    *final(self) == moved
                }
            },
    {
        if self.diff_matches.len() == 0 {
            return;
        }
        let current = match self.current_diff_match {
            Some(c) => c,
            None => 0,
        };
        let prev = if current == 0 { self.diff_matches.len() - 1 } else { current - 1 };
        self.current_diff_match = Some(prev);
        self.jump_to_diff_match();
    }

    fn jump_to_hunk(&mut self)
        ensures
            match old(self).selected_hunk_idx {
                Some(i) => if i < old(self).diff_hunks@.len() {
                    *final(self) == (App { diff_scroll: scroll_to(old(self).diff_hunks@[i as int].display_start as int), ..*old(self) })
                } else {
                    *final(self) == *old(self)
                },
                None => *final(self) == *old(self),
            },
    {
        match self.selected_hunk_idx {
            Some(i) => {
                if i < self.diff_hunks.len() {
                    self.diff_scroll = to_scroll(self.diff_hunks[i].display_start);
                }
            },
            None => {},
        }
    }

    /// In the diff view, turns patch mode on (splitting the shown diff into
    /// headers and hunks and selecting the first hunk) or off (forgetting
    /// them).
    pub fn toggle_patch_mode(&mut self)
        ensures
            old(self).view_mode != ViewMode::Diff ==> *final(self) == *old(self),
            old(self).view_mode == ViewMode::Diff && old(self).patch_mode ==> {
                &&& !final(self).patch_mode
                &&& final(self).diff_headers@.len() == 0
                &&& final(self).diff_hunks@.len() == 0
                &&& final(self).selected_hunk_idx.is_none()
                &&& final(self).diff_scroll == old(self).diff_scroll
            },
            old(self).view_mode == ViewMode::Diff && !old(self).patch_mode ==> {
                let lines = lines_of(old(self).diff_content@);
                let first = crate::hunk::next_marker(lines, 0);
                &&& final(self).patch_mode
                &&& views(final(self).diff_headers@) == lines.subrange(0, first)
                &&& final(self).diff_hunks@.map_values(|h: Hunk| h.model()) == crate::hunk::hunks_from(lines, first)
                &&& final(self).diff_hunks@.len() > 0 ==> final(self).selected_hunk_idx == Some(0usize)
                    && final(self).diff_scroll == scroll_to(final(self).diff_hunks@[0].display_start as int)
            },
            final(self).diff_content == old(self).diff_content,
            final(self).view_mode == old(self).view_mode,
    {
        if self.view_mode != ViewMode::Diff {
            return;
        }
        self.patch_mode = !self.patch_mode;
        if self.patch_mode {
            let (headers, hunks) = parse_diff(self.diff_content.as_str());
            self.diff_headers = headers;
            self.diff_hunks = hunks;
            if self.diff_hunks.len() > 0 {
                self.selected_hunk_idx = Some(0);
                self.jump_to_hunk();
            }
        } else {
            self.diff_headers = Vec::new();
            self.diff_hunks = Vec::new();
            self.selected_hunk_idx = None;
        }
    }

    /// Selects the next hunk, if there is one.
    pub fn next_hunk(&mut self)
        ensures
            match old(self).selected_hunk_idx {
                Some(i) => if i + 1 < old(self).diff_hunks@.len() {
                    *final(self) == (App {
                        selected_hunk_idx: Some((i + 1) as usize),
                        diff_scroll: scroll_to(old(self).diff_hunks@[i + 1].display_start as int),
                        ..*old(self)
                    })
                } else {
                    *final(self) == *old(self)
                },
                None => *final(self) == *old(self),
            },
    {
        match self.selected_hunk_idx {
            Some(i) => {
                if i < self.diff_hunks.len() && i + 1 < self.diff_hunks.len() {
                    self.selected_hunk_idx = Some(i + 1);
                    self.jump_to_hunk();
                }
            },
            None => {},
        }
    }

    /// Selects the previous hunk, if there is one.
    pub fn prev_hunk(&mut self)
        ensures
            match old(self).selected_hunk_idx {
                Some(i) => if i > 0 {
                    let moved = (App { selected_hunk_idx: Some((i - 1) as usize), ..*old(self) });
                    if i - 1 < old(self).diff_hunks@.len() {
                        *final(self) == (App { diff_scroll: scroll_to(old(self).diff_hunks@[i - 1].display_start as int), ..moved })
                    } else {
                        *final(self) == moved
                    }
                } else {
                    *final(self) == *old(self)
                },
                None => *final(self) == *old(self),
            },
    {
        match self.selected_hunk_idx {
            Some(i) => {
                if i > 0 {
                    self.selected_hunk_idx = Some(i - 1);
                    self.jump_to_hunk();
                }
            },
            None => {},
        }
    }

    /// The patch that stages the selected hunk, when one is selected.
    pub fn selected_hunk_patch(&self) -> (r: Option<String>)
        ensures
            match self.selected_hunk_idx {
                Some(i) => if i < self.diff_hunks@.len() {
                    r matches Some(p) && p@ == patch_of(views(self.diff_headers@), self.diff_hunks@[i as int].content@)
                } else {
                    r.is_none()
                },
                None => r.is_none(),
            },
    {
        match self.selected_hunk_idx {
            Some(i) => {
                if i < self.diff_hunks.len() {
                    Some(patch_text(&self.diff_headers, &self.diff_hunks[i]))
                } else {
                    None
                }
            },
            None => None,
        }
    }
}

} // verus!

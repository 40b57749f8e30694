use vstd::prelude::*;

use crate::text::{char_views, index_of, lemma_index_of, lines_of, same_text, split_lines, string_of};

verus! {

/// One linked checkout of the repository, as the worktree listing reports it.
#[derive(Debug, Clone)]
pub struct Worktree {
    pub path: String,
    pub head: String,
    pub branch: String,
}

pub struct WorktreeModel {
    pub path: Seq<char>,
    pub head: Seq<char>,
    pub branch: Seq<char>,
}

impl Worktree {
    pub open spec fn model(&self) -> WorktreeModel {
        WorktreeModel { path: self.path@, head: self.head@, branch: self.branch@ }
    }
}

pub open spec fn blank_worktree() -> WorktreeModel {
    WorktreeModel { path: Seq::empty(), head: Seq::empty(), branch: Seq::empty() }
}

/// The effect of one listing line on the records finished so far and the
/// one being read: a blank line finishes a record that has a path; a
/// `worktree`, `HEAD` or `branch` line sets that field; other lines are
/// ignored.
pub open spec fn worktree_step(st: (Seq<WorktreeModel>, WorktreeModel), line: Seq<char>) -> (Seq<WorktreeModel>, WorktreeModel) {
    let (done, cur) = st;
    if line.len() == 0 {
        if cur.path.len() > 0 {
            (done.push(cur), blank_worktree())
        } else {
            (done, cur)
        }
    } else {
        let k = index_of(line, ' ');
        if k >= line.len() {
            (done, cur)
        } else {
            let key = line.subrange(0, k);
            let val = line.subrange(k + 1, line.len() as int);
            if key == "worktree"@ {
                (done, WorktreeModel { path: val, ..cur })
            } else if key == "HEAD"@ {
                (done, WorktreeModel { head: val, ..cur })
            } else if key == "branch"@ {
                (done, WorktreeModel { branch: val, ..cur })
            } else {
                (done, cur)
            }
        }
    }
}

/// The state after the first `k` lines.
pub open spec fn worktree_scan(lines: Seq<Seq<char>>, k: int) -> (Seq<WorktreeModel>, WorktreeModel)
    decreases k,
{
    if k <= 0 {
        (Seq::empty(), blank_worktree())
    } else {
        worktree_step(worktree_scan(lines, k - 1), lines[k - 1])
    }
}

/// The records of a whole listing; a last record with a path counts even
/// without a blank line after it.
pub open spec fn worktrees_of(text: Seq<char>) -> Seq<WorktreeModel> {
    let lines = lines_of(text);
    let (done, cur) = worktree_scan(lines, lines.len() as int);
    if cur.path.len() > 0 {
        done.push(cur)
    } else {
        done
    }
}

fn first_space(line: &Vec<char>) -> (r: usize)
    ensures
        r as int == index_of(line@, ' '),
        r <= line.len(),
{
    let mut k: usize = 0;
    while k < line.len() && line[k] != ' '
        invariant
            k <= line.len(),
            forall|j: int| 0 <= j < k ==> line@[j] != ' ',
        decreases line.len() - k,
    {
        k += 1;
    }
    proof {
        lemma_index_of(line@, ' ', k as int);
    }
    k
}

/// Reads the records of a worktree listing.
pub fn parse_worktrees(stdout: &str) -> (r: Vec<Worktree>)
    ensures
        r@.map_values(|w: Worktree| w.model()) == worktrees_of(stdout@),
{
    let lines = split_lines(stdout);
    let ghost ls = char_views(lines@);
    let mut done: Vec<Worktree> = Vec::new();
    let mut path = String::new();
    let mut head = String::new();
    let mut branch = String::new();
    let mut i: usize = 0;
    while i < lines.len()
        invariant
            ls == char_views(lines@),
            i <= lines.len(),
            worktree_scan(ls, i as int) == (done@.map_values(|w: Worktree| w.model()), WorktreeModel { path: path@, head: head@, branch: branch@ }),
        decreases lines.len() - i,
    {
        let line = &lines[i];
        assert(ls[i as int] == line@);
        let ghost before = done@;
        if line.len() == 0 {
            if !path.as_str().is_empty() {
                done.push(Worktree { path, head, branch });
                path = String::new();
                head = String::new();
                branch = String::new();
                assert(done@.map_values(|w: Worktree| w.model()) =~= before.map_values(|w: Worktree| w.model()).push(
                    done@[done.len() - 1].model(),
                ));
                assert(WorktreeModel { path: path@, head: head@, branch: branch@ } =~= blank_worktree());
            }
        } else {
            let k = first_space(line);
            if k < line.len() {
                let key = string_of(line, 0, k);
                let val = string_of(line, k + 1, line.len());
                if same_text(key.as_str(), "worktree") {
                    path = val;
                } else if same_text(key.as_str(), "HEAD") {
                    head = val;
                } else if same_text(key.as_str(), "branch") {
                    branch = val;
                }
            }
        }
        i += 1;
    }
    if !path.as_str().is_empty() {
        let ghost before = done@;
        done.push(Worktree { path, head, branch });
        assert(done@.map_values(|w: Worktree| w.model()) =~= before.map_values(|w: Worktree| w.model()).push(
            done@[done.len() - 1].model(),
        ));
    }
    done
}

} // verus!

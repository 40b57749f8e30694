use vstd::prelude::*;

use crate::text::{clone_strings, views};

verus! {

/// Direction of a staging action.
#[derive(Debug, Clone, Copy, PartialEq, Eq, Structural)]
pub enum StageAction {
    Stage,
    Unstage,
}

impl StageAction {
    /// The action that undoes this one.
    pub open spec fn inverse(self) -> StageAction {
        match self {
            StageAction::Stage => StageAction::Unstage,
            StageAction::Unstage => StageAction::Stage,
        }
    }
}

/// One recorded staging step: the paths it touched and what was done to them.
#[derive(Debug)]
pub struct HistoryEntry {
    pub paths: Vec<String>,
    pub action: StageAction,
}

/// Mathematical view of a history entry.
pub struct EntryModel {
    pub paths: Seq<Seq<char>>,
    pub action: StageAction,
}

impl HistoryEntry {
    pub open spec fn model(&self) -> EntryModel {
        EntryModel { paths: views(self.paths@), action: self.action }
    }

    /// A copy of the entry with the same paths and action.
    pub fn duplicate(&self) -> (r: HistoryEntry)
        ensures
            r.model() == self.model(),
    {
        let paths = clone_strings(&self.paths);
        HistoryEntry { paths, action: self.action }
    }
}

/// The effect of an action on the set of staged paths.
pub open spec fn apply_action(
    staged: Set<Seq<char>>,
    paths: Seq<Seq<char>>,
    action: StageAction,
) -> Set<Seq<char>> {
    match action {
        StageAction::Stage => staged.union(paths.to_set()),
        StageAction::Unstage => staged.difference(paths.to_set()),
    }
}

/// Linear undo/redo history of staging actions.
pub struct ActionHistory {
    pub undo_stack: Vec<HistoryEntry>,
    pub redo_stack: Vec<HistoryEntry>,
}

impl ActionHistory {
    /// The undo stack, oldest entry first.
    pub open spec fn undo_model(&self) -> Seq<EntryModel> {
        self.undo_stack@.map_values(|e: HistoryEntry| e.model())
    }

    /// The redo stack, oldest entry first.
    pub open spec fn redo_model(&self) -> Seq<EntryModel> {
        self.redo_stack@.map_values(|e: HistoryEntry| e.model())
    }

    pub fn new() -> (r: ActionHistory)
        ensures
            r.undo_model().len() == 0,
            r.redo_model().len() == 0,
    {
        let r = ActionHistory { undo_stack: Vec::new(), redo_stack: Vec::new() };
        assert(r.undo_model() =~= Seq::empty());
        assert(r.redo_model() =~= Seq::empty());
        r
    }

    /// Number of entries that can be undone.
    pub fn undo_len(&self) -> (r: usize)
        ensures
            r == self.undo_model().len(),
    {
        self.undo_stack.len()
    }

    /// Number of entries that can be redone.
    pub fn redo_len(&self) -> (r: usize)
        ensures
            r == self.redo_model().len(),
    {
        self.redo_stack.len()
    }

    /// Records a fresh action; the redo stack is cleared.
    pub fn push_action(&mut self, paths: Vec<String>, action: StageAction)
        ensures
            final(self).undo_model() == old(self).undo_model().push(
                EntryModel { paths: views(paths@), action },
            ),
            final(self).redo_model().len() == 0,
    {
        let ghost e = HistoryEntry { paths, action }.model();
        self.undo_stack.push(HistoryEntry { paths, action });
        self.redo_stack.clear();
        assert(self.undo_model() =~= old(self).undo_model().push(e));
        assert(self.redo_model() =~= Seq::empty());
    }

    /// Takes the latest entry off the undo stack and moves it onto the redo
    /// stack; `None` when there is nothing to undo.
    pub fn undo(&mut self) -> (r: Option<HistoryEntry>)
        ensures
            old(self).undo_model().len() == 0 ==> r.is_none() && final(self).undo_model() == old(self).undo_model()
                && final(self).redo_model() == old(self).redo_model(),
            old(self).undo_model().len() > 0 ==> {
                &&& r.is_some()
                &&& r.unwrap().model() == old(self).undo_model().last()
                &&& final(self).undo_model() == old(self).undo_model().drop_last()
                &&& final(self).redo_model() == old(self).redo_model().push(
                    old(self).undo_model().last(),
                )
            },
    {
        match self.undo_stack.pop() {
            None => None,
            Some(entry) => {
                let copy = entry.duplicate();
                self.redo_stack.push(copy);
                assert(self.undo_model() =~= old(self).undo_model().drop_last());
                assert(self.redo_model() =~= old(self).redo_model().push(
                    old(self).undo_model().last(),
                ));
                Some(entry)
            },
        }
    }

    /// Takes the latest entry off the redo stack and moves it back onto the
    /// undo stack; `None` when there is nothing to redo.
    pub fn redo(&mut self) -> (r: Option<HistoryEntry>)
        ensures
            old(self).redo_model().len() == 0 ==> r.is_none() && final(self).undo_model() == old(self).undo_model()
                && final(self).redo_model() == old(self).redo_model(),
            old(self).redo_model().len() > 0 ==> {
                &&& r.is_some()
                &&& r.unwrap().model() == old(self).redo_model().last()
                &&& final(self).redo_model() == old(self).redo_model().drop_last()
                &&& final(self).undo_model() == old(self).undo_model().push(
                    old(self).redo_model().last(),
                )
            },
    {
        match self.redo_stack.pop() {
            None => None,
            Some(entry) => {
                let copy = entry.duplicate();
                self.undo_stack.push(copy);
                assert(self.redo_model() =~= old(self).redo_model().drop_last());
                assert(self.undo_model() =~= old(self).undo_model().push(
                    old(self).redo_model().last(),
                ));
                Some(entry)
            },
        }
    }

    /// Forgets every entry.
    pub fn clear(&mut self)
        ensures
            final(self).undo_model().len() == 0,
            final(self).redo_model().len() == 0,
    {
        self.undo_stack.clear();
        self.redo_stack.clear();
        assert(self.undo_model() =~= Seq::empty());
        assert(self.redo_model() =~= Seq::empty());
    }
}

impl Default for ActionHistory {
    fn default() -> (r: ActionHistory)
        ensures
            r.undo_model().len() == 0,
            r.redo_model().len() == 0,
    {
        ActionHistory::new()
    }
}

/// Undoing an entry and redoing it at once leaves both stacks as they were,
/// hands back the same entry both times, and, applied to a set of staged
/// paths in which that entry's effect holds, restores that exact set.
pub proof fn lemma_undo_then_redo(
    undo_before: Seq<EntryModel>,
    redo_before: Seq<EntryModel>,
    staged: Set<Seq<char>>,
)
    requires
        undo_before.len() > 0,
        apply_action(staged, undo_before.last().paths, undo_before.last().action) == staged,
    ensures
        ({
            let e = undo_before.last();
            let undo_mid = undo_before.drop_last();
            let redo_mid = redo_before.push(e);
            let e2 = redo_mid.last();
            let undo_after = undo_mid.push(e2);
            let redo_after = redo_mid.drop_last();
            let after_undo = apply_action(staged, e.paths, e.action.inverse());
            &&& e2 == e
            &&& undo_after == undo_before
            &&& redo_after == redo_before
            &&& apply_action(after_undo, e2.paths, e2.action) == staged
        }),
{
    let e = undo_before.last();
    assert(undo_before.drop_last().push(e) =~= undo_before);
    assert(redo_before.push(e).drop_last() =~= redo_before);
    let p = e.paths.to_set();
    let after_undo = apply_action(staged, e.paths, e.action.inverse());
    match e.action {
        StageAction::Stage => {
            assert(apply_action(after_undo, e.paths, e.action) =~= staged.union(p));
        },
        StageAction::Unstage => {
            assert(apply_action(after_undo, e.paths, e.action) =~= staged.difference(p));
        },
    }
}

impl ActionHistory {
    /// Undoes the latest entry: returns its paths and whether they must now
    /// be unstaged (the inverse of the recorded action), and moves the
    /// entry to the redo stack.
    pub fn undo_plan(&mut self) -> (r: Option<(Vec<String>, bool)>)
        ensures
            old(self).undo_model().len() == 0 ==> r.is_none() && final(self).undo_model() == old(self).undo_model()
                && final(self).redo_model() == old(self).redo_model(),
            old(self).undo_model().len() > 0 ==> {
                let e = old(self).undo_model().last();
                &&& r matches Some((paths, unstage)) && views(paths@) == e.paths
                    && unstage == (e.action.inverse() == StageAction::Unstage)
                &&& final(self).undo_model() == old(self).undo_model().drop_last()
                &&& final(self).redo_model() == old(self).redo_model().push(e)
            },
    {
        match self.undo() {
            Some(entry) => {
                let unstage = match entry.action {
                    StageAction::Stage => true,
                    StageAction::Unstage => false,
                };
                Some((entry.paths, unstage))
            },
            None => None,
        }
    }

    /// Redoes the latest undone entry: returns its paths and whether they
    /// must be unstaged (as the recorded action says), and moves the entry
    /// back to the undo stack.
    pub fn redo_plan(&mut self) -> (r: Option<(Vec<String>, bool)>)
        ensures
            old(self).redo_model().len() == 0 ==> r.is_none() && final(self).undo_model() == old(self).undo_model()
                && final(self).redo_model() == old(self).redo_model(),
            old(self).redo_model().len() > 0 ==> {
                let e = old(self).redo_model().last();
                &&& r matches Some((paths, unstage)) && views(paths@) == e.paths
                    && unstage == (e.action == StageAction::Unstage)
                &&& final(self).redo_model() == old(self).redo_model().drop_last()
                &&& final(self).undo_model() == old(self).undo_model().push(e)
            },
    {
        match self.redo() {
            Some(entry) => {
                let unstage = match entry.action {
                    StageAction::Stage => false,
                    StageAction::Unstage => true,
                };
                Some((entry.paths, unstage))
            },
            None => None,
        }
    }
}

} // verus!

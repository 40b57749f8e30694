use vstd::prelude::*;

use crate::config::Action;
use crate::actions::min_int;
use crate::session::{dir_flags, next_file_scan, prev_file_scan, step_down, step_up, App, AppLayout, ViewMode};
use crate::text::{pop_char, push_char};

verus! {

/// A key press, as far as the session tells keys apart.
#[derive(Debug, Clone, Copy, PartialEq, Eq, Structural)]
pub enum Key {
    Char(char),
    Enter,
    Esc,
    Backspace,
    Tab,
    Up,
    Down,
    Left,
    Right,
    Other,
}

/// Work a key asks for that the session cannot do by itself: it needs the
/// version-control tool, the clipboard, or ends the program.
#[derive(Debug, Clone, Copy, PartialEq, Eq, Structural)]
pub enum Effect {
    Nothing,
    Quit,
    CollapseNode,
    CollapseAll,
    ExpandNode,
    ExpandAll,
    ToggleStage,
    ToggleFilter,
    ToggleLayout,
    ToggleTheme,
    ShowDiff,
    YankPath,
}

/// The action a key stands for once two-key sequences (`gg`, `zz`) and
/// Ctrl-u / Ctrl-d are taken into account, with the new pending key; `None`
/// as first component when the key only starts a sequence.
pub open spec fn resolve(pending: Option<char>, key: Key, ctrl: bool, bound: Option<Action>) -> (Option<Option<Action>>, Option<char>) {
    let (act, next, starts) = match key {
        Key::Char(c) => match pending {
            Some(p) => if p == 'g' && c == 'g' {
                (Some(Action::JumpToTop), None, false)
            } else if p == 'z' && c == 'z' {
                (Some(Action::CenterView), None, false)
            } else {
                (bound, None, false)
            },
            None => if c == 'g' || c == 'z' {
                (bound, Some(c), true)
            } else {
                (bound, None, false)
            },
        },
        _ => (bound, None, false),
    };
    if starts {
        (None, next)
    } else if ctrl && key == Key::Char('u') {
        (Some(Some(Action::PageUp)), next)
    } else if ctrl && key == Key::Char('d') {
        (Some(Some(Action::PageDown)), next)
    } else {
        (Some(act), next)
    }
}

/// The outside work an action asks for in the given view and layout.
pub open spec fn effect_of(view: ViewMode, layout: AppLayout, action: Action) -> Effect {
    match view {
        ViewMode::Tree => match action {
            Action::Quit => Effect::Quit,
            Action::Collapse => Effect::CollapseNode,
            Action::CollapseAll => Effect::CollapseAll,
            Action::Expand => Effect::ExpandNode,
            Action::ExpandAll => Effect::ExpandAll,
            Action::Stage => Effect::ToggleStage,
            Action::Filter => if layout == AppLayout::Unified {
                Effect::ToggleFilter
            } else {
                Effect::Nothing
            },
            Action::Layout => Effect::ToggleLayout,
            Action::Theme => Effect::ToggleTheme,
            Action::Diff => Effect::ShowDiff,
            Action::YankPath => Effect::YankPath,
            _ => Effect::Nothing,
        },
        ViewMode::Diff => Effect::Nothing,
    }
}

/// The session after moving down one row, as `next` does.
pub open spec fn after_next(o: App) -> App {
    if o.shown().len() == 0 {
        o
    } else {
        let (i, hb, ht) = step_down(o.shown().len() as int, o.active_sel(), o.hit_bottom_edge, o.hit_top_edge);
        (App { hit_bottom_edge: hb, hit_top_edge: ht, ..o }).with_sel(Some(i))
    }
}

/// The session after moving up one row, as `previous` does.
pub open spec fn after_previous(o: App) -> App {
    if o.shown().len() == 0 {
        o
    } else {
        let (i, hb, ht) = step_up(o.shown().len() as int, o.active_sel(), o.hit_bottom_edge, o.hit_top_edge);
        (App { hit_bottom_edge: hb, hit_top_edge: ht, ..o }).with_sel(Some(i))
    }
}

/// The session after `next_file`.
pub open spec fn after_next_file(o: App) -> App {
    let dirs = dir_flags(o.shown());
    if dirs.len() == 0 {
        o
    } else {
        let start = match o.active_sel() {
            Some(i) => i as int,
            None => 0,
        };
        let (landed, hb) = next_file_scan(dirs, start, o.hit_bottom_edge, dirs.len());
        let moved = (App { hit_top_edge: false, hit_bottom_edge: hb, ..o });
        match landed {
            Some(k) => moved.with_sel(Some(k as usize)),
            None => moved,
        }
    }
}

/// The session after `previous_file`.
pub open spec fn after_previous_file(o: App) -> App {
    let dirs = dir_flags(o.shown());
    if dirs.len() == 0 {
        o
    } else {
        let start = match o.active_sel() {
            Some(i) => i as int,
            None => 0,
        };
        let (landed, ht) = prev_file_scan(dirs, start, o.hit_top_edge, dirs.len());
        let moved = (App { hit_bottom_edge: false, hit_top_edge: ht, ..o });
        match landed {
            Some(k) => moved.with_sel(Some(k as usize)),
            None => moved,
        }
    }
}

/// The session after `jump_to_bottom`.
pub open spec fn after_bottom(o: App) -> App {
    let cleared = (App { hit_top_edge: false, hit_bottom_edge: false, ..o });
    if o.shown().len() > 0 {
        cleared.with_sel(Some((o.shown().len() - 1) as usize))
    } else {
        cleared
    }
}

/// The selection `scroll_paging(amount)` lands on.
pub open spec fn paged(o: App, amount: int) -> App {
    let len = o.shown().len() as int;
    if len == 0 {
        o
    } else {
        let target: int = match o.active_sel() {
            None => 0,
            Some(i) => if amount > 0 {
                min_int(i + amount, len - 1)
            } else if i + amount > 0 {
                i + amount
            } else {
                0
            },
        };
        o.with_sel(Some(target as usize))
    }
}

/// The session after `toggle_visual_mode`.
pub open spec fn after_visual_toggle(o: App) -> App {
    if o.is_visual_mode {
        (App { is_visual_mode: false, visual_origin: None, ..o })
    } else {
        match o.active_sel() {
            Some(i) => (App { is_visual_mode: true, visual_origin: Some(i), ..o }),
            None => o,
        }
    }
}

/// What the tree view does to the session for an action; actions that need
/// outside work leave it unchanged here.
pub open spec fn tree_step(o: App, a: Action, n: App) -> bool {
    match a {
        Action::MoveDown => n == after_next(o),
        Action::MoveUp => n == after_previous(o),
        Action::NextFile => n == after_next_file(o),
        Action::PrevFile => n == after_previous_file(o),
        Action::JumpToTop => n == (App { hit_top_edge: false, hit_bottom_edge: false, ..o }).with_sel(Some(0)),
        Action::JumpToBottom => n == after_bottom(o),
        Action::PageUp => n == paged(o, -15),
        Action::PageDown => n == paged(o, 15),
        Action::Search => n == (App { is_typing_search: true, ..o }),
        Action::SwitchPane => if o.layout == AppLayout::Split {
            n == (App { focus: o.focus.spec_next(), ..o })
        } else {
            n == o
        },
        Action::Help => n == (App { show_help: !o.show_help, help_scroll: 0, is_diff_search: false, ..o }),
        Action::Back => if o.show_help {
            n == (App { show_help: false, ..o })
        } else if o.is_visual_mode {
            n == (App { is_visual_mode: false, visual_origin: None, ..o })
        } else {
            n.search_query@.len() == 0 && n == (App {
                search_query: n.search_query,
                staged_state: Some(0),
                unstaged_state: Some(0),
                unified_state: Some(0),
                ..o
            })
        },
        Action::VisualMode => n == after_visual_toggle(o),
        _ => n == o,
    }
}

/// The diff offset after scrolling by `amount`, within `u16`.
pub open spec fn scrolled(at: u16, amount: int) -> u16 {
    if at + amount < 0 {
        0
    } else if at + amount > u16::MAX {
        u16::MAX
    } else {
        (at + amount) as u16
    }
}

/// What the diff view does to the session for an action.
pub open spec fn diff_step(o: App, a: Action, n: App) -> bool {
    match a {
        Action::Quit | Action::Back | Action::Diff => n.diff_content@.len() == 0 && n == (App {
            view_mode: ViewMode::Tree,
            diff_content: n.diff_content,
            ..o
        }),
        Action::MoveDown => n == (App { diff_scroll: scrolled(o.diff_scroll, 1), ..o }),
        Action::MoveUp => n == (App { diff_scroll: scrolled(o.diff_scroll, -1), ..o }),
        Action::PageUp => n == (App { diff_scroll: scrolled(o.diff_scroll, -15), ..o }),
        Action::PageDown => n == (App { diff_scroll: scrolled(o.diff_scroll, 15), ..o }),
        Action::JumpToTop => n == (App { diff_scroll: scrolled(o.diff_scroll, -1000), ..o }),
        _ => n == o,
    }
}

impl App {
    /// Edits the search being typed.
    fn edit_search(&mut self, key: Key)
        ensures
            key == Key::Esc ==> !final(self).is_typing_search && final(self).search_query@.len() == 0,
            key == Key::Enter ==> !final(self).is_typing_search && final(self).search_query == old(self).search_query,
            key matches Key::Char(c) ==> final(self).search_query@ == old(self).search_query@.push(c)
                && final(self).unified_state == Some(0usize),
            key == Key::Backspace ==> final(self).search_query@ == if old(self).search_query@.len() > 0 {
                old(self).search_query@.drop_last()
            } else {
                old(self).search_query@
            },
    {
        match key {
            Key::Char(c) => {
                push_char(&mut self.search_query, c);
                self.reset_selection();
            },
            Key::Backspace => {
                pop_char(&mut self.search_query);
                self.reset_selection();
            },
            Key::Esc => {
                self.is_typing_search = false;
                self.search_query = String::new();
                self.reset_selection();
            },
            Key::Enter => {
                self.is_typing_search = false;
            },
            _ => {},
        }
    }

    /// Resolves a key to its action, keeping track of a pending `g` or `z`.
    fn resolve_key(&mut self, key: Key, ctrl: bool, bound: Option<Action>) -> (r: Option<Option<Action>>)
        ensures
            r == resolve(old(self).pending_key, key, ctrl, bound).0,
            *final(self) == (App { pending_key: resolve(old(self).pending_key, key, ctrl, bound).1, ..*old(self) }),
    {
        let mut action = bound;
        match key {
            Key::Char(c) => {
                match self.pending_key {
                    Some(p) => {
                        if p == 'g' && c == 'g' {
                            action = Some(Action::JumpToTop);
                        } else if p == 'z' && c == 'z' {
                            action = Some(Action::CenterView);
                        }
                        self.pending_key = None;
                    },
                    None => {
                        if c == 'g' || c == 'z' {
                            self.pending_key = Some(c);
                            return None;
                        }
                    },
                }
            },
            _ => {
                self.pending_key = None;
            },
        }
        if ctrl {
            if key == Key::Char('u') {
                action = Some(Action::PageUp);
            } else if key == Key::Char('d') {
                action = Some(Action::PageDown);
            }
        }
        Some(action)
    }

    /// Carries out an action in the tree view.
    fn tree_action(&mut self, a: Action) -> (r: Effect)
        ensures
            r == effect_of(ViewMode::Tree, old(self).layout, a),
            tree_step(*old(self), a, *final(self)),
    {
        let effect = match a {
            Action::Quit => Effect::Quit,
            Action::Collapse => Effect::CollapseNode,
            Action::CollapseAll => Effect::CollapseAll,
            Action::Expand => Effect::ExpandNode,
            Action::ExpandAll => Effect::ExpandAll,
            Action::Stage => Effect::ToggleStage,
            Action::Filter => {
                if self.layout == AppLayout::Unified {
                    Effect::ToggleFilter
                } else {
                    Effect::Nothing
                }
            },
            Action::Layout => Effect::ToggleLayout,
            Action::Theme => Effect::ToggleTheme,
            Action::Diff => Effect::ShowDiff,
            Action::YankPath => Effect::YankPath,
            _ => Effect::Nothing,
        };
        self.tree_modes(a);
        self.tree_moves(a);
        effect
    }

    /// The tree-view actions that move the selection.
    #[verifier::rlimit(100)]
    fn tree_moves(&mut self, a: Action)
        ensures
            (a == Action::MoveDown || a == Action::MoveUp || a == Action::NextFile || a == Action::PrevFile
                || a == Action::JumpToTop || a == Action::JumpToBottom || a == Action::PageUp || a == Action::PageDown)
                ==> tree_step(*old(self), a, *final(self)),
            !(a == Action::MoveDown || a == Action::MoveUp || a == Action::NextFile || a == Action::PrevFile
                || a == Action::JumpToTop || a == Action::JumpToBottom || a == Action::PageUp || a == Action::PageDown)
                ==> *final(self) == *old(self),
    {
        match a {
            Action::MoveDown => self.next(),
            Action::MoveUp => self.previous(),
            Action::NextFile => self.next_file(),
            Action::PrevFile => self.previous_file(),
            Action::JumpToTop => self.jump_to_top(),
            Action::JumpToBottom => self.jump_to_bottom(),
            Action::PageUp => self.scroll_paging(-15),
            Action::PageDown => self.scroll_paging(15),
            _ => {},
        }
    }

    /// The tree-view actions that switch modes and panes.
    #[verifier::rlimit(100)]
    fn tree_modes(&mut self, a: Action)
        ensures
            (a == Action::Search || a == Action::SwitchPane || a == Action::Help || a == Action::Back
                || a == Action::VisualMode) ==> tree_step(*old(self), a, *final(self)),
            !(a == Action::Search || a == Action::SwitchPane || a == Action::Help || a == Action::Back
                || a == Action::VisualMode) ==> *final(self) == *old(self),
    {
        match a {
            Action::Search => {
                self.is_typing_search = true;
            },
            Action::SwitchPane => {
                if self.layout == AppLayout::Split {
                    self.toggle_focus();
                }
            },
            Action::Help => self.toggle_help(),
            Action::Back => {
                if self.show_help {
                    self.show_help = false;
                } else if self.is_visual_mode {
                    self.leave_visual();
                } else {
                    self.search_query = String::new();
                    self.reset_selection();
                }
            },
            Action::VisualMode => self.toggle_visual_mode(),
            _ => {},
        }
    }

    /// Carries out an action in the diff view.
    fn diff_action(&mut self, a: Action)
        ensures
            diff_step(*old(self), a, *final(self)),
    {
        match a {
            Action::Quit | Action::Back | Action::Diff => self.close_diff(),
            Action::MoveDown => self.scroll_diff(1),
            Action::MoveUp => self.scroll_diff(-1),
            Action::PageUp => self.scroll_diff(-15),
            Action::PageDown => self.scroll_diff(15),
            Action::JumpToTop => self.scroll_diff(-1000),
            _ => {},
        }
    }

    /// Handles one key press. `bound` is the action the key is bound to,
    /// `ctrl` whether Control was held. While a search is being typed the
    /// key edits the query; otherwise the resolved action updates the
    /// session, and the returned effect names the outside work it needs.
    pub fn handle_key(&mut self, key: Key, ctrl: bool, bound: Option<Action>) -> (r: Effect)
        ensures
            ({
                let (res, pend) = resolve(old(self).pending_key, key, ctrl, bound);
                let mid = (App { pending_key: pend, ..*old(self) });
                !old(self).is_typing_search ==> match res {
                    Some(Some(a)) => match old(self).view_mode {
                        ViewMode::Tree => tree_step(mid, a, *final(self)),
                        ViewMode::Diff => diff_step(mid, a, *final(self)),
                    },
                    _ => *final(self) == mid,
                }
            }),
            old(self).is_typing_search ==> r == Effect::Nothing,
            old(self).is_typing_search && key == Key::Esc ==> !final(self).is_typing_search
                && final(self).search_query@.len() == 0,
            old(self).is_typing_search && key == Key::Enter ==> !final(self).is_typing_search
                && final(self).search_query == old(self).search_query,
            old(self).is_typing_search ==> (key matches Key::Char(c) ==> final(self).search_query@
                == old(self).search_query@.push(c) && final(self).unified_state == Some(0usize)),
            old(self).is_typing_search && key == Key::Backspace ==> final(self).search_query@ == if old(
                self,
            ).search_query@.len() > 0 {
                old(self).search_query@.drop_last()
            } else {
                old(self).search_query@
            },
            !old(self).is_typing_search ==> final(self).pending_key == resolve(old(self).pending_key, key, ctrl, bound).1,
            !old(self).is_typing_search ==> match resolve(old(self).pending_key, key, ctrl, bound).0 {
                Some(Some(a)) => r == effect_of(old(self).view_mode, old(self).layout, a),
                _ => r == Effect::Nothing,
            },
            !old(self).is_typing_search && old(self).view_mode == ViewMode::Tree && resolve(old(self).pending_key, key, ctrl, bound).0
                == Some(Some(Action::Search)) ==> final(self).is_typing_search,
            !old(self).is_typing_search && old(self).view_mode == ViewMode::Diff && (resolve(old(self).pending_key, key, ctrl, bound).0
                == Some(Some(Action::Quit)) || resolve(old(self).pending_key, key, ctrl, bound).0 == Some(Some(Action::Back))
                || resolve(old(self).pending_key, key, ctrl, bound).0 == Some(Some(Action::Diff))) ==> final(self).view_mode
                == ViewMode::Tree,
    {
        if self.is_typing_search {
            self.edit_search(key);
            return Effect::Nothing;
        }
        let layout = self.layout;
        match self.resolve_key(key, ctrl, bound) {
            Some(Some(a)) => {
                match self.view_mode {
                    ViewMode::Tree => {
                        assert(self.layout == layout);
                        self.tree_action(a)
                    },
                    ViewMode::Diff => {
                        self.diff_action(a);
                        Effect::Nothing
                    },
                }
            },
            _ => Effect::Nothing,
        }
    }
}

} // verus!

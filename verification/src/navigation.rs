//! Back/forward navigation between folders, and the stack of undoable actions.

use vstd::prelude::*;
use crate::paths::{file_name_or_default, file_name_or_empty, paths_equal, same_path, strings_view};
use crate::text::{concat};

verus! {

/// The state of back/forward navigation after going back from `current`:
/// the back stack, the forward stack, and where to go.
pub open spec fn nav_back(back: Seq<Seq<char>>, forward: Seq<Seq<char>>, current: Seq<char>) -> (
    Seq<Seq<char>>,
    Seq<Seq<char>>,
    Option<Seq<char>>,
) {
    if back.len() > 0 {
        (back.drop_last(), forward.push(current), Some(back.last()))
    } else {
        (back, forward, None)
    }
}

/// The state after going forward from `current`.
pub open spec fn nav_forward(back: Seq<Seq<char>>, forward: Seq<Seq<char>>, current: Seq<char>) -> (
    Seq<Seq<char>>,
    Seq<Seq<char>>,
    Option<Seq<char>>,
) {
    if forward.len() > 0 {
        (back.push(current), forward.drop_last(), Some(forward.last()))
    } else {
        (back, forward, None)
    }
}

/// The history at the end of a frame that went from `previous` to `current`
/// by some other way than the history, and whether to reload: a change of
/// folder is pushed and drops the forward history.
pub open spec fn settled(
    back: Seq<Seq<char>>,
    forward: Seq<Seq<char>>,
    previous: Seq<char>,
    current: Seq<char>,
    filter_changed: bool,
) -> (Seq<Seq<char>>, Seq<Seq<char>>, bool) {
    if !same_path(previous, current) {
        (back.push(previous), Seq::empty(), true)
    } else {
        (back, forward, filter_changed)
    }
}

/// Folders visited before (back) and after (forward) the current one.
pub struct NavigationHistory {
    pub back_stack: Vec<String>,
    pub forward_stack: Vec<String>,
}

impl NavigationHistory {
    /// The back stack, most recent last.
    pub open spec fn back(&self) -> Seq<Seq<char>> {
        strings_view(self.back_stack@)
    }

    /// The forward stack, next folder last.
    pub open spec fn forward(&self) -> Seq<Seq<char>> {
        strings_view(self.forward_stack@)
    }

    /// Empty history.
    pub fn new() -> (h: Self)
        ensures
            h.back() == Seq::<Seq<char>>::empty(),
            h.forward() == Seq::<Seq<char>>::empty(),
    {
        let h = NavigationHistory { back_stack: Vec::new(), forward_stack: Vec::new() };
        proof {
            assert(h.back() =~= Seq::<Seq<char>>::empty());
            assert(h.forward() =~= Seq::<Seq<char>>::empty());
        }
        h
    }

    /// Records leaving `previous_path` for a new folder; the forward history is dropped.
    pub fn push(&mut self, previous_path: String)
        ensures
            final(self).back() == old(self).back().push(previous_path@),
            final(self).forward() == Seq::<Seq<char>>::empty(),
    {
        self.back_stack.push(previous_path);
        self.forward_stack.clear();
        proof {
            assert(self.back() =~= old(self).back().push(previous_path@));
            assert(self.forward() =~= Seq::<Seq<char>>::empty());
        }
    }

    /// Goes back from `current_path`: returns the previous folder, if any, and
    /// remembers `current_path` for going forward.
    pub fn go_back(&mut self, current_path: &str) -> (r: Option<String>)
        ensures
            (final(self).back(), final(self).forward(), match r {
                Some(p) => Some(p@),
                None => None,
            }) == nav_back(old(self).back(), old(self).forward(), current_path@),
    {
        match self.back_stack.pop() {
            Some(prev) => {
                self.forward_stack.push(current_path.to_owned());
                proof {
                    assert(self.back() =~= old(self).back().drop_last());
                    assert(self.forward() =~= old(self).forward().push(current_path@));
                }
                Some(prev)
            },
            None => None,
        }
    }

    /// Goes forward from `current_path`: returns the next folder, if any, and
    /// remembers `current_path` for going back.
    pub fn go_forward(&mut self, current_path: &str) -> (r: Option<String>)
        ensures
            (final(self).back(), final(self).forward(), match r {
                Some(p) => Some(p@),
                None => None,
            }) == nav_forward(old(self).back(), old(self).forward(), current_path@),
    {
        match self.forward_stack.pop() {
            Some(next) => {
                self.back_stack.push(current_path.to_owned());
                proof {
                    assert(self.forward() =~= old(self).forward().drop_last());
                    assert(self.back() =~= old(self).back().push(current_path@));
                }
                Some(next)
            },
            None => None,
        }
    }

    /// At the end of a frame: `previous_path` is where the frame started, or
    /// where going back or forward took it (those moves are already in the
    /// history), and `current_path` is where the frame ends. Any other change
    /// of folder is recorded, so that going back returns to `previous_path`.
    /// Returns whether the listing must be reloaded: the folder or the profile
    /// filter changed.
    pub fn settle(&mut self, previous_path: &str, current_path: &str, filter_changed: bool) -> (refresh: bool)
        ensures
            (final(self).back(), final(self).forward(), refresh) == settled(
                old(self).back(),
                old(self).forward(),
                previous_path@,
                current_path@,
                filter_changed,
            ),
    {
        if !paths_equal(previous_path, current_path) {
            self.push(previous_path.to_owned());
            true
        } else {
            filter_changed
        }
    }

    /// Whether there is a folder to go back to.
    pub fn can_go_back(&self) -> (r: bool)
        ensures
            r == (self.back().len() > 0),
    {
        self.back_stack.len() > 0
    }

    /// Whether there is a folder to go forward to.
    pub fn can_go_forward(&self) -> (r: bool)
        ensures
            r == (self.forward().len() > 0),
    {
        self.forward_stack.len() > 0
    }
}

impl Default for NavigationHistory {
    fn default() -> (h: Self)
        ensures
            h.back() == Seq::<Seq<char>>::empty(),
            h.forward() == Seq::<Seq<char>>::empty(),
    {
        NavigationHistory::new()
    }
}

/// Going back and then forward returns to the folder one started from, with
/// both stacks as they were.
pub proof fn law_back_then_forward(back: Seq<Seq<char>>, forward: Seq<Seq<char>>, current: Seq<char>)
    requires
        back.len() > 0,
    ensures
        ({
            let (b1, f1, to) = nav_back(back, forward, current);
            nav_forward(b1, f1, to.unwrap())
        }) == (back, forward, Some(current)),
{
    let (b1, f1, to) = nav_back(back, forward, current);
    assert(b1.push(to.unwrap()) =~= back);
    assert(f1.drop_last() =~= forward);
}

/// Going forward and then back returns to the folder one started from, with
/// both stacks as they were.
pub proof fn law_forward_then_back(back: Seq<Seq<char>>, forward: Seq<Seq<char>>, current: Seq<char>)
    requires
        forward.len() > 0,
    ensures
        ({
            let (b1, f1, to) = nav_forward(back, forward, current);
            nav_back(b1, f1, to.unwrap())
        }) == (back, forward, Some(current)),
{
    let (b1, f1, to) = nav_forward(back, forward, current);
    assert(f1.push(to.unwrap()) =~= forward);
    assert(b1.drop_last() =~= back);
}

/// Going back and then settling the frame from the folder that going back
/// reached keeps the history that going back made: the folder left is next
/// forward, so going forward is possible.
pub proof fn law_back_then_settle(
    back: Seq<Seq<char>>,
    forward: Seq<Seq<char>>,
    current: Seq<char>,
    filter_changed: bool,
)
    requires
        back.len() > 0,
    ensures
        ({
            let (b1, f1, to) = nav_back(back, forward, current);
            settled(b1, f1, to.unwrap(), to.unwrap(), filter_changed)
        }) == (back.drop_last(), forward.push(current), filter_changed),
{
}

/// Going forward and then settling the frame from the folder that going
/// forward reached keeps the history that going forward made.
pub proof fn law_forward_then_settle(
    back: Seq<Seq<char>>,
    forward: Seq<Seq<char>>,
    current: Seq<char>,
    filter_changed: bool,
)
    requires
        forward.len() > 0,
    ensures
        ({
            let (b1, f1, to) = nav_forward(back, forward, current);
            settled(b1, f1, to.unwrap(), to.unwrap(), filter_changed)
        }) == (back.push(current), forward.drop_last(), filter_changed),
{
}

/// Any other change of folder is recorded: going back afterwards returns to
/// the folder the frame started in, and nothing is left to go forward to.
pub proof fn law_moved_folder_is_recorded(
    back: Seq<Seq<char>>,
    forward: Seq<Seq<char>>,
    previous: Seq<char>,
    current: Seq<char>,
    filter_changed: bool,
)
    requires
        !same_path(previous, current),
    ensures
        ({
            let (b1, f1, refresh) = settled(back, forward, previous, current, filter_changed);
            refresh && f1.len() == 0 && nav_back(b1, f1, current).2 == Some(previous)
        }),
{
}

/// An action that can be undone.
#[derive(Debug, Clone)]
pub enum UndoAction {
    Trash { original_path: String },
    Rename { old_path: String, new_path: String },
    Create { path: String },
    Copy { destination: String },
    Move { source: String, destination: String },
}

/// What undoing an action does to the file system.
#[derive(Debug, Clone)]
pub enum UndoEffect {
    /// Rename `from` back to `to`.
    RenameBack { from: String, to: String },
    /// Send `path` to the trash.
    TrashPath { path: String },
    /// Nothing to do.
    Nothing,
}

/// The path whose existence decides how an action is undone (none for a
/// deletion, which can only be pointed out).
pub open spec fn undo_target(a: UndoAction) -> Option<Seq<char>> {
    match a {
        UndoAction::Rename { new_path, .. } => Some(new_path@),
        UndoAction::Create { path } => Some(path@),
        UndoAction::Copy { destination } => Some(destination@),
        UndoAction::Move { destination, .. } => Some(destination@),
        UndoAction::Trash { .. } => None,
    }
}

/// The message reported after undoing `a`, given whether its target exists.
pub open spec fn undo_message(a: UndoAction, exists: bool) -> Seq<char> {
    match a {
        UndoAction::Rename { old_path, .. } => if exists {
            "Desfeito: renomear → "@ + old_path@
        } else {
            "Erro: arquivo não encontrado"@
        },
        UndoAction::Create { path } => if exists {
            "Desfeito: criação de "@ + path@
        } else {
            "Erro: arquivo já não existe"@
        },
        UndoAction::Copy { .. } => if exists {
            "Desfeito: cópia removida"@
        } else {
            "Erro: cópia não encontrada"@
        },
        UndoAction::Move { .. } => if exists {
            "Desfeito: movido de volta"@
        } else {
            "Erro: arquivo não encontrado"@
        },
        UndoAction::Trash { original_path } => "Verifique a lixeira: "@ + original_path@,
    }
}

/// The file-system effect of undoing `a`, given whether its target exists.
pub open spec fn undo_effect_matches(a: UndoAction, exists: bool, e: UndoEffect) -> bool {
    match a {
        UndoAction::Rename { old_path, new_path } => if exists {
            e matches UndoEffect::RenameBack { from, to } && from@ == new_path@ && to@ == old_path@
        } else {
            e is Nothing
        },
        UndoAction::Create { path } => if exists {
            e matches UndoEffect::TrashPath { path: p } && p@ == path@
        } else {
            e is Nothing
        },
        UndoAction::Copy { destination } => if exists {
            e matches UndoEffect::TrashPath { path: p } && p@ == destination@
        } else {
            e is Nothing
        },
        UndoAction::Move { source, destination } => if exists {
            e matches UndoEffect::RenameBack { from, to } && from@ == destination@ && to@
                == source@
        } else {
            e is Nothing
        },
        UndoAction::Trash { .. } => e is Nothing,
    }
}

/// The label shown for an action: a verb and the file name of its path.
pub open spec fn action_label(a: UndoAction) -> Seq<char> {
    match a {
        UndoAction::Trash { original_path } => "Excluir "@ + file_name_or_empty(original_path@),
        UndoAction::Rename { old_path, .. } => "Renomear "@ + file_name_or_empty(old_path@),
        UndoAction::Create { path } => "Criar "@ + file_name_or_empty(path@),
        UndoAction::Copy { destination } => "Copiar "@ + file_name_or_empty(destination@),
        UndoAction::Move { source, .. } => "Mover "@ + file_name_or_empty(source@),
    }
}

/// The actions after pushing `a` onto `s` with at most `max` kept: the oldest
/// is dropped when there are too many.
pub open spec fn bounded_push<T>(s: Seq<T>, a: T, max: nat) -> Seq<T> {
    if s.push(a).len() > max {
        s.push(a).drop_first()
    } else {
        s.push(a)
    }
}

/// Undoable actions, most recent last, at most `max_size` of them kept.
pub struct UndoStack {
    pub actions: Vec<UndoAction>,
    pub max_size: usize,
}

impl UndoStack {
    /// An empty stack keeping at most `max_size` actions.
    pub fn new(max_size: usize) -> (s: Self)
        ensures
            s.actions@ == Seq::<UndoAction>::empty(),
            s.max_size == max_size,
    {
        UndoStack { actions: Vec::new(), max_size }
    }

    /// Records an action; the oldest is dropped when more than `max_size` are kept.
    pub fn push(&mut self, action: UndoAction)
        ensures
            final(self).actions@ == bounded_push(old(self).actions@, action, old(self).max_size as nat),
            final(self).max_size == old(self).max_size,
    {
        self.actions.push(action);
        if self.actions.len() > self.max_size {
            self.actions.remove(0);
            proof {
                assert(self.actions@ =~= bounded_push(
                    old(self).actions@,
                    action,
                    old(self).max_size as nat,
                ));
            }
        }
    }

    /// The path whose existence decides how the last action is undone.
    pub fn undo_target(&self) -> (r: Option<String>)
        ensures
            self.actions@.len() == 0 ==> r is None,
            self.actions@.len() > 0 ==> match r {
                Some(p) => undo_target(self.actions@.last()) == Some(p@),
                None => undo_target(self.actions@.last()) is None,
            },
    {
        if self.actions.len() == 0 {
            return None;
        }
        match &self.actions[self.actions.len() - 1] {
            UndoAction::Rename { new_path, .. } => Some(new_path.clone()),
            UndoAction::Create { path } => Some(path.clone()),
            UndoAction::Copy { destination } => Some(destination.clone()),
            UndoAction::Move { destination, .. } => Some(destination.clone()),
            UndoAction::Trash { .. } => None,
        }
    }

    /// Takes the last action off the stack and says how to undo it, given
    /// whether its target exists: the effect on the file system and the
    /// message to show. `None` when there is nothing to undo.
    pub fn undo(&mut self, target_exists: bool) -> (r: Option<(UndoEffect, String)>)
        ensures
            old(self).actions@.len() == 0 ==> r is None && final(self).actions@ == old(
                self,
            ).actions@,
            old(self).actions@.len() > 0 ==> final(self).actions@ == old(self).actions@.drop_last()
                && match r {
                Some((e, m)) => m@ == undo_message(old(self).actions@.last(), target_exists)
                    && undo_effect_matches(old(self).actions@.last(), target_exists, e),
                None => false,
            },
            final(self).max_size == old(self).max_size,
    {
        let action = match self.actions.pop() {
            Some(a) => a,
            None => {
                return None;
            },
        };
        let exists = target_exists;
        let out = match action {
            UndoAction::Rename { old_path, new_path } => {
                if exists {
                    let m = concat("Desfeito: renomear → ", old_path.as_str());
                    (UndoEffect::RenameBack { from: new_path, to: old_path }, m)
                } else {
                    (UndoEffect::Nothing, "Erro: arquivo não encontrado".to_owned())
                }
            },
            UndoAction::Create { path } => {
                if exists {
                    let m = concat("Desfeito: criação de ", path.as_str());
                    (UndoEffect::TrashPath { path }, m)
                } else {
                    (UndoEffect::Nothing, "Erro: arquivo já não existe".to_owned())
                }
            },
            UndoAction::Copy { destination } => {
                if exists {
                    (UndoEffect::TrashPath { path: destination }, "Desfeito: cópia removida".to_owned())
                } else {
                    (UndoEffect::Nothing, "Erro: cópia não encontrada".to_owned())
                }
            },
            UndoAction::Move { source, destination } => {
                if exists {
                    (
                        UndoEffect::RenameBack { from: destination, to: source },
                        "Desfeito: movido de volta".to_owned(),
                    )
                } else {
                    (UndoEffect::Nothing, "Erro: arquivo não encontrado".to_owned())
                }
            },
            UndoAction::Trash { original_path } => {
                (UndoEffect::Nothing, concat("Verifique a lixeira: ", original_path.as_str()))
            },
        };
        Some(out)
    }

    /// Whether there is an action to undo.
    pub fn can_undo(&self) -> (r: bool)
        ensures
            r == (self.actions@.len() > 0),
    {
        self.actions.len() > 0
    }

    /// The label of the undo button: the last action when there is one.
    pub fn button_label(&self) -> (r: String)
        ensures
            self.actions@.len() == 0 ==> r@ == "↩ Desfazer"@,
            self.actions@.len() > 0 ==> r@ == "↩ Desfazer: "@ + action_label(self.actions@.last()),
    {
        match self.last_action_label() {
            Some(l) => concat("↩ Desfazer: ", l.as_str()),
            None => "↩ Desfazer".to_owned(),
        }
    }

    /// The label of the last action, if any.
    pub fn last_action_label(&self) -> (r: Option<String>)
        ensures
            self.actions@.len() == 0 ==> r is None,
            self.actions@.len() > 0 ==> (r matches Some(l) && l@ == action_label(
                self.actions@.last(),
            )),
    {
        if self.actions.len() == 0 {
            return None;
        }
        let l = match &self.actions[self.actions.len() - 1] {
            UndoAction::Trash { original_path } => concat(
                "Excluir ",
                file_name_or_default(original_path.as_str()).as_str(),
            ),
            UndoAction::Rename { old_path, .. } => concat(
                "Renomear ",
                file_name_or_default(old_path.as_str()).as_str(),
            ),
            UndoAction::Create { path } => concat(
                "Criar ",
                file_name_or_default(path.as_str()).as_str(),
            ),
            UndoAction::Copy { destination } => concat(
                "Copiar ",
                file_name_or_default(destination.as_str()).as_str(),
            ),
            UndoAction::Move { source, .. } => concat(
                "Mover ",
                file_name_or_default(source.as_str()).as_str(),
            ),
        };
        Some(l)
    }
}

impl Default for UndoStack {
    fn default() -> (s: Self)
        ensures
            s.actions@ == Seq::<UndoAction>::empty(),
            s.max_size == 0,
    {
        UndoStack::new(0)
    }
}

/// The stack never holds more than its bound: pushing onto a stack within
/// its bound keeps it within the bound.
pub proof fn law_undo_stack_bounded<T>(s: Seq<T>, a: T, max: nat)
    requires
        s.len() <= max,
    ensures
        bounded_push(s, a, max).len() <= max,
{
}

/// With room for at least one action, the action just pushed is the one undone next.
pub proof fn law_pushed_is_undone_next<T>(s: Seq<T>, a: T, max: nat)
    requires
        max > 0,
    ensures
        bounded_push(s, a, max).len() > 0,
        bounded_push(s, a, max).last() == a,
{
}

} // verus!

//! Customizable keyboard shortcuts for editor actions.
mod actions;
mod keys;
mod types;

pub use actions::{action_label, EditorAction};
pub use keys::{key_label, KeyCode};
pub use types::{shortcut_text, ModifierState, Modifiers, Shortcut};

use vstd::prelude::*;

use crate::assoc::{
    assoc_map, keys_unique, lemma_assoc_absent, lemma_assoc_dom_all, lemma_assoc_index,
    lemma_assoc_push, lemma_assoc_remove, lemma_assoc_update, lemma_keys_unique_push, swapped,
};

verus! {

/// The bindings after `bind(shortcut, action)`: any earlier shortcut of the
/// action and any earlier action of the shortcut are dropped, then the pair
/// is bound both ways.
pub open spec fn bound(
    bindings: Map<Shortcut, EditorAction>,
    shortcuts: Map<EditorAction, Shortcut>,
    shortcut: Shortcut,
    action: EditorAction,
) -> (Map<Shortcut, EditorAction>, Map<EditorAction, Shortcut>) {
    let b1 = if shortcuts.contains_key(action) {
        bindings.remove(shortcuts[action])
    } else {
        bindings
    };
    let s1 = shortcuts.remove(action);
    let s2 = if b1.contains_key(shortcut) {
        s1.remove(b1[shortcut])
    } else {
        s1
    };
    (b1.remove(shortcut).insert(shortcut, action), s2.insert(action, shortcut))
}

/// The bindings after `unbind(shortcut)`.
pub open spec fn unbound(
    bindings: Map<Shortcut, EditorAction>,
    shortcuts: Map<EditorAction, Shortcut>,
    shortcut: Shortcut,
) -> (Map<Shortcut, EditorAction>, Map<EditorAction, Shortcut>) {
    if bindings.contains_key(shortcut) {
        (bindings.remove(shortcut), shortcuts.remove(bindings[shortcut]))
    } else {
        (bindings, shortcuts)
    }
}

/// The two lookup directions agree: each is the inverse of the other.
pub open spec fn consistent(
    bindings: Map<Shortcut, EditorAction>,
    shortcuts: Map<EditorAction, Shortcut>,
) -> bool {
    &&& forall|s: Shortcut| #[trigger]
        bindings.contains_key(s) ==> shortcuts.contains_key(bindings[s]) && shortcuts[bindings[s]]
            == s
    &&& forall|a: EditorAction| #[trigger]
        shortcuts.contains_key(a) ==> bindings.contains_key(shortcuts[a]) && bindings[shortcuts[a]]
            == a
}

/// Shortcut manager: binds shortcuts to actions and looks them up both ways.
pub struct ShortcutManager {
    /// Shortcut to action.
    bindings: Vec<(Shortcut, EditorAction)>,
    /// Action to shortcut (reverse lookup).
    action_shortcuts: Vec<(EditorAction, Shortcut)>,
}

fn find_shortcut(list: &Vec<(Shortcut, EditorAction)>, shortcut: &Shortcut) -> (r: Option<usize>)
    ensures
        match r {
            Some(i) => i < list@.len() && list@[i as int].0 == *shortcut,
            None => forall|i: int| 0 <= i < list@.len() ==> list@[i].0 != *shortcut,
        },
{
    let mut i: usize = 0;
    while i < list.len()
        invariant
            i <= list@.len(),
            forall|j: int| 0 <= j < i ==> list@[j].0 != *shortcut,
        decreases list@.len() - i,
    {
        if list[i].0 == *shortcut {
            return Some(i);
        }
        i = i + 1;
    }
    None
}

fn find_action(list: &Vec<(EditorAction, Shortcut)>, action: EditorAction) -> (r: Option<usize>)
    ensures
        match r {
            Some(i) => i < list@.len() && list@[i as int].0 == action,
            None => forall|i: int| 0 <= i < list@.len() ==> list@[i].0 != action,
        },
{
    let mut i: usize = 0;
    while i < list.len()
        invariant
            i <= list@.len(),
            forall|j: int| 0 <= j < i ==> list@[j].0 != action,
        decreases list@.len() - i,
    {
        if list[i].0 == action {
            return Some(i);
        }
        i = i + 1;
    }
    None
}

impl ShortcutManager {
    /// Shortcut-to-action map.
    pub closed spec fn bindings_view(&self) -> Map<Shortcut, EditorAction> {
        assoc_map(self.bindings@)
    }

    /// Action-to-shortcut map.
    pub closed spec fn shortcuts_view(&self) -> Map<EditorAction, Shortcut> {
        assoc_map(self.action_shortcuts@)
    }

    /// The binding list in its stored order.
    pub closed spec fn binding_list(&self) -> Seq<(Shortcut, EditorAction)> {
        self.bindings@
    }

    /// Well-formedness: no shortcut and no action is stored twice.
    pub closed spec fn wf(&self) -> bool {
        keys_unique(self.bindings@) && keys_unique(self.action_shortcuts@)
    }

    /// The stored binding list denotes the shortcut-to-action map.
    pub proof fn lemma_binding_list(&self)
        requires
            self.wf(),
        ensures
            keys_unique(self.binding_list()),
            assoc_map(self.binding_list()) == self.bindings_view(),
    {
    }

    /// A manager with no bindings at all.
    pub fn empty() -> (r: Self)
        ensures
            r.wf(),
            r.bindings_view() == Map::<Shortcut, EditorAction>::empty(),
            r.shortcuts_view() == Map::<EditorAction, Shortcut>::empty(),
    {
        Self { bindings: Vec::new(), action_shortcuts: Vec::new() }
    }

    /// A manager holding loaded bindings as they are (a later pair for the
    /// same shortcut wins), with the reverse lookup still empty: call
    /// `rebuild_lookup` to fill it.
    pub fn from_bindings(list: Vec<(Shortcut, EditorAction)>) -> (r: Self)
        ensures
            r.wf(),
            r.bindings_view() == assoc_map(list@),
            r.shortcuts_view() == Map::<EditorAction, Shortcut>::empty(),
    {
        let mut bindings: Vec<(Shortcut, EditorAction)> = Vec::new();
        let n = list.len();
        let mut i: usize = 0;
        while i < n
            invariant
                n == list@.len(),
                i <= n,
                keys_unique(bindings@),
                assoc_map(bindings@) == assoc_map(list@.subrange(0, i as int)),
            decreases n - i,
        {
            let (shortcut, action) = list[i];
            proof {
                assert(list@.subrange(0, i + 1).drop_last() =~= list@.subrange(0, i as int));
            }
            match find_shortcut(&bindings, &shortcut) {
                Some(k) => {
                    proof {
                        lemma_assoc_update(bindings@, k as int, action);
                    }
                    bindings.set(k, (shortcut, action));
                },
                None => {
                    proof {
                        lemma_keys_unique_push(bindings@, shortcut, action);
                        lemma_assoc_push(bindings@, shortcut, action);
                    }
                    bindings.push((shortcut, action));
                },
            }
            i = i + 1;
        }
        assert(list@.subrange(0, n as int) =~= list@);
        let r = Self { bindings, action_shortcuts: Vec::new() };
        assert(r.shortcuts_view() =~= Map::<EditorAction, Shortcut>::empty());
        r
    }

    /// Bind a shortcut to an action, replacing the action's earlier shortcut
    /// and the shortcut's earlier action.
    pub fn bind(&mut self, shortcut: Shortcut, action: EditorAction)
        requires
            old(self).wf(),
        ensures
            final(self).wf(),
            (final(self).bindings_view(), final(self).shortcuts_view()) == bound(
                old(self).bindings_view(),
                old(self).shortcuts_view(),
                shortcut,
                action,
            ),
    {
        let ghost b0 = self.bindings_view();
        let ghost s0 = self.shortcuts_view();
        // Remove the old binding for this action.
        match find_action(&self.action_shortcuts, action) {
            Some(i) => {
                proof {
                    lemma_assoc_index(self.action_shortcuts@, i as int);
                    lemma_assoc_remove(self.action_shortcuts@, i as int);
                }
                let (_, old_shortcut) = self.action_shortcuts.remove(i);
                match find_shortcut(&self.bindings, &old_shortcut) {
                    Some(j) => {
                        proof {
                            lemma_assoc_remove(self.bindings@, j as int);
                        }
                        self.bindings.remove(j);
                    },
                    None => {
                        proof {
                            lemma_assoc_absent(self.bindings@, old_shortcut);
                            assert(b0.remove(old_shortcut) =~= b0);
                        }
                    },
                }
            },
            None => {
                proof {
                    lemma_assoc_absent(self.action_shortcuts@, action);
                    assert(s0.remove(action) =~= s0);
                }
            },
        }
        let ghost b1 = self.bindings_view();
        let ghost s1 = self.shortcuts_view();
        // Remove the old action for this shortcut.
        match find_shortcut(&self.bindings, &shortcut) {
            Some(j) => {
                proof {
                    lemma_assoc_index(self.bindings@, j as int);
                    lemma_assoc_remove(self.bindings@, j as int);
                }
                let (_, old_action) = self.bindings.remove(j);
                match find_action(&self.action_shortcuts, old_action) {
                    Some(i) => {
                        proof {
                            lemma_assoc_remove(self.action_shortcuts@, i as int);
                        }
                        self.action_shortcuts.remove(i);
                    },
                    None => {
                        proof {
                            lemma_assoc_absent(self.action_shortcuts@, old_action);
                            assert(s1.remove(old_action) =~= s1);
                        }
                    },
                }
            },
            None => {
                proof {
                    lemma_assoc_absent(self.bindings@, shortcut);
                    assert(b1.remove(shortcut) =~= b1);
                }
            },
        }
        // Add the new binding.
        proof {
            lemma_assoc_dom_all(self.bindings@);
            lemma_assoc_dom_all(self.action_shortcuts@);
            assert forall|i: int| 0 <= i < self.bindings@.len() implies self.bindings@[i].0
                != shortcut by {
                assert(!self.bindings_view().contains_key(shortcut));
            }
            assert forall|i: int|
                0 <= i < self.action_shortcuts@.len() implies self.action_shortcuts@[i].0
                != action by {
                assert(!self.shortcuts_view().contains_key(action));
            }
            lemma_keys_unique_push(self.bindings@, shortcut, action);
            lemma_keys_unique_push(self.action_shortcuts@, action, shortcut);
            lemma_assoc_push(self.bindings@, shortcut, action);
            lemma_assoc_push(self.action_shortcuts@, action, shortcut);
        }
        self.bindings.push((shortcut, action));
        self.action_shortcuts.push((action, shortcut));
    }
}

} // verus!

verus! {

/// A plain key without modifiers.
pub open spec fn plain_shortcut(key: KeyCode) -> Shortcut {
    Shortcut { key, modifiers: Modifiers { ctrl: false, shift: false, alt: false } }
}

/// Ctrl + key.
pub open spec fn ctrl_shortcut(key: KeyCode) -> Shortcut {
    Shortcut { key, modifiers: Modifiers { ctrl: true, shift: false, alt: false } }
}

/// Ctrl + Shift + key.
pub open spec fn ctrl_shift_shortcut(key: KeyCode) -> Shortcut {
    Shortcut { key, modifiers: Modifiers { ctrl: true, shift: true, alt: false } }
}

/// The default shortcut-to-action bindings. Ctrl+Shift+Z is not among them:
/// the later binding of Ctrl+Y to Redo takes Redo's only shortcut.
pub open spec fn default_bindings() -> Map<Shortcut, EditorAction> {
    map![ctrl_shortcut(KeyCode::N) => EditorAction::NewScene, ctrl_shortcut(KeyCode::O) => EditorAction::OpenScene, ctrl_shortcut(KeyCode::S) => EditorAction::SaveScene, ctrl_shift_shortcut(KeyCode::S) => EditorAction::SaveSceneAs, ctrl_shortcut(KeyCode::Z) => EditorAction::Undo, ctrl_shortcut(KeyCode::Y) => EditorAction::Redo, ctrl_shortcut(KeyCode::X) => EditorAction::Cut, ctrl_shortcut(KeyCode::C) => EditorAction::Copy, ctrl_shortcut(KeyCode::V) => EditorAction::Paste, plain_shortcut(KeyCode::Delete) => EditorAction::Delete, ctrl_shortcut(KeyCode::D) => EditorAction::Duplicate, ctrl_shortcut(KeyCode::A) => EditorAction::SelectAll, plain_shortcut(KeyCode::Q) => EditorAction::SelectTool, plain_shortcut(KeyCode::W) => EditorAction::MoveTool, plain_shortcut(KeyCode::E) => EditorAction::RotateTool, plain_shortcut(KeyCode::R) => EditorAction::ScaleTool, plain_shortcut(KeyCode::F) => EditorAction::FocusSelected, plain_shortcut(KeyCode::Home) => EditorAction::FrameAll, ctrl_shortcut(KeyCode::Num1) => EditorAction::FrontView, ctrl_shortcut(KeyCode::Num7) => EditorAction::TopView, ctrl_shortcut(KeyCode::Num3) => EditorAction::SideView, plain_shortcut(KeyCode::H) => EditorAction::ToggleVisibility, plain_shortcut(KeyCode::F5) => EditorAction::TogglePlay]
}

/// The default action-to-shortcut lookup.
pub open spec fn default_shortcuts() -> Map<EditorAction, Shortcut> {
    map![EditorAction::NewScene => ctrl_shortcut(KeyCode::N), EditorAction::OpenScene => ctrl_shortcut(KeyCode::O), EditorAction::SaveScene => ctrl_shortcut(KeyCode::S), EditorAction::SaveSceneAs => ctrl_shift_shortcut(KeyCode::S), EditorAction::Undo => ctrl_shortcut(KeyCode::Z), EditorAction::Redo => ctrl_shortcut(KeyCode::Y), EditorAction::Cut => ctrl_shortcut(KeyCode::X), EditorAction::Copy => ctrl_shortcut(KeyCode::C), EditorAction::Paste => ctrl_shortcut(KeyCode::V), EditorAction::Delete => plain_shortcut(KeyCode::Delete), EditorAction::Duplicate => ctrl_shortcut(KeyCode::D), EditorAction::SelectAll => ctrl_shortcut(KeyCode::A), EditorAction::SelectTool => plain_shortcut(KeyCode::Q), EditorAction::MoveTool => plain_shortcut(KeyCode::W), EditorAction::RotateTool => plain_shortcut(KeyCode::E), EditorAction::ScaleTool => plain_shortcut(KeyCode::R), EditorAction::FocusSelected => plain_shortcut(KeyCode::F), EditorAction::FrameAll => plain_shortcut(KeyCode::Home), EditorAction::FrontView => ctrl_shortcut(KeyCode::Num1), EditorAction::TopView => ctrl_shortcut(KeyCode::Num7), EditorAction::SideView => ctrl_shortcut(KeyCode::Num3), EditorAction::ToggleVisibility => plain_shortcut(KeyCode::H), EditorAction::TogglePlay => plain_shortcut(KeyCode::F5)]
}

impl ShortcutManager {
    /// Create a manager with the default shortcuts.
    #[verifier::rlimit(60)]
    pub fn new() -> (r: Self)
        ensures
            r.wf(),
            r.bindings_view() == default_bindings(),
            r.shortcuts_view() == default_shortcuts(),
    {
        let mut manager = Self::empty();
        manager.bind(Shortcut::ctrl(KeyCode::N), EditorAction::NewScene);
        assert(manager.bindings_view() =~= map![ctrl_shortcut(KeyCode::N) => EditorAction::NewScene]);
        assert(manager.shortcuts_view() =~= map![EditorAction::NewScene => ctrl_shortcut(KeyCode::N)]);
        manager.bind(Shortcut::ctrl(KeyCode::O), EditorAction::OpenScene);
        assert(manager.bindings_view() =~= map![ctrl_shortcut(KeyCode::N) => EditorAction::NewScene, ctrl_shortcut(KeyCode::O) => EditorAction::OpenScene]);
        assert(manager.shortcuts_view() =~= map![EditorAction::NewScene => ctrl_shortcut(KeyCode::N), EditorAction::OpenScene => ctrl_shortcut(KeyCode::O)]);
        manager.bind(Shortcut::ctrl(KeyCode::S), EditorAction::SaveScene);
        assert(manager.bindings_view() =~= map![ctrl_shortcut(KeyCode::N) => EditorAction::NewScene, ctrl_shortcut(KeyCode::O) => EditorAction::OpenScene, ctrl_shortcut(KeyCode::S) => EditorAction::SaveScene]);
        assert(manager.shortcuts_view() =~= map![EditorAction::NewScene => ctrl_shortcut(KeyCode::N), EditorAction::OpenScene => ctrl_shortcut(KeyCode::O), EditorAction::SaveScene => ctrl_shortcut(KeyCode::S)]);
        manager.bind(Shortcut::ctrl_shift(KeyCode::S), EditorAction::SaveSceneAs);
        assert(manager.bindings_view() =~= map![ctrl_shortcut(KeyCode::N) => EditorAction::NewScene, ctrl_shortcut(KeyCode::O) => EditorAction::OpenScene, ctrl_shortcut(KeyCode::S) => EditorAction::SaveScene, ctrl_shift_shortcut(KeyCode::S) => EditorAction::SaveSceneAs]);
        assert(manager.shortcuts_view() =~= map![EditorAction::NewScene => ctrl_shortcut(KeyCode::N), EditorAction::OpenScene => ctrl_shortcut(KeyCode::O), EditorAction::SaveScene => ctrl_shortcut(KeyCode::S), EditorAction::SaveSceneAs => ctrl_shift_shortcut(KeyCode::S)]);
        manager.bind(Shortcut::ctrl(KeyCode::Z), EditorAction::Undo);
        assert(manager.bindings_view() =~= map![ctrl_shortcut(KeyCode::N) => EditorAction::NewScene, ctrl_shortcut(KeyCode::O) => EditorAction::OpenScene, ctrl_shortcut(KeyCode::S) => EditorAction::SaveScene, ctrl_shift_shortcut(KeyCode::S) => EditorAction::SaveSceneAs, ctrl_shortcut(KeyCode::Z) => EditorAction::Undo]);
        assert(manager.shortcuts_view() =~= map![EditorAction::NewScene => ctrl_shortcut(KeyCode::N), EditorAction::OpenScene => ctrl_shortcut(KeyCode::O), EditorAction::SaveScene => ctrl_shortcut(KeyCode::S), EditorAction::SaveSceneAs => ctrl_shift_shortcut(KeyCode::S), EditorAction::Undo => ctrl_shortcut(KeyCode::Z)]);
        manager.bind(Shortcut::ctrl_shift(KeyCode::Z), EditorAction::Redo);
        assert(manager.bindings_view() =~= map![ctrl_shortcut(KeyCode::N) => EditorAction::NewScene, ctrl_shortcut(KeyCode::O) => EditorAction::OpenScene, ctrl_shortcut(KeyCode::S) => EditorAction::SaveScene, ctrl_shift_shortcut(KeyCode::S) => EditorAction::SaveSceneAs, ctrl_shortcut(KeyCode::Z) => EditorAction::Undo, ctrl_shift_shortcut(KeyCode::Z) => EditorAction::Redo]);
        assert(manager.shortcuts_view() =~= map![EditorAction::NewScene => ctrl_shortcut(KeyCode::N), EditorAction::OpenScene => ctrl_shortcut(KeyCode::O), EditorAction::SaveScene => ctrl_shortcut(KeyCode::S), EditorAction::SaveSceneAs => ctrl_shift_shortcut(KeyCode::S), EditorAction::Undo => ctrl_shortcut(KeyCode::Z), EditorAction::Redo => ctrl_shift_shortcut(KeyCode::Z)]);
        manager.bind(Shortcut::ctrl(KeyCode::Y), EditorAction::Redo);
        assert(manager.bindings_view() =~= map![ctrl_shortcut(KeyCode::N) => EditorAction::NewScene, ctrl_shortcut(KeyCode::O) => EditorAction::OpenScene, ctrl_shortcut(KeyCode::S) => EditorAction::SaveScene, ctrl_shift_shortcut(KeyCode::S) => EditorAction::SaveSceneAs, ctrl_shortcut(KeyCode::Z) => EditorAction::Undo, ctrl_shortcut(KeyCode::Y) => EditorAction::Redo]);
        assert(manager.shortcuts_view() =~= map![EditorAction::NewScene => ctrl_shortcut(KeyCode::N), EditorAction::OpenScene => ctrl_shortcut(KeyCode::O), EditorAction::SaveScene => ctrl_shortcut(KeyCode::S), EditorAction::SaveSceneAs => ctrl_shift_shortcut(KeyCode::S), EditorAction::Undo => ctrl_shortcut(KeyCode::Z), EditorAction::Redo => ctrl_shortcut(KeyCode::Y)]);
        manager.bind(Shortcut::ctrl(KeyCode::X), EditorAction::Cut);
        assert(manager.bindings_view() =~= map![ctrl_shortcut(KeyCode::N) => EditorAction::NewScene, ctrl_shortcut(KeyCode::O) => EditorAction::OpenScene, ctrl_shortcut(KeyCode::S) => EditorAction::SaveScene, ctrl_shift_shortcut(KeyCode::S) => EditorAction::SaveSceneAs, ctrl_shortcut(KeyCode::Z) => EditorAction::Undo, ctrl_shortcut(KeyCode::Y) => EditorAction::Redo, ctrl_shortcut(KeyCode::X) => EditorAction::Cut]);
        assert(manager.shortcuts_view() =~= map![EditorAction::NewScene => ctrl_shortcut(KeyCode::N), EditorAction::OpenScene => ctrl_shortcut(KeyCode::O), EditorAction::SaveScene => ctrl_shortcut(KeyCode::S), EditorAction::SaveSceneAs => ctrl_shift_shortcut(KeyCode::S), EditorAction::Undo => ctrl_shortcut(KeyCode::Z), EditorAction::Redo => ctrl_shortcut(KeyCode::Y), EditorAction::Cut => ctrl_shortcut(KeyCode::X)]);
        manager.bind(Shortcut::ctrl(KeyCode::C), EditorAction::Copy);
        assert(manager.bindings_view() =~= map![ctrl_shortcut(KeyCode::N) => EditorAction::NewScene, ctrl_shortcut(KeyCode::O) => EditorAction::OpenScene, ctrl_shortcut(KeyCode::S) => EditorAction::SaveScene, ctrl_shift_shortcut(KeyCode::S) => EditorAction::SaveSceneAs, ctrl_shortcut(KeyCode::Z) => EditorAction::Undo, ctrl_shortcut(KeyCode::Y) => EditorAction::Redo, ctrl_shortcut(KeyCode::X) => EditorAction::Cut, ctrl_shortcut(KeyCode::C) => EditorAction::Copy]);
        assert(manager.shortcuts_view() =~= map![EditorAction::NewScene => ctrl_shortcut(KeyCode::N), EditorAction::OpenScene => ctrl_shortcut(KeyCode::O), EditorAction::SaveScene => ctrl_shortcut(KeyCode::S), EditorAction::SaveSceneAs => ctrl_shift_shortcut(KeyCode::S), EditorAction::Undo => ctrl_shortcut(KeyCode::Z), EditorAction::Redo => ctrl_shortcut(KeyCode::Y), EditorAction::Cut => ctrl_shortcut(KeyCode::X), EditorAction::Copy => ctrl_shortcut(KeyCode::C)]);
        manager.bind(Shortcut::ctrl(KeyCode::V), EditorAction::Paste);
        assert(manager.bindings_view() =~= map![ctrl_shortcut(KeyCode::N) => EditorAction::NewScene, ctrl_shortcut(KeyCode::O) => EditorAction::OpenScene, ctrl_shortcut(KeyCode::S) => EditorAction::SaveScene, ctrl_shift_shortcut(KeyCode::S) => EditorAction::SaveSceneAs, ctrl_shortcut(KeyCode::Z) => EditorAction::Undo, ctrl_shortcut(KeyCode::Y) => EditorAction::Redo, ctrl_shortcut(KeyCode::X) => EditorAction::Cut, ctrl_shortcut(KeyCode::C) => EditorAction::Copy, ctrl_shortcut(KeyCode::V) => EditorAction::Paste]);
        assert(manager.shortcuts_view() =~= map![EditorAction::NewScene => ctrl_shortcut(KeyCode::N), EditorAction::OpenScene => ctrl_shortcut(KeyCode::O), EditorAction::SaveScene => ctrl_shortcut(KeyCode::S), EditorAction::SaveSceneAs => ctrl_shift_shortcut(KeyCode::S), EditorAction::Undo => ctrl_shortcut(KeyCode::Z), EditorAction::Redo => ctrl_shortcut(KeyCode::Y), EditorAction::Cut => ctrl_shortcut(KeyCode::X), EditorAction::Copy => ctrl_shortcut(KeyCode::C), EditorAction::Paste => ctrl_shortcut(KeyCode::V)]);
        manager.bind(Shortcut::key(KeyCode::Delete), EditorAction::Delete);
        assert(manager.bindings_view() =~= map![ctrl_shortcut(KeyCode::N) => EditorAction::NewScene, ctrl_shortcut(KeyCode::O) => EditorAction::OpenScene, ctrl_shortcut(KeyCode::S) => EditorAction::SaveScene, ctrl_shift_shortcut(KeyCode::S) => EditorAction::SaveSceneAs, ctrl_shortcut(KeyCode::Z) => EditorAction::Undo, ctrl_shortcut(KeyCode::Y) => EditorAction::Redo, ctrl_shortcut(KeyCode::X) => EditorAction::Cut, ctrl_shortcut(KeyCode::C) => EditorAction::Copy, ctrl_shortcut(KeyCode::V) => EditorAction::Paste, plain_shortcut(KeyCode::Delete) => EditorAction::Delete]);
        assert(manager.shortcuts_view() =~= map![EditorAction::NewScene => ctrl_shortcut(KeyCode::N), EditorAction::OpenScene => ctrl_shortcut(KeyCode::O), EditorAction::SaveScene => ctrl_shortcut(KeyCode::S), EditorAction::SaveSceneAs => ctrl_shift_shortcut(KeyCode::S), EditorAction::Undo => ctrl_shortcut(KeyCode::Z), EditorAction::Redo => ctrl_shortcut(KeyCode::Y), EditorAction::Cut => ctrl_shortcut(KeyCode::X), EditorAction::Copy => ctrl_shortcut(KeyCode::C), EditorAction::Paste => ctrl_shortcut(KeyCode::V), EditorAction::Delete => plain_shortcut(KeyCode::Delete)]);
        manager.bind(Shortcut::ctrl(KeyCode::D), EditorAction::Duplicate);
        assert(manager.bindings_view() =~= map![ctrl_shortcut(KeyCode::N) => EditorAction::NewScene, ctrl_shortcut(KeyCode::O) => EditorAction::OpenScene, ctrl_shortcut(KeyCode::S) => EditorAction::SaveScene, ctrl_shift_shortcut(KeyCode::S) => EditorAction::SaveSceneAs, ctrl_shortcut(KeyCode::Z) => EditorAction::Undo, ctrl_shortcut(KeyCode::Y) => EditorAction::Redo, ctrl_shortcut(KeyCode::X) => EditorAction::Cut, ctrl_shortcut(KeyCode::C) => EditorAction::Copy, ctrl_shortcut(KeyCode::V) => EditorAction::Paste, plain_shortcut(KeyCode::Delete) => EditorAction::Delete, ctrl_shortcut(KeyCode::D) => EditorAction::Duplicate]);
        assert(manager.shortcuts_view() =~= map![EditorAction::NewScene => ctrl_shortcut(KeyCode::N), EditorAction::OpenScene => ctrl_shortcut(KeyCode::O), EditorAction::SaveScene => ctrl_shortcut(KeyCode::S), EditorAction::SaveSceneAs => ctrl_shift_shortcut(KeyCode::S), EditorAction::Undo => ctrl_shortcut(KeyCode::Z), EditorAction::Redo => ctrl_shortcut(KeyCode::Y), EditorAction::Cut => ctrl_shortcut(KeyCode::X), EditorAction::Copy => ctrl_shortcut(KeyCode::C), EditorAction::Paste => ctrl_shortcut(KeyCode::V), EditorAction::Delete => plain_shortcut(KeyCode::Delete), EditorAction::Duplicate => ctrl_shortcut(KeyCode::D)]);
        manager.bind(Shortcut::ctrl(KeyCode::A), EditorAction::SelectAll);
        assert(manager.bindings_view() =~= map![ctrl_shortcut(KeyCode::N) => EditorAction::NewScene, ctrl_shortcut(KeyCode::O) => EditorAction::OpenScene, ctrl_shortcut(KeyCode::S) => EditorAction::SaveScene, ctrl_shift_shortcut(KeyCode::S) => EditorAction::SaveSceneAs, ctrl_shortcut(KeyCode::Z) => EditorAction::Undo, ctrl_shortcut(KeyCode::Y) => EditorAction::Redo, ctrl_shortcut(KeyCode::X) => EditorAction::Cut, ctrl_shortcut(KeyCode::C) => EditorAction::Copy, ctrl_shortcut(KeyCode::V) => EditorAction::Paste, plain_shortcut(KeyCode::Delete) => EditorAction::Delete, ctrl_shortcut(KeyCode::D) => EditorAction::Duplicate, ctrl_shortcut(KeyCode::A) => EditorAction::SelectAll]);
        assert(manager.shortcuts_view() =~= map![EditorAction::NewScene => ctrl_shortcut(KeyCode::N), EditorAction::OpenScene => ctrl_shortcut(KeyCode::O), EditorAction::SaveScene => ctrl_shortcut(KeyCode::S), EditorAction::SaveSceneAs => ctrl_shift_shortcut(KeyCode::S), EditorAction::Undo => ctrl_shortcut(KeyCode::Z), EditorAction::Redo => ctrl_shortcut(KeyCode::Y), EditorAction::Cut => ctrl_shortcut(KeyCode::X), EditorAction::Copy => ctrl_shortcut(KeyCode::C), EditorAction::Paste => ctrl_shortcut(KeyCode::V), EditorAction::Delete => plain_shortcut(KeyCode::Delete), EditorAction::Duplicate => ctrl_shortcut(KeyCode::D), EditorAction::SelectAll => ctrl_shortcut(KeyCode::A)]);
        manager.bind(Shortcut::key(KeyCode::Q), EditorAction::SelectTool);
        assert(manager.bindings_view() =~= map![ctrl_shortcut(KeyCode::N) => EditorAction::NewScene, ctrl_shortcut(KeyCode::O) => EditorAction::OpenScene, ctrl_shortcut(KeyCode::S) => EditorAction::SaveScene, ctrl_shift_shortcut(KeyCode::S) => EditorAction::SaveSceneAs, ctrl_shortcut(KeyCode::Z) => EditorAction::Undo, ctrl_shortcut(KeyCode::Y) => EditorAction::Redo, ctrl_shortcut(KeyCode::X) => EditorAction::Cut, ctrl_shortcut(KeyCode::C) => EditorAction::Copy, ctrl_shortcut(KeyCode::V) => EditorAction::Paste, plain_shortcut(KeyCode::Delete) => EditorAction::Delete, ctrl_shortcut(KeyCode::D) => EditorAction::Duplicate, ctrl_shortcut(KeyCode::A) => EditorAction::SelectAll, plain_shortcut(KeyCode::Q) => EditorAction::SelectTool]);
        assert(manager.shortcuts_view() =~= map![EditorAction::NewScene => ctrl_shortcut(KeyCode::N), EditorAction::OpenScene => ctrl_shortcut(KeyCode::O), EditorAction::SaveScene => ctrl_shortcut(KeyCode::S), EditorAction::SaveSceneAs => ctrl_shift_shortcut(KeyCode::S), EditorAction::Undo => ctrl_shortcut(KeyCode::Z), EditorAction::Redo => ctrl_shortcut(KeyCode::Y), EditorAction::Cut => ctrl_shortcut(KeyCode::X), EditorAction::Copy => ctrl_shortcut(KeyCode::C), EditorAction::Paste => ctrl_shortcut(KeyCode::V), EditorAction::Delete => plain_shortcut(KeyCode::Delete), EditorAction::Duplicate => ctrl_shortcut(KeyCode::D), EditorAction::SelectAll => ctrl_shortcut(KeyCode::A), EditorAction::SelectTool => plain_shortcut(KeyCode::Q)]);
        manager.bind(Shortcut::key(KeyCode::W), EditorAction::MoveTool);
        assert(manager.bindings_view() =~= map![ctrl_shortcut(KeyCode::N) => EditorAction::NewScene, ctrl_shortcut(KeyCode::O) => EditorAction::OpenScene, ctrl_shortcut(KeyCode::S) => EditorAction::SaveScene, ctrl_shift_shortcut(KeyCode::S) => EditorAction::SaveSceneAs, ctrl_shortcut(KeyCode::Z) => EditorAction::Undo, ctrl_shortcut(KeyCode::Y) => EditorAction::Redo, ctrl_shortcut(KeyCode::X) => EditorAction::Cut, ctrl_shortcut(KeyCode::C) => EditorAction::Copy, ctrl_shortcut(KeyCode::V) => EditorAction::Paste, plain_shortcut(KeyCode::Delete) => EditorAction::Delete, ctrl_shortcut(KeyCode::D) => EditorAction::Duplicate, ctrl_shortcut(KeyCode::A) => EditorAction::SelectAll, plain_shortcut(KeyCode::Q) => EditorAction::SelectTool, plain_shortcut(KeyCode::W) => EditorAction::MoveTool]);
        assert(manager.shortcuts_view() =~= map![EditorAction::NewScene => ctrl_shortcut(KeyCode::N), EditorAction::OpenScene => ctrl_shortcut(KeyCode::O), EditorAction::SaveScene => ctrl_shortcut(KeyCode::S), EditorAction::SaveSceneAs => ctrl_shift_shortcut(KeyCode::S), EditorAction::Undo => ctrl_shortcut(KeyCode::Z), EditorAction::Redo => ctrl_shortcut(KeyCode::Y), EditorAction::Cut => ctrl_shortcut(KeyCode::X), EditorAction::Copy => ctrl_shortcut(KeyCode::C), EditorAction::Paste => ctrl_shortcut(KeyCode::V), EditorAction::Delete => plain_shortcut(KeyCode::Delete), EditorAction::Duplicate => ctrl_shortcut(KeyCode::D), EditorAction::SelectAll => ctrl_shortcut(KeyCode::A), EditorAction::SelectTool => plain_shortcut(KeyCode::Q), EditorAction::MoveTool => plain_shortcut(KeyCode::W)]);
        manager.bind(Shortcut::key(KeyCode::E), EditorAction::RotateTool);
        assert(manager.bindings_view() =~= map![ctrl_shortcut(KeyCode::N) => EditorAction::NewScene, ctrl_shortcut(KeyCode::O) => EditorAction::OpenScene, ctrl_shortcut(KeyCode::S) => EditorAction::SaveScene, ctrl_shift_shortcut(KeyCode::S) => EditorAction::SaveSceneAs, ctrl_shortcut(KeyCode::Z) => EditorAction::Undo, ctrl_shortcut(KeyCode::Y) => EditorAction::Redo, ctrl_shortcut(KeyCode::X) => EditorAction::Cut, ctrl_shortcut(KeyCode::C) => EditorAction::Copy, ctrl_shortcut(KeyCode::V) => EditorAction::Paste, plain_shortcut(KeyCode::Delete) => EditorAction::Delete, ctrl_shortcut(KeyCode::D) => EditorAction::Duplicate, ctrl_shortcut(KeyCode::A) => EditorAction::SelectAll, plain_shortcut(KeyCode::Q) => EditorAction::SelectTool, plain_shortcut(KeyCode::W) => EditorAction::MoveTool, plain_shortcut(KeyCode::E) => EditorAction::RotateTool]);
        assert(manager.shortcuts_view() =~= map![EditorAction::NewScene => ctrl_shortcut(KeyCode::N), EditorAction::OpenScene => ctrl_shortcut(KeyCode::O), EditorAction::SaveScene => ctrl_shortcut(KeyCode::S), EditorAction::SaveSceneAs => ctrl_shift_shortcut(KeyCode::S), EditorAction::Undo => ctrl_shortcut(KeyCode::Z), EditorAction::Redo => ctrl_shortcut(KeyCode::Y), EditorAction::Cut => ctrl_shortcut(KeyCode::X), EditorAction::Copy => ctrl_shortcut(KeyCode::C), EditorAction::Paste => ctrl_shortcut(KeyCode::V), EditorAction::Delete => plain_shortcut(KeyCode::Delete), EditorAction::Duplicate => ctrl_shortcut(KeyCode::D), EditorAction::SelectAll => ctrl_shortcut(KeyCode::A), EditorAction::SelectTool => plain_shortcut(KeyCode::Q), EditorAction::MoveTool => plain_shortcut(KeyCode::W), EditorAction::RotateTool => plain_shortcut(KeyCode::E)]);
        manager.bind(Shortcut::key(KeyCode::R), EditorAction::ScaleTool);
        assert(manager.bindings_view() =~= map![ctrl_shortcut(KeyCode::N) => EditorAction::NewScene, ctrl_shortcut(KeyCode::O) => EditorAction::OpenScene, ctrl_shortcut(KeyCode::S) => EditorAction::SaveScene, ctrl_shift_shortcut(KeyCode::S) => EditorAction::SaveSceneAs, ctrl_shortcut(KeyCode::Z) => EditorAction::Undo, ctrl_shortcut(KeyCode::Y) => EditorAction::Redo, ctrl_shortcut(KeyCode::X) => EditorAction::Cut, ctrl_shortcut(KeyCode::C) => EditorAction::Copy, ctrl_shortcut(KeyCode::V) => EditorAction::Paste, plain_shortcut(KeyCode::Delete) => EditorAction::Delete, ctrl_shortcut(KeyCode::D) => EditorAction::Duplicate, ctrl_shortcut(KeyCode::A) => EditorAction::SelectAll, plain_shortcut(KeyCode::Q) => EditorAction::SelectTool, plain_shortcut(KeyCode::W) => EditorAction::MoveTool, plain_shortcut(KeyCode::E) => EditorAction::RotateTool, plain_shortcut(KeyCode::R) => EditorAction::ScaleTool]);
        assert(manager.shortcuts_view() =~= map![EditorAction::NewScene => ctrl_shortcut(KeyCode::N), EditorAction::OpenScene => ctrl_shortcut(KeyCode::O), EditorAction::SaveScene => ctrl_shortcut(KeyCode::S), EditorAction::SaveSceneAs => ctrl_shift_shortcut(KeyCode::S), EditorAction::Undo => ctrl_shortcut(KeyCode::Z), EditorAction::Redo => ctrl_shortcut(KeyCode::Y), EditorAction::Cut => ctrl_shortcut(KeyCode::X), EditorAction::Copy => ctrl_shortcut(KeyCode::C), EditorAction::Paste => ctrl_shortcut(KeyCode::V), EditorAction::Delete => plain_shortcut(KeyCode::Delete), EditorAction::Duplicate => ctrl_shortcut(KeyCode::D), EditorAction::SelectAll => ctrl_shortcut(KeyCode::A), EditorAction::SelectTool => plain_shortcut(KeyCode::Q), EditorAction::MoveTool => plain_shortcut(KeyCode::W), EditorAction::RotateTool => plain_shortcut(KeyCode::E), EditorAction::ScaleTool => plain_shortcut(KeyCode::R)]);
        manager.bind(Shortcut::key(KeyCode::F), EditorAction::FocusSelected);
        assert(manager.bindings_view() =~= map![ctrl_shortcut(KeyCode::N) => EditorAction::NewScene, ctrl_shortcut(KeyCode::O) => EditorAction::OpenScene, ctrl_shortcut(KeyCode::S) => EditorAction::SaveScene, ctrl_shift_shortcut(KeyCode::S) => EditorAction::SaveSceneAs, ctrl_shortcut(KeyCode::Z) => EditorAction::Undo, ctrl_shortcut(KeyCode::Y) => EditorAction::Redo, ctrl_shortcut(KeyCode::X) => EditorAction::Cut, ctrl_shortcut(KeyCode::C) => EditorAction::Copy, ctrl_shortcut(KeyCode::V) => EditorAction::Paste, plain_shortcut(KeyCode::Delete) => EditorAction::Delete, ctrl_shortcut(KeyCode::D) => EditorAction::Duplicate, ctrl_shortcut(KeyCode::A) => EditorAction::SelectAll, plain_shortcut(KeyCode::Q) => EditorAction::SelectTool, plain_shortcut(KeyCode::W) => EditorAction::MoveTool, plain_shortcut(KeyCode::E) => EditorAction::RotateTool, plain_shortcut(KeyCode::R) => EditorAction::ScaleTool, plain_shortcut(KeyCode::F) => EditorAction::FocusSelected]);
        assert(manager.shortcuts_view() =~= map![EditorAction::NewScene => ctrl_shortcut(KeyCode::N), EditorAction::OpenScene => ctrl_shortcut(KeyCode::O), EditorAction::SaveScene => ctrl_shortcut(KeyCode::S), EditorAction::SaveSceneAs => ctrl_shift_shortcut(KeyCode::S), EditorAction::Undo => ctrl_shortcut(KeyCode::Z), EditorAction::Redo => ctrl_shortcut(KeyCode::Y), EditorAction::Cut => ctrl_shortcut(KeyCode::X), EditorAction::Copy => ctrl_shortcut(KeyCode::C), EditorAction::Paste => ctrl_shortcut(KeyCode::V), EditorAction::Delete => plain_shortcut(KeyCode::Delete), EditorAction::Duplicate => ctrl_shortcut(KeyCode::D), EditorAction::SelectAll => ctrl_shortcut(KeyCode::A), EditorAction::SelectTool => plain_shortcut(KeyCode::Q), EditorAction::MoveTool => plain_shortcut(KeyCode::W), EditorAction::RotateTool => plain_shortcut(KeyCode::E), EditorAction::ScaleTool => plain_shortcut(KeyCode::R), EditorAction::FocusSelected => plain_shortcut(KeyCode::F)]);
        manager.bind(Shortcut::key(KeyCode::Home), EditorAction::FrameAll);
        assert(manager.bindings_view() =~= map![ctrl_shortcut(KeyCode::N) => EditorAction::NewScene, ctrl_shortcut(KeyCode::O) => EditorAction::OpenScene, ctrl_shortcut(KeyCode::S) => EditorAction::SaveScene, ctrl_shift_shortcut(KeyCode::S) => EditorAction::SaveSceneAs, ctrl_shortcut(KeyCode::Z) => EditorAction::Undo, ctrl_shortcut(KeyCode::Y) => EditorAction::Redo, ctrl_shortcut(KeyCode::X) => EditorAction::Cut, ctrl_shortcut(KeyCode::C) => EditorAction::Copy, ctrl_shortcut(KeyCode::V) => EditorAction::Paste, plain_shortcut(KeyCode::Delete) => EditorAction::Delete, ctrl_shortcut(KeyCode::D) => EditorAction::Duplicate, ctrl_shortcut(KeyCode::A) => EditorAction::SelectAll, plain_shortcut(KeyCode::Q) => EditorAction::SelectTool, plain_shortcut(KeyCode::W) => EditorAction::MoveTool, plain_shortcut(KeyCode::E) => EditorAction::RotateTool, plain_shortcut(KeyCode::R) => EditorAction::ScaleTool, plain_shortcut(KeyCode::F) => EditorAction::FocusSelected, plain_shortcut(KeyCode::Home) => EditorAction::FrameAll]);
        assert(manager.shortcuts_view() =~= map![EditorAction::NewScene => ctrl_shortcut(KeyCode::N), EditorAction::OpenScene => ctrl_shortcut(KeyCode::O), EditorAction::SaveScene => ctrl_shortcut(KeyCode::S), EditorAction::SaveSceneAs => ctrl_shift_shortcut(KeyCode::S), EditorAction::Undo => ctrl_shortcut(KeyCode::Z), EditorAction::Redo => ctrl_shortcut(KeyCode::Y), EditorAction::Cut => ctrl_shortcut(KeyCode::X), EditorAction::Copy => ctrl_shortcut(KeyCode::C), EditorAction::Paste => ctrl_shortcut(KeyCode::V), EditorAction::Delete => plain_shortcut(KeyCode::Delete), EditorAction::Duplicate => ctrl_shortcut(KeyCode::D), EditorAction::SelectAll => ctrl_shortcut(KeyCode::A), EditorAction::SelectTool => plain_shortcut(KeyCode::Q), EditorAction::MoveTool => plain_shortcut(KeyCode::W), EditorAction::RotateTool => plain_shortcut(KeyCode::E), EditorAction::ScaleTool => plain_shortcut(KeyCode::R), EditorAction::FocusSelected => plain_shortcut(KeyCode::F), EditorAction::FrameAll => plain_shortcut(KeyCode::Home)]);
        manager.bind(Shortcut::ctrl(KeyCode::Num1), EditorAction::FrontView);
        assert(manager.bindings_view() =~= map![ctrl_shortcut(KeyCode::N) => EditorAction::NewScene, ctrl_shortcut(KeyCode::O) => EditorAction::OpenScene, ctrl_shortcut(KeyCode::S) => EditorAction::SaveScene, ctrl_shift_shortcut(KeyCode::S) => EditorAction::SaveSceneAs, ctrl_shortcut(KeyCode::Z) => EditorAction::Undo, ctrl_shortcut(KeyCode::Y) => EditorAction::Redo, ctrl_shortcut(KeyCode::X) => EditorAction::Cut, ctrl_shortcut(KeyCode::C) => EditorAction::Copy, ctrl_shortcut(KeyCode::V) => EditorAction::Paste, plain_shortcut(KeyCode::Delete) => EditorAction::Delete, ctrl_shortcut(KeyCode::D) => EditorAction::Duplicate, ctrl_shortcut(KeyCode::A) => EditorAction::SelectAll, plain_shortcut(KeyCode::Q) => EditorAction::SelectTool, plain_shortcut(KeyCode::W) => EditorAction::MoveTool, plain_shortcut(KeyCode::E) => EditorAction::RotateTool, plain_shortcut(KeyCode::R) => EditorAction::ScaleTool, plain_shortcut(KeyCode::F) => EditorAction::FocusSelected, plain_shortcut(KeyCode::Home) => EditorAction::FrameAll, ctrl_shortcut(KeyCode::Num1) => EditorAction::FrontView]);
        assert(manager.shortcuts_view() =~= map![EditorAction::NewScene => ctrl_shortcut(KeyCode::N), EditorAction::OpenScene => ctrl_shortcut(KeyCode::O), EditorAction::SaveScene => ctrl_shortcut(KeyCode::S), EditorAction::SaveSceneAs => ctrl_shift_shortcut(KeyCode::S), EditorAction::Undo => ctrl_shortcut(KeyCode::Z), EditorAction::Redo => ctrl_shortcut(KeyCode::Y), EditorAction::Cut => ctrl_shortcut(KeyCode::X), EditorAction::Copy => ctrl_shortcut(KeyCode::C), EditorAction::Paste => ctrl_shortcut(KeyCode::V), EditorAction::Delete => plain_shortcut(KeyCode::Delete), EditorAction::Duplicate => ctrl_shortcut(KeyCode::D), EditorAction::SelectAll => ctrl_shortcut(KeyCode::A), EditorAction::SelectTool => plain_shortcut(KeyCode::Q), EditorAction::MoveTool => plain_shortcut(KeyCode::W), EditorAction::RotateTool => plain_shortcut(KeyCode::E), EditorAction::ScaleTool => plain_shortcut(KeyCode::R), EditorAction::FocusSelected => plain_shortcut(KeyCode::F), EditorAction::FrameAll => plain_shortcut(KeyCode::Home), EditorAction::FrontView => ctrl_shortcut(KeyCode::Num1)]);
        manager.bind(Shortcut::ctrl(KeyCode::Num7), EditorAction::TopView);
        assert(manager.bindings_view() =~= map![ctrl_shortcut(KeyCode::N) => EditorAction::NewScene, ctrl_shortcut(KeyCode::O) => EditorAction::OpenScene, ctrl_shortcut(KeyCode::S) => EditorAction::SaveScene, ctrl_shift_shortcut(KeyCode::S) => EditorAction::SaveSceneAs, ctrl_shortcut(KeyCode::Z) => EditorAction::Undo, ctrl_shortcut(KeyCode::Y) => EditorAction::Redo, ctrl_shortcut(KeyCode::X) => EditorAction::Cut, ctrl_shortcut(KeyCode::C) => EditorAction::Copy, ctrl_shortcut(KeyCode::V) => EditorAction::Paste, plain_shortcut(KeyCode::Delete) => EditorAction::Delete, ctrl_shortcut(KeyCode::D) => EditorAction::Duplicate, ctrl_shortcut(KeyCode::A) => EditorAction::SelectAll, plain_shortcut(KeyCode::Q) => EditorAction::SelectTool, plain_shortcut(KeyCode::W) => EditorAction::MoveTool, plain_shortcut(KeyCode::E) => EditorAction::RotateTool, plain_shortcut(KeyCode::R) => EditorAction::ScaleTool, plain_shortcut(KeyCode::F) => EditorAction::FocusSelected, plain_shortcut(KeyCode::Home) => EditorAction::FrameAll, ctrl_shortcut(KeyCode::Num1) => EditorAction::FrontView, ctrl_shortcut(KeyCode::Num7) => EditorAction::TopView]);
        assert(manager.shortcuts_view() =~= map![EditorAction::NewScene => ctrl_shortcut(KeyCode::N), EditorAction::OpenScene => ctrl_shortcut(KeyCode::O), EditorAction::SaveScene => ctrl_shortcut(KeyCode::S), EditorAction::SaveSceneAs => ctrl_shift_shortcut(KeyCode::S), EditorAction::Undo => ctrl_shortcut(KeyCode::Z), EditorAction::Redo => ctrl_shortcut(KeyCode::Y), EditorAction::Cut => ctrl_shortcut(KeyCode::X), EditorAction::Copy => ctrl_shortcut(KeyCode::C), EditorAction::Paste => ctrl_shortcut(KeyCode::V), EditorAction::Delete => plain_shortcut(KeyCode::Delete), EditorAction::Duplicate => ctrl_shortcut(KeyCode::D), EditorAction::SelectAll => ctrl_shortcut(KeyCode::A), EditorAction::SelectTool => plain_shortcut(KeyCode::Q), EditorAction::MoveTool => plain_shortcut(KeyCode::W), EditorAction::RotateTool => plain_shortcut(KeyCode::E), EditorAction::ScaleTool => plain_shortcut(KeyCode::R), EditorAction::FocusSelected => plain_shortcut(KeyCode::F), EditorAction::FrameAll => plain_shortcut(KeyCode::Home), EditorAction::FrontView => ctrl_shortcut(KeyCode::Num1), EditorAction::TopView => ctrl_shortcut(KeyCode::Num7)]);
        manager.bind(Shortcut::ctrl(KeyCode::Num3), EditorAction::SideView);
        assert(manager.bindings_view() =~= map![ctrl_shortcut(KeyCode::N) => EditorAction::NewScene, ctrl_shortcut(KeyCode::O) => EditorAction::OpenScene, ctrl_shortcut(KeyCode::S) => EditorAction::SaveScene, ctrl_shift_shortcut(KeyCode::S) => EditorAction::SaveSceneAs, ctrl_shortcut(KeyCode::Z) => EditorAction::Undo, ctrl_shortcut(KeyCode::Y) => EditorAction::Redo, ctrl_shortcut(KeyCode::X) => EditorAction::Cut, ctrl_shortcut(KeyCode::C) => EditorAction::Copy, ctrl_shortcut(KeyCode::V) => EditorAction::Paste, plain_shortcut(KeyCode::Delete) => EditorAction::Delete, ctrl_shortcut(KeyCode::D) => EditorAction::Duplicate, ctrl_shortcut(KeyCode::A) => EditorAction::SelectAll, plain_shortcut(KeyCode::Q) => EditorAction::SelectTool, plain_shortcut(KeyCode::W) => EditorAction::MoveTool, plain_shortcut(KeyCode::E) => EditorAction::RotateTool, plain_shortcut(KeyCode::R) => EditorAction::ScaleTool, plain_shortcut(KeyCode::F) => EditorAction::FocusSelected, plain_shortcut(KeyCode::Home) => EditorAction::FrameAll, ctrl_shortcut(KeyCode::Num1) => EditorAction::FrontView, ctrl_shortcut(KeyCode::Num7) => EditorAction::TopView, ctrl_shortcut(KeyCode::Num3) => EditorAction::SideView]);
        assert(manager.shortcuts_view() =~= map![EditorAction::NewScene => ctrl_shortcut(KeyCode::N), EditorAction::OpenScene => ctrl_shortcut(KeyCode::O), EditorAction::SaveScene => ctrl_shortcut(KeyCode::S), EditorAction::SaveSceneAs => ctrl_shift_shortcut(KeyCode::S), EditorAction::Undo => ctrl_shortcut(KeyCode::Z), EditorAction::Redo => ctrl_shortcut(KeyCode::Y), EditorAction::Cut => ctrl_shortcut(KeyCode::X), EditorAction::Copy => ctrl_shortcut(KeyCode::C), EditorAction::Paste => ctrl_shortcut(KeyCode::V), EditorAction::Delete => plain_shortcut(KeyCode::Delete), EditorAction::Duplicate => ctrl_shortcut(KeyCode::D), EditorAction::SelectAll => ctrl_shortcut(KeyCode::A), EditorAction::SelectTool => plain_shortcut(KeyCode::Q), EditorAction::MoveTool => plain_shortcut(KeyCode::W), EditorAction::RotateTool => plain_shortcut(KeyCode::E), EditorAction::ScaleTool => plain_shortcut(KeyCode::R), EditorAction::FocusSelected => plain_shortcut(KeyCode::F), EditorAction::FrameAll => plain_shortcut(KeyCode::Home), EditorAction::FrontView => ctrl_shortcut(KeyCode::Num1), EditorAction::TopView => ctrl_shortcut(KeyCode::Num7), EditorAction::SideView => ctrl_shortcut(KeyCode::Num3)]);
        manager.bind(Shortcut::key(KeyCode::H), EditorAction::ToggleVisibility);
        assert(manager.bindings_view() =~= map![ctrl_shortcut(KeyCode::N) => EditorAction::NewScene, ctrl_shortcut(KeyCode::O) => EditorAction::OpenScene, ctrl_shortcut(KeyCode::S) => EditorAction::SaveScene, ctrl_shift_shortcut(KeyCode::S) => EditorAction::SaveSceneAs, ctrl_shortcut(KeyCode::Z) => EditorAction::Undo, ctrl_shortcut(KeyCode::Y) => EditorAction::Redo, ctrl_shortcut(KeyCode::X) => EditorAction::Cut, ctrl_shortcut(KeyCode::C) => EditorAction::Copy, ctrl_shortcut(KeyCode::V) => EditorAction::Paste, plain_shortcut(KeyCode::Delete) => EditorAction::Delete, ctrl_shortcut(KeyCode::D) => EditorAction::Duplicate, ctrl_shortcut(KeyCode::A) => EditorAction::SelectAll, plain_shortcut(KeyCode::Q) => EditorAction::SelectTool, plain_shortcut(KeyCode::W) => EditorAction::MoveTool, plain_shortcut(KeyCode::E) => EditorAction::RotateTool, plain_shortcut(KeyCode::R) => EditorAction::ScaleTool, plain_shortcut(KeyCode::F) => EditorAction::FocusSelected, plain_shortcut(KeyCode::Home) => EditorAction::FrameAll, ctrl_shortcut(KeyCode::Num1) => EditorAction::FrontView, ctrl_shortcut(KeyCode::Num7) => EditorAction::TopView, ctrl_shortcut(KeyCode::Num3) => EditorAction::SideView, plain_shortcut(KeyCode::H) => EditorAction::ToggleVisibility]);
        assert(manager.shortcuts_view() =~= map![EditorAction::NewScene => ctrl_shortcut(KeyCode::N), EditorAction::OpenScene => ctrl_shortcut(KeyCode::O), EditorAction::SaveScene => ctrl_shortcut(KeyCode::S), EditorAction::SaveSceneAs => ctrl_shift_shortcut(KeyCode::S), EditorAction::Undo => ctrl_shortcut(KeyCode::Z), EditorAction::Redo => ctrl_shortcut(KeyCode::Y), EditorAction::Cut => ctrl_shortcut(KeyCode::X), EditorAction::Copy => ctrl_shortcut(KeyCode::C), EditorAction::Paste => ctrl_shortcut(KeyCode::V), EditorAction::Delete => plain_shortcut(KeyCode::Delete), EditorAction::Duplicate => ctrl_shortcut(KeyCode::D), EditorAction::SelectAll => ctrl_shortcut(KeyCode::A), EditorAction::SelectTool => plain_shortcut(KeyCode::Q), EditorAction::MoveTool => plain_shortcut(KeyCode::W), EditorAction::RotateTool => plain_shortcut(KeyCode::E), EditorAction::ScaleTool => plain_shortcut(KeyCode::R), EditorAction::FocusSelected => plain_shortcut(KeyCode::F), EditorAction::FrameAll => plain_shortcut(KeyCode::Home), EditorAction::FrontView => ctrl_shortcut(KeyCode::Num1), EditorAction::TopView => ctrl_shortcut(KeyCode::Num7), EditorAction::SideView => ctrl_shortcut(KeyCode::Num3), EditorAction::ToggleVisibility => plain_shortcut(KeyCode::H)]);
        manager.bind(Shortcut::key(KeyCode::F5), EditorAction::TogglePlay);
        assert(manager.bindings_view() =~= map![ctrl_shortcut(KeyCode::N) => EditorAction::NewScene, ctrl_shortcut(KeyCode::O) => EditorAction::OpenScene, ctrl_shortcut(KeyCode::S) => EditorAction::SaveScene, ctrl_shift_shortcut(KeyCode::S) => EditorAction::SaveSceneAs, ctrl_shortcut(KeyCode::Z) => EditorAction::Undo, ctrl_shortcut(KeyCode::Y) => EditorAction::Redo, ctrl_shortcut(KeyCode::X) => EditorAction::Cut, ctrl_shortcut(KeyCode::C) => EditorAction::Copy, ctrl_shortcut(KeyCode::V) => EditorAction::Paste, plain_shortcut(KeyCode::Delete) => EditorAction::Delete, ctrl_shortcut(KeyCode::D) => EditorAction::Duplicate, ctrl_shortcut(KeyCode::A) => EditorAction::SelectAll, plain_shortcut(KeyCode::Q) => EditorAction::SelectTool, plain_shortcut(KeyCode::W) => EditorAction::MoveTool, plain_shortcut(KeyCode::E) => EditorAction::RotateTool, plain_shortcut(KeyCode::R) => EditorAction::ScaleTool, plain_shortcut(KeyCode::F) => EditorAction::FocusSelected, plain_shortcut(KeyCode::Home) => EditorAction::FrameAll, ctrl_shortcut(KeyCode::Num1) => EditorAction::FrontView, ctrl_shortcut(KeyCode::Num7) => EditorAction::TopView, ctrl_shortcut(KeyCode::Num3) => EditorAction::SideView, plain_shortcut(KeyCode::H) => EditorAction::ToggleVisibility, plain_shortcut(KeyCode::F5) => EditorAction::TogglePlay]);
        assert(manager.shortcuts_view() =~= map![EditorAction::NewScene => ctrl_shortcut(KeyCode::N), EditorAction::OpenScene => ctrl_shortcut(KeyCode::O), EditorAction::SaveScene => ctrl_shortcut(KeyCode::S), EditorAction::SaveSceneAs => ctrl_shift_shortcut(KeyCode::S), EditorAction::Undo => ctrl_shortcut(KeyCode::Z), EditorAction::Redo => ctrl_shortcut(KeyCode::Y), EditorAction::Cut => ctrl_shortcut(KeyCode::X), EditorAction::Copy => ctrl_shortcut(KeyCode::C), EditorAction::Paste => ctrl_shortcut(KeyCode::V), EditorAction::Delete => plain_shortcut(KeyCode::Delete), EditorAction::Duplicate => ctrl_shortcut(KeyCode::D), EditorAction::SelectAll => ctrl_shortcut(KeyCode::A), EditorAction::SelectTool => plain_shortcut(KeyCode::Q), EditorAction::MoveTool => plain_shortcut(KeyCode::W), EditorAction::RotateTool => plain_shortcut(KeyCode::E), EditorAction::ScaleTool => plain_shortcut(KeyCode::R), EditorAction::FocusSelected => plain_shortcut(KeyCode::F), EditorAction::FrameAll => plain_shortcut(KeyCode::Home), EditorAction::FrontView => ctrl_shortcut(KeyCode::Num1), EditorAction::TopView => ctrl_shortcut(KeyCode::Num7), EditorAction::SideView => ctrl_shortcut(KeyCode::Num3), EditorAction::ToggleVisibility => plain_shortcut(KeyCode::H), EditorAction::TogglePlay => plain_shortcut(KeyCode::F5)]);
        manager
    }
}

} // verus!

verus! {

/// No action is bound to two shortcuts in the list.
pub open spec fn actions_unique(list: Seq<(Shortcut, EditorAction)>) -> bool {
    forall|i: int, j: int|
        0 <= i < list.len() && 0 <= j < list.len() && i != j ==> #[trigger] list[i].1
            != #[trigger] list[j].1
}

/// The actions whose shortcut fires on this frame's input, in list order: the
/// shortcut's modifiers match the held ones and its key was pressed.
pub open spec fn triggered(
    list: Seq<(Shortcut, EditorAction)>,
    mods: ModifierState,
    pressed: Seq<KeyCode>,
) -> Seq<EditorAction> {
    list.filter(
        |p: (Shortcut, EditorAction)| p.0.modifiers.spec_matches(mods) && pressed.contains(p.0.key),
    ).map_values(|p: (Shortcut, EditorAction)| p.1)
}

impl Default for ShortcutManager {
    fn default() -> (r: Self)
        ensures
            r.wf(),
            r.bindings_view() == default_bindings(),
            r.shortcuts_view() == default_shortcuts(),
    {
        Self::new()
    }
}

impl ShortcutManager {
    /// Remove the binding of a shortcut, and the reverse entry of its action.
    pub fn unbind(&mut self, shortcut: &Shortcut)
        requires
            old(self).wf(),
        ensures
            final(self).wf(),
            (final(self).bindings_view(), final(self).shortcuts_view()) == unbound(
                old(self).bindings_view(),
                old(self).shortcuts_view(),
                *shortcut,
            ),
    {
        match find_shortcut(&self.bindings, shortcut) {
            Some(j) => {
                proof {
                    lemma_assoc_index(self.bindings@, j as int);
                    lemma_assoc_remove(self.bindings@, j as int);
                }
                let (_, action) = self.bindings.remove(j);
                match find_action(&self.action_shortcuts, action) {
                    Some(i) => {
                        proof {
                            lemma_assoc_remove(self.action_shortcuts@, i as int);
                        }
                        self.action_shortcuts.remove(i);
                    },
                    None => {
                        proof {
                            lemma_assoc_absent(self.action_shortcuts@, action);
                            assert(self.shortcuts_view().remove(action) =~= self.shortcuts_view());
                        }
                    },
                }
            },
            None => {
                proof {
                    lemma_assoc_absent(self.bindings@, *shortcut);
                }
            },
        }
    }

    /// The action bound to a shortcut, if any.
    pub fn get_action(&self, shortcut: &Shortcut) -> (r: Option<EditorAction>)
        requires
            self.wf(),
        ensures
            r == (if self.bindings_view().contains_key(*shortcut) {
                Some(self.bindings_view()[*shortcut])
            } else {
                None
            }),
    {
        match find_shortcut(&self.bindings, shortcut) {
            Some(j) => {
                proof {
                    lemma_assoc_index(self.bindings@, j as int);
                }
                Some(self.bindings[j].1)
            },
            None => {
                proof {
                    lemma_assoc_absent(self.bindings@, *shortcut);
                }
                None
            },
        }
    }

    /// The shortcut of an action, if any.
    pub fn get_shortcut(&self, action: EditorAction) -> (r: Option<&Shortcut>)
        requires
            self.wf(),
        ensures
            match r {
                Some(s) => self.shortcuts_view().contains_key(action) && *s
                    == self.shortcuts_view()[action],
                None => !self.shortcuts_view().contains_key(action),
            },
    {
        match find_action(&self.action_shortcuts, action) {
            Some(i) => {
                proof {
                    lemma_assoc_index(self.action_shortcuts@, i as int);
                }
                Some(&self.action_shortcuts[i].1)
            },
            None => {
                proof {
                    lemma_assoc_absent(self.action_shortcuts@, action);
                }
                None
            },
        }
    }

    /// The display text of an action's shortcut, or the empty string.
    pub fn get_shortcut_text(&self, action: EditorAction) -> (r: String)
        requires
            self.wf(),
        ensures
            r@ == (if self.shortcuts_view().contains_key(action) {
                shortcut_text(self.shortcuts_view()[action])
            } else {
                Seq::empty()
            }),
    {
        match self.get_shortcut(action) {
            Some(s) => s.display(),
            None => String::new(),
        }
    }

    /// Rebuild the reverse lookup from the bindings (after loading them):
    /// each action maps to its shortcut, the later of two winning.
    pub fn rebuild_lookup(&mut self)
        requires
            old(self).wf(),
        ensures
            final(self).wf(),
            final(self).binding_list() == old(self).binding_list(),
            final(self).shortcuts_view() == assoc_map(swapped(old(self).binding_list())),
    {
        self.action_shortcuts.clear();
        let n = self.bindings.len();
        let mut i: usize = 0;
        while i < n
            invariant
                n == self.bindings@.len(),
                i <= n,
                self.bindings@ == old(self).bindings@,
                keys_unique(self.bindings@),
                keys_unique(self.action_shortcuts@),
                assoc_map(self.action_shortcuts@) == assoc_map(
                    swapped(self.bindings@.subrange(0, i as int)),
                ),
            decreases n - i,
        {
            let (shortcut, action) = self.bindings[i];
            proof {
                assert(swapped(self.bindings@.subrange(0, i + 1)).drop_last() =~= swapped(
                    self.bindings@.subrange(0, i as int),
                ));
            }
            match find_action(&self.action_shortcuts, action) {
                Some(k) => {
                    proof {
                        lemma_assoc_update(self.action_shortcuts@, k as int, shortcut);
                    }
                    self.action_shortcuts.set(k, (action, shortcut));
                },
                None => {
                    proof {
                        lemma_keys_unique_push(self.action_shortcuts@, action, shortcut);
                        lemma_assoc_push(self.action_shortcuts@, action, shortcut);
                    }
                    self.action_shortcuts.push((action, shortcut));
                },
            }
            i = i + 1;
        }
        assert(self.bindings@.subrange(0, n as int) =~= self.bindings@);
    }

    /// All bindings, for display and editing.
    pub fn all_bindings(&self) -> (r: &[(Shortcut, EditorAction)])
        requires
            self.wf(),
        ensures
            r@ == self.binding_list(),
            keys_unique(r@),
            assoc_map(r@) == self.bindings_view(),
    {
        self.bindings.as_slice()
    }

    /// The actions triggered by one frame's input: each binding whose
    /// modifiers match the held ones and whose key was pressed.
    pub fn triggered_actions(&self, mods: &ModifierState, pressed: &[KeyCode]) -> (r: Vec<
        EditorAction,
    >)
        requires
            self.wf(),
        ensures
            r@ == triggered(self.binding_list(), *mods, pressed@),
    {
        let ghost pred = |p: (Shortcut, EditorAction)|
            p.0.modifiers.spec_matches(*mods) && pressed@.contains(p.0.key);
        let ghost second = |p: (Shortcut, EditorAction)| p.1;
        let mut r: Vec<EditorAction> = Vec::new();
        let n = self.bindings.len();
        let mut i: usize = 0;
        while i < n
            invariant
                n == self.bindings@.len(),
                i <= n,
                r@ == self.bindings@.subrange(0, i as int).filter(pred).map_values(second),
                pred == (|p: (Shortcut, EditorAction)|
                    p.0.modifiers.spec_matches(*mods) && pressed@.contains(p.0.key)),
                second == (|p: (Shortcut, EditorAction)| p.1),
            decreases n - i,
        {
            let (shortcut, action) = self.bindings[i];
            let held = shortcut.modifiers.matches(mods);
            let pressed_now = contains_key_code(pressed, shortcut.key);
            let ghost s = self.bindings@.subrange(0, i as int);
            let ghost x = self.bindings@[i as int];
            proof {
                assert(self.bindings@.subrange(0, i + 1) =~= s.push(x));
                s.lemma_filter_push(x, pred);
                assert(pred(x) == (held && pressed_now));
                assert(s.filter(pred).push(x).map_values(second) =~= s.filter(pred).map_values(
                    second,
                ).push(action));
            }
            if held && pressed_now {
                r.push(action);
            }
            i = i + 1;
        }
        assert(self.bindings@.subrange(0, n as int) =~= self.bindings@);
        r
    }
}

fn contains_key_code(keys: &[KeyCode], key: KeyCode) -> (b: bool)
    ensures
        b == keys@.contains(key),
{
    let mut i: usize = 0;
    while i < keys.len()
        invariant
            i <= keys@.len(),
            forall|j: int| 0 <= j < i ==> keys@[j] != key,
        decreases keys@.len() - i,
    {
        if keys[i] == key {
            return true;
        }
        i = i + 1;
    }
    false
}

/// Binding a shortcut keeps the two lookup directions in agreement.
pub proof fn lemma_bind_keeps_consistent(
    bindings: Map<Shortcut, EditorAction>,
    shortcuts: Map<EditorAction, Shortcut>,
    shortcut: Shortcut,
    action: EditorAction,
)
    requires
        consistent(bindings, shortcuts),
    ensures
        consistent(bound(bindings, shortcuts, shortcut, action).0, bound(bindings, shortcuts, shortcut, action).1),
{
}

/// Unbinding a shortcut keeps the two lookup directions in agreement.
pub proof fn lemma_unbind_keeps_consistent(
    bindings: Map<Shortcut, EditorAction>,
    shortcuts: Map<EditorAction, Shortcut>,
    shortcut: Shortcut,
)
    requires
        consistent(bindings, shortcuts),
    ensures
        consistent(unbound(bindings, shortcuts, shortcut).0, unbound(bindings, shortcuts, shortcut).1),
{
}

/// After binding, the shortcut fires the action and the action shows the shortcut.
pub proof fn lemma_bind_then_lookup(
    bindings: Map<Shortcut, EditorAction>,
    shortcuts: Map<EditorAction, Shortcut>,
    shortcut: Shortcut,
    action: EditorAction,
)
    ensures
        bound(bindings, shortcuts, shortcut, action).0[shortcut] == action,
        bound(bindings, shortcuts, shortcut, action).0.contains_key(shortcut),
        bound(bindings, shortcuts, shortcut, action).1[action] == shortcut,
        bound(bindings, shortcuts, shortcut, action).1.contains_key(action),
{
}

/// After unbinding, the shortcut fires nothing.
pub proof fn lemma_unbind_then_lookup(
    bindings: Map<Shortcut, EditorAction>,
    shortcuts: Map<EditorAction, Shortcut>,
    shortcut: Shortcut,
)
    ensures
        !unbound(bindings, shortcuts, shortcut).0.contains_key(shortcut),
{
}

/// The default bindings are consistent both ways.
pub proof fn lemma_defaults_consistent()
    ensures
        consistent(default_bindings(), default_shortcuts()),
{
}

/// Rebuilding the reverse lookup from a list in which no action is bound
/// twice makes both directions agree.
pub proof fn lemma_rebuilt_lookup_consistent(list: Seq<(Shortcut, EditorAction)>)
    requires
        keys_unique(list),
        actions_unique(list),
    ensures
        consistent(assoc_map(list), assoc_map(swapped(list))),
{
    let sw = swapped(list);
    assert(keys_unique(sw)) by {
        assert forall|a: int, b: int|
            0 <= a < sw.len() && 0 <= b < sw.len() && a != b implies #[trigger] sw[a].0
            != #[trigger] sw[b].0 by {
            assert(sw[a].0 == list[a].1 && sw[b].0 == list[b].1);
        }
    }
    lemma_assoc_dom_all(list);
    lemma_assoc_dom_all(sw);
    assert forall|s: Shortcut| #[trigger] assoc_map(list).contains_key(s) implies assoc_map(
        sw,
    ).contains_key(assoc_map(list)[s]) && assoc_map(sw)[assoc_map(list)[s]] == s by {
        let i = choose|i: int| 0 <= i < list.len() && list[i].0 == s;
        lemma_assoc_index(list, i);
        lemma_assoc_index(sw, i);
    }
    assert forall|a: EditorAction| #[trigger] assoc_map(sw).contains_key(a) implies assoc_map(
        list,
    ).contains_key(assoc_map(sw)[a]) && assoc_map(list)[assoc_map(sw)[a]] == a by {
        let i = choose|i: int| 0 <= i < sw.len() && sw[i].0 == a;
        lemma_assoc_index(list, i);
        lemma_assoc_index(sw, i);
    }
}

/// An action fires exactly when some binding of it matches the input.
/// A shortcut fires only with exactly its modifiers held: Alt held or not
/// as it asks, Shift likewise, and Ctrl (or the command key) held exactly
/// when it asks for Ctrl; and its key must be among the pressed keys. So a
/// shortcut without Alt never fires while Alt is held.
pub proof fn lemma_triggered_needs_exact_modifiers(
    list: Seq<(Shortcut, EditorAction)>,
    mods: ModifierState,
    pressed: Seq<KeyCode>,
    action: EditorAction,
)
    ensures
        triggered(list, mods, pressed).contains(action) ==> exists|i: int|
            0 <= i < list.len() && list[i].1 == action && list[i].0.modifiers.alt == mods.alt
                && list[i].0.modifiers.shift == mods.shift && (list[i].0.modifiers.ctrl <==> (
            mods.ctrl || mods.command)) && pressed.contains(list[i].0.key),
        (forall|i: int| 0 <= i < list.len() ==> !(#[trigger] list[i]).0.modifiers.alt) && mods.alt
            ==> triggered(list, mods, pressed).len() == 0,
{
    lemma_triggered_member(list, mods, pressed, action);
    if (forall|i: int| 0 <= i < list.len() ==> !(#[trigger] list[i]).0.modifiers.alt) && mods.alt {
        let t = triggered(list, mods, pressed);
        if t.len() > 0 {
            lemma_triggered_member(list, mods, pressed, t[0]);
            assert(t.contains(t[0]));
        }
    }
}

pub proof fn lemma_triggered_member(
    list: Seq<(Shortcut, EditorAction)>,
    mods: ModifierState,
    pressed: Seq<KeyCode>,
    action: EditorAction,
)
    ensures
        triggered(list, mods, pressed).contains(action) <==> exists|i: int|
            0 <= i < list.len() && list[i].1 == action && list[i].0.modifiers.spec_matches(mods)
                && pressed.contains(list[i].0.key),
{
    let pred = |p: (Shortcut, EditorAction)|
        p.0.modifiers.spec_matches(mods) && pressed.contains(p.0.key);
    let f = list.filter(pred);
    let t = triggered(list, mods, pressed);
    assert(t == f.map_values(|p: (Shortcut, EditorAction)| p.1));
    if t.contains(action) {
        let k = choose|k: int| 0 <= k < t.len() && #[trigger] t[k] == action;
        assert(f[k].1 == action);
        list.lemma_filter_contains_rev(pred, f[k]);
    }
    if exists|i: int|
        0 <= i < list.len() && list[i].1 == action && list[i].0.modifiers.spec_matches(mods)
            && pressed.contains(list[i].0.key) {
        let i = choose|i: int|
            0 <= i < list.len() && list[i].1 == action && list[i].0.modifiers.spec_matches(mods)
                && pressed.contains(list[i].0.key);
        list.lemma_filter_contains(pred, i);
        let k = choose|k: int| 0 <= k < f.len() && f[k] == list[i];
        assert(t[k] == action);
    }
}

} // verus!

//! Shortcut types: modifier sets and key + modifier combinations.
use vstd::prelude::*;

use super::keys::{key_label, KeyCode};

verus! {

/// Modifier keys that a shortcut requires.
#[derive(Clone, Copy, Debug, PartialEq, Eq, Hash, Structural)]
pub struct Modifiers {
    pub ctrl: bool,
    pub shift: bool,
    pub alt: bool,
}

/// The modifier keys held while a frame's input was read, as the
/// windowing layer reports them (`command` is Ctrl, or Cmd on macOS).
#[derive(Clone, Copy, Debug, PartialEq, Eq, Hash, Structural)]
pub struct ModifierState {
    pub alt: bool,
    pub ctrl: bool,
    pub shift: bool,
    pub mac_cmd: bool,
    pub command: bool,
}

impl Default for Modifiers {
    fn default() -> (r: Self)
        ensures
            r == Modifiers::spec_none(),
    {
        Self::none()
    }
}

impl Modifiers {
    /// The empty modifier set.
    pub open spec fn spec_none() -> Modifiers {
        Modifiers { ctrl: false, shift: false, alt: false }
    }

    /// No modifiers.
    pub fn none() -> (r: Self)
        ensures
            r == Modifiers::spec_none(),
    {
        Self { ctrl: false, shift: false, alt: false }
    }

    /// Ctrl modifier.
    pub fn ctrl() -> (r: Self)
        ensures
            r == (Modifiers { ctrl: true, shift: false, alt: false }),
    {
        Self { ctrl: true, shift: false, alt: false }
    }

    /// Shift modifier.
    pub fn shift() -> (r: Self)
        ensures
            r == (Modifiers { ctrl: false, shift: true, alt: false }),
    {
        Self { ctrl: false, shift: true, alt: false }
    }

    /// Alt modifier.
    pub fn alt() -> (r: Self)
        ensures
            r == (Modifiers { ctrl: false, shift: false, alt: true }),
    {
        Self { ctrl: false, shift: false, alt: true }
    }

    /// Ctrl+Shift modifier.
    pub fn ctrl_shift() -> (r: Self)
        ensures
            r == (Modifiers { ctrl: true, shift: true, alt: false }),
    {
        Self { ctrl: true, shift: true, alt: false }
    }

    /// Whether the held modifiers are exactly the ones this set asks for;
    /// Ctrl is satisfied by either Ctrl or the platform command key.
    pub open spec fn spec_matches(self, mods: ModifierState) -> bool {
        &&& self.ctrl == (mods.ctrl || mods.command)
        &&& self.shift == mods.shift
        &&& self.alt == mods.alt
    }

    /// Check whether the held modifiers match this set.
    pub fn matches(&self, mods: &ModifierState) -> (b: bool)
        ensures
            b == self.spec_matches(*mods),
            b ==> self.alt == mods.alt && self.shift == mods.shift,
            b ==> (self.ctrl <==> (mods.ctrl || mods.command)),
            self.alt == mods.alt && self.shift == mods.shift && (self.ctrl <==> (mods.ctrl
                || mods.command)) ==> b,
    {
        self.ctrl == (mods.ctrl || mods.command) && self.shift == mods.shift && self.alt == mods.alt
    }
}

/// A keyboard shortcut (key + modifiers).
#[derive(Clone, Copy, Debug, PartialEq, Eq, Hash, Structural)]
pub struct Shortcut {
    pub key: KeyCode,
    pub modifiers: Modifiers,
}

/// The text of a shortcut as shown to the user: the held modifiers in the
/// order Ctrl, Shift, Alt, then the key, joined by `+`.
pub open spec fn shortcut_text(s: Shortcut) -> Seq<char> {
    (if s.modifiers.ctrl { "Ctrl+"@ } else { Seq::empty() }) + (if s.modifiers.shift {
        "Shift+"@
    } else {
        Seq::empty()
    }) + (if s.modifiers.alt { "Alt+"@ } else { Seq::empty() }) + key_label(s.key)
}

impl Shortcut {
    /// Create a new shortcut.
    pub fn new(key: KeyCode, modifiers: Modifiers) -> (r: Self)
        ensures
            r == (Shortcut { key, modifiers }),
    {
        Self { key, modifiers }
    }

    /// A key without modifiers.
    pub fn key(key: KeyCode) -> (r: Self)
        ensures
            r == (Shortcut { key, modifiers: Modifiers::spec_none() }),
    {
        Self { key, modifiers: Modifiers::none() }
    }

    /// Ctrl + key.
    pub fn ctrl(key: KeyCode) -> (r: Self)
        ensures
            r == (Shortcut { key, modifiers: Modifiers { ctrl: true, shift: false, alt: false } }),
    {
        Self { key, modifiers: Modifiers::ctrl() }
    }

    /// Shift + key.
    pub fn shift(key: KeyCode) -> (r: Self)
        ensures
            r == (Shortcut { key, modifiers: Modifiers { ctrl: false, shift: true, alt: false } }),
    {
        Self { key, modifiers: Modifiers::shift() }
    }

    /// Ctrl+Shift + key.
    pub fn ctrl_shift(key: KeyCode) -> (r: Self)
        ensures
            r == (Shortcut { key, modifiers: Modifiers { ctrl: true, shift: true, alt: false } }),
    {
        Self { key, modifiers: Modifiers::ctrl_shift() }
    }

    /// Format as a human-readable string such as `Ctrl+Shift+Z`.
    pub fn display(&self) -> (r: String)
        ensures
            r@ == shortcut_text(*self),
    {
        let mut text = String::new();
        if self.modifiers.ctrl {
            text.append("Ctrl+");
        }
        if self.modifiers.shift {
            text.append("Shift+");
        }
        if self.modifiers.alt {
            text.append("Alt+");
        }
        text.append(self.key.name());
        assert(text@ =~= shortcut_text(*self));
        text
    }
}

} // verus!

//! Keyboard state: which keys are held, and which changed this frame.
use vstd::prelude::*;

verus! {

/// The state of a key in the current frame.
#[derive(Clone, Copy, Debug, PartialEq, Eq, Structural)]
pub enum KeyState {
    Released,
    Pressed,
    Held,
    JustReleased,
}

/// Virtual key codes.
#[derive(Clone, Copy, Debug, PartialEq, Eq, Hash, Structural)]
pub enum KeyCode {
    A,
    B,
    C,
    D,
    E,
    F,
    G,
    H,
    I,
    J,
    K,
    L,
    M,
    N,
    O,
    P,
    Q,
    R,
    S,
    T,
    U,
    V,
    W,
    X,
    Y,
    Z,
    Key0,
    Key1,
    Key2,
    Key3,
    Key4,
    Key5,
    Key6,
    Key7,
    Key8,
    Key9,
    Space,
    Enter,
    Escape,
    Tab,
    Backspace,
    Left,
    Right,
    Up,
    Down,
    LShift,
    RShift,
    LControl,
    RControl,
    LAlt,
    RAlt,
    F1,
    F2,
    F3,
    F4,
    F5,
    F6,
    F7,
    F8,
    F9,
    F10,
    F11,
    F12,
}

fn key_position(keys: &Vec<KeyCode>, key: KeyCode) -> (r: Option<usize>)
    ensures
        match r {
            Some(i) => i < keys@.len() && keys@[i as int] == key,
            None => !keys@.contains(key),
        },
{
    let mut i: usize = 0;
    while i < keys.len()
        invariant
            i <= keys@.len(),
            forall|j: int| 0 <= j < i ==> keys@[j] != key,
        decreases keys@.len() - i,
    {
        if keys[i] == key {
            return Some(i);
        }
        i = i + 1;
    }
    None
}

fn insert_key(keys: &mut Vec<KeyCode>, key: KeyCode)
    requires
        old(keys)@.no_duplicates(),
    ensures
        final(keys)@.no_duplicates(),
        final(keys)@.to_set() == old(keys)@.to_set().insert(key),
{
    if key_position(keys, key).is_none() {
        proof {
            old(keys)@.lemma_push_to_set_commute(key);
        }
        keys.push(key);
    } else {
        assert(old(keys)@.to_set().insert(key) =~= old(keys)@.to_set());
    }
}

fn remove_key(keys: &mut Vec<KeyCode>, key: KeyCode)
    requires
        old(keys)@.no_duplicates(),
    ensures
        final(keys)@.no_duplicates(),
        final(keys)@.to_set() == old(keys)@.to_set().remove(key),
{
    match key_position(keys, key) {
        Some(i) => {
            let ghost s = keys@;
            keys.remove(i);
            proof {
                assert(keys@ =~= s.remove(i as int));
                assert forall|k: KeyCode| keys@.to_set().contains(k) <==> s.to_set().remove(
                    key,
                ).contains(k) by {
                    if keys@.contains(k) {
                        let j = choose|j: int| 0 <= j < keys@.len() && keys@[j] == k;
                        if j < i {
                            assert(s[j] == k);
                        } else {
                            assert(s[j + 1] == k);
                        }
                    }
                    if s.contains(k) && k != key {
                        let j = choose|j: int| 0 <= j < s.len() && s[j] == k;
                        if j < i {
                            assert(keys@[j] == k);
                        } else {
                            assert(keys@[j - 1] == k);
                        }
                    }
                }
                assert(keys@.to_set() =~= s.to_set().remove(key));
            }
        },
        None => {
            assert(old(keys)@.to_set().remove(key) =~= old(keys)@.to_set());
        },
    }
}

/// Tracks which keys are held, and which went down or up this frame.
pub struct Keyboard {
    pressed: Vec<KeyCode>,
    just_pressed: Vec<KeyCode>,
    just_released: Vec<KeyCode>,
}

/// The abstract keyboard state.
pub struct KeyboardView {
    pub pressed: Set<KeyCode>,
    pub just_pressed: Set<KeyCode>,
    pub just_released: Set<KeyCode>,
}

/// The state that `Keyboard::state` reports for a key.
pub open spec fn key_state_of(k: KeyboardView, key: KeyCode) -> KeyState {
    if k.just_pressed.contains(key) {
        KeyState::Pressed
    } else if k.just_released.contains(key) {
        KeyState::JustReleased
    } else if k.pressed.contains(key) {
        KeyState::Held
    } else {
        KeyState::Released
    }
}

impl View for Keyboard {
    type V = KeyboardView;

    closed spec fn view(&self) -> KeyboardView {
        KeyboardView {
            pressed: self.pressed@.to_set(),
            just_pressed: self.just_pressed@.to_set(),
            just_released: self.just_released@.to_set(),
        }
    }
}

impl Default for Keyboard {
    fn default() -> (r: Self)
        ensures
            r.wf(),
            r@.pressed == Set::<KeyCode>::empty(),
            r@.just_pressed == Set::<KeyCode>::empty(),
            r@.just_released == Set::<KeyCode>::empty(),
    {
        Self::new()
    }
}

impl Keyboard {
    /// Well-formedness: no key is stored twice in any of the three lists.
    pub closed spec fn wf(&self) -> bool {
        &&& self.pressed@.no_duplicates()
        &&& self.just_pressed@.no_duplicates()
        &&& self.just_released@.no_duplicates()
    }

    /// No key held, nothing changed.
    pub fn new() -> (r: Self)
        ensures
            r.wf(),
            r@.pressed == Set::<KeyCode>::empty(),
            r@.just_pressed == Set::<KeyCode>::empty(),
            r@.just_released == Set::<KeyCode>::empty(),
    {
        let r = Self { pressed: Vec::new(), just_pressed: Vec::new(), just_released: Vec::new() };
        assert(r@.pressed =~= Set::<KeyCode>::empty());
        assert(r@.just_pressed =~= Set::<KeyCode>::empty());
        assert(r@.just_released =~= Set::<KeyCode>::empty());
        r
    }

    /// Start a new frame: forget which keys changed.
    pub fn update(&mut self)
        requires
            old(self).wf(),
        ensures
            final(self).wf(),
            final(self)@.pressed == old(self)@.pressed,
            final(self)@.just_pressed == Set::<KeyCode>::empty(),
            final(self)@.just_released == Set::<KeyCode>::empty(),
    {
        self.just_pressed.clear();
        self.just_released.clear();
        assert(self@.just_pressed =~= Set::<KeyCode>::empty());
        assert(self@.just_released =~= Set::<KeyCode>::empty());
    }

    /// A key went down: it is held, and just pressed unless it was held already.
    pub fn key_down(&mut self, key: KeyCode)
        requires
            old(self).wf(),
        ensures
            final(self).wf(),
            final(self)@.pressed == old(self)@.pressed.insert(key),
            final(self)@.just_pressed == (if old(self)@.pressed.contains(key) {
                old(self)@.just_pressed
            } else {
                old(self)@.just_pressed.insert(key)
            }),
            final(self)@.just_released == old(self)@.just_released,
    {
        if key_position(&self.pressed, key).is_none() {
            insert_key(&mut self.just_pressed, key);
        }
        insert_key(&mut self.pressed, key);
    }

    /// A key went up: it is no longer held, and just released.
    pub fn key_up(&mut self, key: KeyCode)
        requires
            old(self).wf(),
        ensures
            final(self).wf(),
            final(self)@.pressed == old(self)@.pressed.remove(key),
            final(self)@.just_pressed == old(self)@.just_pressed,
            final(self)@.just_released == old(self)@.just_released.insert(key),
    {
        remove_key(&mut self.pressed, key);
        insert_key(&mut self.just_released, key);
    }

    /// Whether a key is held.
    pub fn is_pressed(&self, key: KeyCode) -> (b: bool)
        ensures
            b == self@.pressed.contains(key),
    {
        key_position(&self.pressed, key).is_some()
    }

    /// Whether a key went down this frame.
    pub fn just_pressed(&self, key: KeyCode) -> (b: bool)
        ensures
            b == self@.just_pressed.contains(key),
    {
        key_position(&self.just_pressed, key).is_some()
    }

    /// Whether a key went up this frame.
    pub fn just_released(&self, key: KeyCode) -> (b: bool)
        ensures
            b == self@.just_released.contains(key),
    {
        key_position(&self.just_released, key).is_some()
    }

    /// The state of a key: just pressed, just released, held, or released.
    pub fn state(&self, key: KeyCode) -> (r: KeyState)
        ensures
            r == key_state_of(self@, key),
    {
        if self.just_pressed(key) {
            KeyState::Pressed
        } else if self.just_released(key) {
            KeyState::JustReleased
        } else if self.is_pressed(key) {
            KeyState::Held
        } else {
            KeyState::Released
        }
    }
}

/// Pressing a key that was up makes it `Pressed` this frame and `Held` after
/// the next `update`; releasing it makes it `JustReleased`, then `Released`.
pub proof fn lemma_key_cycle(k: KeyboardView, key: KeyCode)
    requires
        !k.pressed.contains(key),
        !k.just_released.contains(key),
    ensures
        ({
            let down = KeyboardView {
                pressed: k.pressed.insert(key),
                just_pressed: k.just_pressed.insert(key),
                just_released: k.just_released,
            };
            let next = KeyboardView {
                pressed: down.pressed,
                just_pressed: Set::empty(),
                just_released: Set::empty(),
            };
            let up = KeyboardView {
                pressed: next.pressed.remove(key),
                just_pressed: next.just_pressed,
                just_released: next.just_released.insert(key),
            };
            let after = KeyboardView {
                pressed: up.pressed,
                just_pressed: Set::empty(),
                just_released: Set::empty(),
            };
            &&& key_state_of(down, key) == KeyState::Pressed
            &&& key_state_of(next, key) == KeyState::Held
            &&& key_state_of(up, key) == KeyState::JustReleased
            &&& key_state_of(after, key) == KeyState::Released
        }),
{
}

} // verus!

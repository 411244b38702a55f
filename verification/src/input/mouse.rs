//! Mouse buttons and their state.
use vstd::prelude::*;

verus! {

/// Mouse button.
#[derive(Clone, Copy, Debug, PartialEq, Eq, Hash, Structural)]
pub enum MouseButton {
    Left,
    Right,
    Middle,
    Other(u8),
}

/// The slot that tracks a button: Left, Right and Middle get their own,
/// every other button shares the last slot from 3 on, up to 4.
pub open spec fn button_slot(button: MouseButton) -> int {
    match button {
        MouseButton::Left => 0,
        MouseButton::Right => 1,
        MouseButton::Middle => 2,
        MouseButton::Other(n) => if 3 + n < 4 {
            3 + n
        } else {
            4
        },
    }
}

/// The slot index of a button.
pub fn button_index(button: MouseButton) -> (r: usize)
    ensures
        r == button_slot(button),
        r < 5,
{
    match button {
        MouseButton::Left => 0,
        MouseButton::Right => 1,
        MouseButton::Middle => 2,
        MouseButton::Other(n) => {
            let i = 3 + n as usize;
            if i < 4 {
                i
            } else {
                4
            }
        },
    }
}

/// Which of five button slots are held, and which changed this frame.
#[derive(Default)]
pub struct MouseState {
    pub pressed: [bool; 5],
    pub just_pressed: [bool; 5],
    pub just_released: [bool; 5],
}

impl MouseState {
    /// Start a new frame: forget which buttons changed.
    pub fn clear_transient(&mut self)
        ensures
            final(self).pressed == old(self).pressed,
            forall|i: int| 0 <= i < 5 ==> !final(self).just_pressed@[i],
            forall|i: int| 0 <= i < 5 ==> !final(self).just_released@[i],
    {
        self.just_pressed = [false; 5];
        self.just_released = [false; 5];
    }

    /// A button went down: it is held, and just pressed unless it was held.
    pub fn button_down(&mut self, button: MouseButton)
        ensures
            final(self).pressed@ == old(self).pressed@.update(button_slot(button), true),
            final(self).just_pressed@ == (if old(self).pressed@[button_slot(button)] {
                old(self).just_pressed@
            } else {
                old(self).just_pressed@.update(button_slot(button), true)
            }),
            final(self).just_released == old(self).just_released,
    {
        let idx = button_index(button);
        if !self.pressed[idx] {
            self.just_pressed.set(idx, true);
        }
        self.pressed.set(idx, true);
    }

    /// A button went up: it is no longer held, and just released.
    pub fn button_up(&mut self, button: MouseButton)
        ensures
            final(self).pressed@ == old(self).pressed@.update(button_slot(button), false),
            final(self).just_pressed == old(self).just_pressed,
            final(self).just_released@ == old(self).just_released@.update(
                button_slot(button),
                true,
            ),
    {
        let idx = button_index(button);
        self.pressed.set(idx, false);
        self.just_released.set(idx, true);
    }

    /// Whether a button is held.
    pub fn is_pressed(&self, button: MouseButton) -> (b: bool)
        ensures
            b == self.pressed@[button_slot(button)],
    {
        self.pressed[button_index(button)]
    }

    /// Whether a button went down this frame.
    pub fn just_pressed(&self, button: MouseButton) -> (b: bool)
        ensures
            b == self.just_pressed@[button_slot(button)],
    {
        self.just_pressed[button_index(button)]
    }

    /// Whether a button went up this frame.
    pub fn just_released(&self, button: MouseButton) -> (b: bool)
        ensures
            b == self.just_released@[button_slot(button)],
    {
        self.just_released[button_index(button)]
    }
}

} // verus!

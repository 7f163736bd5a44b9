//! Debouncing of held keys: raw press and release events and elapsed ticks
//! become discrete repeated actions.
use vstd::prelude::*;

verus! {

/// Where a key stands between two ticks.
#[derive(Clone, Copy, Debug, PartialEq, Eq, Structural)]
pub enum KeyStateType {
    Released,
    Pressed,
    PressedLongTime,
}

/// One logical key: its phase and how many times its action is due at the
/// next tick.
#[derive(Clone, Copy, Debug, PartialEq, Eq, Structural)]
pub struct KeyState {
    pub state_type: KeyStateType,
    pub press_count: u32,
}

/// The key after a raw press: a released key becomes pressed and one more
/// action is due (the count stops at its largest value).
pub open spec fn after_press(k: KeyState) -> KeyState {
    if k.state_type == KeyStateType::Released {
        KeyState {
            state_type: KeyStateType::Pressed,
            press_count: if k.press_count < u32::MAX {
                (k.press_count + 1) as u32
            } else {
                k.press_count
            },
        }
    } else {
        k
    }
}

/// The key after a raw release: a pressed key is released with its due
/// actions kept; a key held past a tick is reset.
pub open spec fn after_release(k: KeyState) -> KeyState {
    match k.state_type {
        KeyStateType::Pressed => KeyState { state_type: KeyStateType::Released, ..k },
        KeyStateType::PressedLongTime => KeyState {
            state_type: KeyStateType::Released,
            press_count: 0,
        },
        KeyStateType::Released => k,
    }
}

/// The key after a tick: a key pressed once and still held is promoted to
/// autorepeat, an autorepeating key stays so, and any other key is reset.
pub open spec fn after_tick(k: KeyState) -> KeyState {
    if k.state_type == KeyStateType::Pressed && k.press_count == 1 {
        KeyState { state_type: KeyStateType::PressedLongTime, press_count: 1 }
    } else if k.state_type == KeyStateType::PressedLongTime {
        k
    } else {
        KeyState { state_type: KeyStateType::Released, press_count: 0 }
    }
}

/// The key after `n` ticks with no event in between.
pub open spec fn after_ticks(k: KeyState, n: nat) -> KeyState
    decreases n,
{
    if n == 0 {
        k
    } else {
        after_tick(after_ticks(k, (n - 1) as nat))
    }
}

/// A released key with nothing due.
pub open spec fn idle() -> KeyState {
    KeyState { state_type: KeyStateType::Released, press_count: 0 }
}

impl KeyState {
    /// A released key with nothing due.
    pub fn new() -> (k: KeyState)
        ensures
            k == idle(),
    {
        KeyState { state_type: KeyStateType::Released, press_count: 0 }
    }

    /// Records a raw press.
    pub fn update_on_press(&mut self)
        ensures
            *final(self) == after_press(*old(self)),
    {
        if let KeyStateType::Released = self.state_type {
            self.state_type = KeyStateType::Pressed;
            if self.press_count < u32::MAX {
                self.press_count = self.press_count + 1;
            }
        }
    }

    /// Records a raw release.
    pub fn update_on_release(&mut self)
        ensures
            *final(self) == after_release(*old(self)),
    {
        match self.state_type {
            KeyStateType::Pressed => {
                self.state_type = KeyStateType::Released;
            },
            KeyStateType::PressedLongTime => {
                self.reset();
            },
            KeyStateType::Released => {},
        }
    }

    /// Records that a tick has elapsed.
    pub fn update_by_time(&mut self)
        ensures
            *final(self) == after_tick(*old(self)),
    {
        match (self.state_type, self.press_count) {
            (KeyStateType::Pressed, 1) => {
                self.state_type = KeyStateType::PressedLongTime;
            },
            (KeyStateType::PressedLongTime, _) => {},
            _ => {
                self.reset();
            },
        }
    }

    /// Whether the key's action is due at the next tick.
    pub fn is_active(&self) -> (r: bool)
        ensures
            r == (self.press_count > 0),
    {
        self.press_count > 0
    }

    /// Releases the key with nothing due.
    pub fn reset(&mut self)
        ensures
            *final(self) == idle(),
    {
        self.state_type = KeyStateType::Released;
        self.press_count = 0;
    }
}

/// A key tapped (pressed and released) within one tick fires once at that
/// tick and is then idle again, with nothing left to repeat.
pub proof fn lemma_tap_fires_once(k: KeyState)
    requires
        k == idle(),
    ensures
        after_release(after_press(k)).press_count == 1,
        after_tick(after_release(after_press(k))) == idle(),
{
}

/// A key pressed and held across a tick autorepeats: after any number of
/// further ticks it still fires once per tick, and releasing it makes it
/// idle.
pub proof fn lemma_held_key_repeats(k: KeyState, n: nat)
    requires
        k == idle(),
    ensures
        after_ticks(after_tick(after_press(k)), n) == (KeyState {
            state_type: KeyStateType::PressedLongTime,
            press_count: 1,
        }),
        after_release(after_ticks(after_tick(after_press(k)), n)) == idle(),
    decreases n,
{
    if n > 0 {
        lemma_held_key_repeats(k, (n - 1) as nat);
    }
}

/// The four debounced actions of a player.
#[derive(Clone, Copy, Debug, PartialEq, Eq, Structural)]
pub enum Control {
    RotateRight,
    RotateLeft,
    MoveLeft,
    MoveRight,
}

/// The four debounced actions of one player.
#[derive(Clone, Copy, Debug)]
pub struct ControlState {
    pub rotate_right: KeyState,
    pub rotate_left: KeyState,
    pub move_left: KeyState,
    pub move_right: KeyState,
}

impl ControlState {
    /// All four keys idle.
    pub open spec fn all_idle(&self) -> bool {
        &&& self.rotate_right == idle()
        &&& self.rotate_left == idle()
        &&& self.move_left == idle()
        &&& self.move_right == idle()
    }

    /// All four keys idle.
    pub fn new() -> (c: ControlState)
        ensures
            c.all_idle(),
    {
        ControlState {
            rotate_right: KeyState::new(),
            rotate_left: KeyState::new(),
            move_left: KeyState::new(),
            move_right: KeyState::new(),
        }
    }

    /// The key of `c`.
    pub open spec fn key(&self, c: Control) -> KeyState {
        match c {
            Control::RotateRight => self.rotate_right,
            Control::RotateLeft => self.rotate_left,
            Control::MoveLeft => self.move_left,
            Control::MoveRight => self.move_right,
        }
    }

    /// The same keys, with the key of `c` replaced by `k`.
    pub open spec fn with_key(&self, c: Control, k: KeyState) -> ControlState {
        match c {
            Control::RotateRight => ControlState { rotate_right: k, ..*self },
            Control::RotateLeft => ControlState { rotate_left: k, ..*self },
            Control::MoveLeft => ControlState { move_left: k, ..*self },
            Control::MoveRight => ControlState { move_right: k, ..*self },
        }
    }

    /// The key of `c`.
    pub fn get(&self, c: Control) -> (k: KeyState)
        ensures
            k == self.key(c),
    {
        match c {
            Control::RotateRight => self.rotate_right,
            Control::RotateLeft => self.rotate_left,
            Control::MoveLeft => self.move_left,
            Control::MoveRight => self.move_right,
        }
    }

    /// Records a raw press of the key of `c`.
    pub fn press(&mut self, c: Control)
        ensures
            *final(self) == old(self).with_key(c, after_press(old(self).key(c))),
    {
        match c {
            Control::RotateRight => self.rotate_right.update_on_press(),
            Control::RotateLeft => self.rotate_left.update_on_press(),
            Control::MoveLeft => self.move_left.update_on_press(),
            Control::MoveRight => self.move_right.update_on_press(),
        }
    }

    /// Records a raw release of the key of `c`.
    pub fn release(&mut self, c: Control)
        ensures
            *final(self) == old(self).with_key(c, after_release(old(self).key(c))),
    {
        match c {
            Control::RotateRight => self.rotate_right.update_on_release(),
            Control::RotateLeft => self.rotate_left.update_on_release(),
            Control::MoveLeft => self.move_left.update_on_release(),
            Control::MoveRight => self.move_right.update_on_release(),
        }
    }

    /// Records that a tick has elapsed for the key of `c`.
    pub fn tick(&mut self, c: Control)
        ensures
            *final(self) == old(self).with_key(c, after_tick(old(self).key(c))),
    {
        match c {
            Control::RotateRight => self.rotate_right.update_by_time(),
            Control::RotateLeft => self.rotate_left.update_by_time(),
            Control::MoveLeft => self.move_left.update_by_time(),
            Control::MoveRight => self.move_right.update_by_time(),
        }
    }

}

} // verus!

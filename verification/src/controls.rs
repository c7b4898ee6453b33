//! The movement that the keys and the direction pad ask for.

use vstd::prelude::*;

verus! {

/// A key of the keyboard, as far as movement goes.
#[derive(Clone, Copy, Debug, PartialEq, Eq, Structural)]
pub enum Key {
    W,
    A,
    S,
    D,
    Other,
}

/// A button of a game controller, as far as movement goes.
#[derive(Clone, Copy, Debug, PartialEq, Eq, Structural)]
pub enum PadButton {
    DPadUp,
    DPadDown,
    DPadLeft,
    DPadRight,
    Other,
}

/// A direction of movement.
#[derive(Clone, Copy, Debug, PartialEq, Eq, Structural)]
pub enum Heading {
    Forward,
    Backward,
    Left,
    Right,
}

/// The directions in which the player is asked to move.
#[derive(Clone, Copy, Debug, PartialEq, Eq, Structural)]
pub struct MoveIntent {
    pub forward: bool,
    pub backward: bool,
    pub left: bool,
    pub right: bool,
}

/// The direction that a key stands for: W forward, S backward, A left, D right.
pub open spec fn heading_of_key(key: Key) -> Option<Heading> {
    match key {
        Key::W => Some(Heading::Forward),
        Key::S => Some(Heading::Backward),
        Key::A => Some(Heading::Left),
        Key::D => Some(Heading::Right),
        Key::Other => None,
    }
}

/// The direction that a button of the direction pad stands for.
pub open spec fn heading_of_button(button: PadButton) -> Option<Heading> {
    match button {
        PadButton::DPadUp => Some(Heading::Forward),
        PadButton::DPadDown => Some(Heading::Backward),
        PadButton::DPadLeft => Some(Heading::Left),
        PadButton::DPadRight => Some(Heading::Right),
        PadButton::Other => None,
    }
}

/// The intent with one direction set to `on`, or unchanged where there is no direction.
pub open spec fn with_heading(intent: MoveIntent, heading: Option<Heading>, on: bool) -> MoveIntent {
    match heading {
        Some(Heading::Forward) => MoveIntent { forward: on, ..intent },
        Some(Heading::Backward) => MoveIntent { backward: on, ..intent },
        Some(Heading::Left) => MoveIntent { left: on, ..intent },
        Some(Heading::Right) => MoveIntent { right: on, ..intent },
        None => intent,
    }
}

impl MoveIntent {
    /// No movement.
    pub fn new() -> (out: MoveIntent)
        ensures
            out == (MoveIntent { forward: false, backward: false, left: false, right: false }),
    {
        MoveIntent { forward: false, backward: false, left: false, right: false }
    }

    fn set(&mut self, heading: Heading, on: bool)
        ensures
            *final(self) == with_heading(*old(self), Some(heading), on),
    {
        match heading {
            Heading::Forward => {
                self.forward = on;
            },
            Heading::Backward => {
                self.backward = on;
            },
            Heading::Left => {
                self.left = on;
            },
            Heading::Right => {
                self.right = on;
            },
        }
    }

    /// Takes a key that went down or up. A movement key sets its direction while
    /// it is down; the answer says whether the key was one.
    pub fn process_keyboard(&mut self, key: Key, pressed: bool) -> (handled: bool)
        ensures
            handled == (heading_of_key(key) is Some),
            *final(self) == with_heading(*old(self), heading_of_key(key), pressed),
    {
        match key {
            Key::W => {
                self.set(Heading::Forward, pressed);
                true
            },
            Key::S => {
                self.set(Heading::Backward, pressed);
                true
            },
            Key::A => {
                self.set(Heading::Left, pressed);
                true
            },
            Key::D => {
                self.set(Heading::Right, pressed);
                true
            },
            Key::Other => false,
        }
    }

    /// Takes a button that went down or up. A button of the direction pad sets
    /// its direction while it is down.
    pub fn process_controller(&mut self, button: PadButton, pressed: bool)
        ensures
            *final(self) == with_heading(*old(self), heading_of_button(button), pressed),
    {
        match button {
            PadButton::DPadUp => {
                self.set(Heading::Forward, pressed);
            },
            PadButton::DPadDown => {
                self.set(Heading::Backward, pressed);
            },
            PadButton::DPadLeft => {
                self.set(Heading::Left, pressed);
            },
            PadButton::DPadRight => {
                self.set(Heading::Right, pressed);
            },
            PadButton::Other => {},
        }
    }
}

} // verus!

//! The event model of a live session: an action on a key and the instant of
//! the session at which it happened.

use vstd::prelude::*;
use crate::keys::KeyId;
use crate::recorder::RecordedMode;

verus! {

/// A key going down or coming up.
#[derive(Clone, Copy, Debug, PartialEq, Eq, Structural)]
pub enum KeyAction {
    Down(KeyId),
    Up(KeyId),
}

/// An action and the time since the session began, in nanoseconds.
#[derive(Clone, Copy, Debug, PartialEq, Eq, Structural)]
pub struct TimedEvent {
    pub at: u64,
    pub action: KeyAction,
}

impl KeyAction {
    /// The key that the action is on.
    pub open spec fn key_of(self) -> KeyId {
        match self {
            KeyAction::Down(k) => k,
            KeyAction::Up(k) => k,
        }
    }

    /// The direction of the action.
    pub open spec fn mode_of(self) -> RecordedMode {
        match self {
            KeyAction::Down(_) => RecordedMode::Press,
            KeyAction::Up(_) => RecordedMode::Release,
        }
    }

    /// The key that the action is on.
    pub fn key(&self) -> (k: KeyId)
        ensures
            k == self.key_of(),
    {
        match *self {
            KeyAction::Down(k) => k,
            KeyAction::Up(k) => k,
        }
    }

    /// The direction of the action.
    pub fn mode(&self) -> (m: RecordedMode)
        ensures
            m == self.mode_of(),
    {
        match *self {
            KeyAction::Down(_) => RecordedMode::Press,
            KeyAction::Up(_) => RecordedMode::Release,
        }
    }
}

} // verus!

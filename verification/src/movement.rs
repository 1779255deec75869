//! Movement bookkeeping for the characters the streaming core follows:
//! whether one is moving and how fast it goes.

use vstd::prelude::*;

verus! {

/// Whether a character is currently moving.
#[derive(Clone, Copy, PartialEq, Eq, Structural, Debug)]
pub enum State {
    Idle,
    Moving,
}

impl Default for State {
    /// A character starts out idle.
    fn default() -> (s: Self)
        ensures
            s == State::Idle,
    {
        State::Idle
    }
}

/// How many world units a character covers per second.
#[derive(Clone, Copy, PartialEq, Eq, Structural, Debug)]
pub struct MoveSpeed(pub u32);

impl Default for MoveSpeed {
    /// The standard walking speed.
    fn default() -> (s: Self)
        ensures
            s.0 == 75,
    {
        MoveSpeed(75)
    }
}

/// Whether the viewer the director streams around is currently moving.
#[derive(Clone, Copy, PartialEq, Eq, Structural, Debug)]
pub enum PlayerState {
    Idle,
    Moving,
}

impl Default for PlayerState {
    /// The viewer starts out idle.
    fn default() -> (s: Self)
        ensures
            s == PlayerState::Idle,
    {
        PlayerState::Idle
    }
}

} // verus!

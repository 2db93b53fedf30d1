//! What a key press or release asks of the application.
use crate::movement::Direction;
use vstd::prelude::*;

verus! {

/// The keys the application reacts to; every other key is `Other`.
#[derive(Clone, Copy, Debug, PartialEq, Eq, Structural)]
pub enum Key {
    Escape,
    A,
    D,
    W,
    S,
    F,
    Q,
    E,
    F4,
    Other,
}

/// What the application does for a key event.
#[derive(Clone, Copy, Debug, PartialEq, Eq, Structural)]
pub enum KeyAction {
    /// Show the cursor if hidden, hide and confine it if shown.
    ToggleCursor,
    /// Start (`true`) or stop (`false`) moving the camera in a direction.
    Steer(Direction, bool),
    /// Leave the event loop.
    Exit,
    /// Report the key's scan code.
    Report,
    /// Nothing.
    Ignore,
}

/// The action for `key`, pressed when `pressed` holds and released otherwise, with the left
/// Alt key held when `alt_held` holds.
pub open spec fn action_of(key: Key, pressed: bool, alt_held: bool) -> KeyAction {
    match key {
        Key::Escape => if pressed { KeyAction::ToggleCursor } else { KeyAction::Report },
        Key::A => KeyAction::Steer(Direction::Left, pressed),
        Key::D => KeyAction::Steer(Direction::Right, pressed),
        Key::W => KeyAction::Steer(Direction::Forward, pressed),
        Key::S => KeyAction::Steer(Direction::Backward, pressed),
        Key::F => KeyAction::Ignore,
        Key::Q => KeyAction::Steer(Direction::Down, pressed),
        Key::E => KeyAction::Steer(Direction::Up, pressed),
        Key::F4 => if !pressed {
            KeyAction::Report
        } else if alt_held {
            KeyAction::Exit
        } else {
            KeyAction::Ignore
        },
        Key::Other => KeyAction::Report,
    }
}

/// Decides what a keyboard event does.
pub fn key_action(key: Key, pressed: bool, alt_held: bool) -> (a: KeyAction)
    ensures
        a == action_of(key, pressed, alt_held),
{
    match key {
        Key::Escape => if pressed {
            KeyAction::ToggleCursor
        } else {
            KeyAction::Report
        },
        Key::A => KeyAction::Steer(Direction::Left, pressed),
        Key::D => KeyAction::Steer(Direction::Right, pressed),
        Key::W => KeyAction::Steer(Direction::Forward, pressed),
        Key::S => KeyAction::Steer(Direction::Backward, pressed),
        Key::F => KeyAction::Ignore,
        Key::Q => KeyAction::Steer(Direction::Down, pressed),
        Key::E => KeyAction::Steer(Direction::Up, pressed),
        Key::F4 => if !pressed {
            KeyAction::Report
        } else if alt_held {
            KeyAction::Exit
        } else {
            KeyAction::Ignore
        },
        Key::Other => KeyAction::Report,
    }
}

/// Some key event, with the given key state, steers the camera in direction `d`.
pub open spec fn some_key_steers(d: Direction, pressed: bool, alt_held: bool) -> bool {
    exists|k: Key| #[trigger] action_of(k, pressed, alt_held) == KeyAction::Steer(d, pressed)
}

/// A key that steers the camera steers it while held: pressing it starts moving in one
/// direction and releasing it stops moving in that same direction, whatever Alt does; a
/// key that steers never does anything else, and every direction has a key.
pub proof fn law_steering_follows_key_state(key: Key, alt_held: bool)
    ensures
        (action_of(key, true, alt_held) is Steer || action_of(key, false, alt_held) is Steer) ==> {
            &&& action_of(key, true, alt_held) is Steer
            &&& action_of(key, false, alt_held) is Steer
            &&& action_of(key, true, alt_held)->Steer_0 == action_of(key, false, alt_held)->Steer_0
            &&& action_of(key, true, alt_held)->Steer_1
            &&& !action_of(key, false, alt_held)->Steer_1
            &&& action_of(key, true, !alt_held) == action_of(key, true, alt_held)
            &&& action_of(key, false, !alt_held) == action_of(key, false, alt_held)
        },
        forall|d: Direction, pressed: bool| #[trigger] some_key_steers(d, pressed, alt_held),
{
    assert forall|d: Direction, pressed: bool| #[trigger] some_key_steers(d, pressed, alt_held) by {
        match d {
            Direction::Forward => assert(action_of(Key::W, pressed, alt_held) == KeyAction::Steer(d, pressed)),
            Direction::Backward => assert(action_of(Key::S, pressed, alt_held) == KeyAction::Steer(d, pressed)),
            Direction::Left => assert(action_of(Key::A, pressed, alt_held) == KeyAction::Steer(d, pressed)),
            Direction::Right => assert(action_of(Key::D, pressed, alt_held) == KeyAction::Steer(d, pressed)),
            Direction::Up => assert(action_of(Key::E, pressed, alt_held) == KeyAction::Steer(d, pressed)),
            Direction::Down => assert(action_of(Key::Q, pressed, alt_held) == KeyAction::Steer(d, pressed)),
        }
    }
}

} // verus!

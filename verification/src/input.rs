//! Logical inputs of the game and the keys bound to them.

use vstd::prelude::*;

verus! {

/// Everything a player can ask of the game.
#[derive(Clone, Copy, Debug, PartialEq, Eq, Structural)]
pub enum GameInput {
    Down,
    Left,
    Right,
    HardDrop,
    RotateRight,
    RotateLeft,
    Hold,
    Start,
}

/// A key of the keyboard, as far as the game tells keys apart.
#[derive(Clone, Copy, Debug, PartialEq, Eq, Structural)]
pub enum Key {
    A,
    D,
    E,
    J,
    K,
    S,
    W,
    Space,
    /// Any key that is bound to nothing.
    Other,
}

/// The key bindings: which input, if any, a key stands for.
pub open spec fn key_binding(key: Key) -> Option<GameInput> {
    match key {
        Key::D => Some(GameInput::Right),
        Key::A => Some(GameInput::Left),
        Key::S => Some(GameInput::Down),
        Key::W => Some(GameInput::HardDrop),
        Key::E => Some(GameInput::Hold),
        Key::J => Some(GameInput::RotateLeft),
        Key::K => Some(GameInput::RotateRight),
        Key::Space => Some(GameInput::Start),
        Key::Other => None,
    }
}

impl GameInput {
    /// Looks a key up in the bindings; a key that is bound to nothing gives `None`.
    pub fn from_keycode(key: Key) -> (input: Option<GameInput>)
        ensures
            input == key_binding(key),
    {
        match key {
            Key::D => Some(GameInput::Right),
            Key::A => Some(GameInput::Left),
            Key::S => Some(GameInput::Down),
            Key::W => Some(GameInput::HardDrop),
            Key::E => Some(GameInput::Hold),
            Key::J => Some(GameInput::RotateLeft),
            Key::K => Some(GameInput::RotateRight),
            Key::Space => Some(GameInput::Start),
            Key::Other => None,
        }
    }
}

} // verus!

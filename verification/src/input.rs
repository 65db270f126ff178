//! What the gallery does on a click or a key.

use crate::navigator::Direction;
use vstd::prelude::*;

verus! {

/// A key, as far as the gallery tells keys apart.
#[derive(Debug, Clone, Copy, PartialEq, Eq, Structural)]
pub enum Key {
    /// The left arrow.
    Left,
    /// The right arrow.
    Right,
    /// A key that types this character.
    Char(char),
    /// Any other key.
    Other,
}

/// What the gallery is asked to do.
#[derive(Debug, Clone, Copy, PartialEq, Eq, Structural)]
pub enum Command {
    /// Show the next image in this direction.
    Show(Direction),
    /// Switch between a window and the full screen.
    ToggleFullscreen,
    /// Leave.
    Quit,
}

/// The number by which the left mouse button is reported.
pub const LEFT_BUTTON: i32 = 1;

/// The number by which the right mouse button is reported.
pub const RIGHT_BUTTON: i32 = 3;

/// The command that a click with the given mouse button stands for.
pub open spec fn button_command(button: int) -> Option<Command> {
    if button == LEFT_BUTTON {
        Some(Command::Show(Direction::Backward))
    } else if button == RIGHT_BUTTON {
        Some(Command::Show(Direction::Forward))
    } else {
        None
    }
}

/// The command that a key stands for.
pub open spec fn key_command(key: Key) -> Option<Command> {
    match key {
        Key::Right => Some(Command::Show(Direction::Forward)),
        Key::Left => Some(Command::Show(Direction::Backward)),
        Key::Char(c) => if c == 'f' {
            Some(Command::ToggleFullscreen)
        } else if c == 'q' {
            Some(Command::Quit)
        } else {
            None
        },
        Key::Other => None,
    }
}

/// What to do on a click: the left button goes back, the right button goes
/// on, any other button does nothing.
pub fn on_button(button: i32) -> (command: Option<Command>)
    ensures
        command == button_command(button as int),
{
    if button == LEFT_BUTTON {
        Some(Command::Show(Direction::Backward))
    } else if button == RIGHT_BUTTON {
        Some(Command::Show(Direction::Forward))
    } else {
        None
    }
}

/// What to do on a key: the arrows go back and on, `f` switches the full
/// screen, `q` leaves, any other key does nothing.
pub fn on_key(key: Key) -> (command: Option<Command>)
    ensures
        command == key_command(key),
{
    match key {
        Key::Right => Some(Command::Show(Direction::Forward)),
        Key::Left => Some(Command::Show(Direction::Backward)),
        Key::Char(c) => {
            if c == 'f' {
                Some(Command::ToggleFullscreen)
            } else if c == 'q' {
                Some(Command::Quit)
            } else {
                None
            }
        },
        Key::Other => None,
    }
}

} // verus!

//! What the keys and buttons mean.

use vstd::prelude::*;

verus! {

pub const KEY_SPACE: u32 = 0x0020;

pub const KEY_PLUS: u32 = 0x002b;

pub const KEY_MINUS: u32 = 0x002d;

pub const KEY_C: u32 = 0x0063;

pub const KEY_Q: u32 = 0x0071;

pub const KEY_R: u32 = 0x0072;

pub const KEY_UP: u32 = 0xff52;

pub const KEY_DOWN: u32 = 0xff54;

/// The left mouse button.
pub const BTN_LEFT: u32 = 0x110;

/// The right mouse button.
pub const BTN_RIGHT: u32 = 0x111;

/// How far the key codes of a keymap are from those of the kernel.
pub const KEYCODE_OFFSET: u32 = 8;

/// What a key asks for.
#[derive(Debug, Clone, Copy, PartialEq, Eq, Structural)]
pub enum Command {
    /// Stop the clock, or let it go on.
    Pause,
    /// Shorten the time between generations.
    Faster,
    /// Lengthen the time between generations.
    Slower,
    /// Put a glider where the pointer is.
    Glider,
    /// Kill every cell.
    Clear,
    /// Leave.
    Quit,
}

/// What the key with that symbol asks for, if anything.
pub open spec fn command_for(keysym: u32) -> Option<Command> {
    if keysym == KEY_SPACE {
        Some(Command::Pause)
    } else if keysym == KEY_PLUS || keysym == KEY_UP {
        Some(Command::Faster)
    } else if keysym == KEY_MINUS || keysym == KEY_DOWN {
        Some(Command::Slower)
    } else if keysym == KEY_R {
        Some(Command::Glider)
    } else if keysym == KEY_C {
        Some(Command::Clear)
    } else if keysym == KEY_Q {
        Some(Command::Quit)
    } else {
        None
    }
}

impl Command {
    /// What the key with that symbol asks for, if anything.
    pub fn from_keysym(keysym: u32) -> (command: Option<Command>)
        ensures
            command == command_for(keysym),
    {
        match keysym {
            KEY_SPACE => Some(Command::Pause),
            KEY_PLUS | KEY_UP => Some(Command::Faster),
            KEY_MINUS | KEY_DOWN => Some(Command::Slower),
            KEY_R => Some(Command::Glider),
            KEY_C => Some(Command::Clear),
            KEY_Q => Some(Command::Quit),
            _ => None,
        }
    }
}

/// The key code of a keymap for a key code of the kernel.
pub fn keymap_code(key: u32) -> (code: u32)
    requires
        key + KEYCODE_OFFSET <= u32::MAX,
    ensures
        code == key + KEYCODE_OFFSET,
{
    key + KEYCODE_OFFSET
}

} // verus!

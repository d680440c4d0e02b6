use vstd::prelude::*;

verus! {

/// Virtual-key code of the Esc key.
pub const VK_ESCAPE: u8 = 0x1B;
/// Virtual-key code of the F2 key.
pub const VK_F2: u8 = 0x71;
/// Virtual-key code of the C key.
pub const VK_C: u8 = 0x43;

/// What a key press asks of the overlay.
#[derive(Clone, Copy, Debug, PartialEq, Eq, Structural)]
pub enum KeyCommand {
    /// F2: show or hide the debug window.
    ToggleDebugWindow,
    /// C: switch the highlighter around the pointer on or off.
    ToggleHighlighter,
    /// Esc: hide the overlay until the hotkey brings it back.
    Hide,
}

/// The command bound to the key with virtual-key code `key`, if any.
pub fn key_command(key: u8) -> (r: Option<KeyCommand>)
    ensures
        r == if key == VK_F2 {
            Some(KeyCommand::ToggleDebugWindow)
        } else if key == VK_C {
            Some(KeyCommand::ToggleHighlighter)
        } else if key == VK_ESCAPE {
            Some(KeyCommand::Hide)
        } else {
            None
        },
{
    if key == VK_F2 {
        Some(KeyCommand::ToggleDebugWindow)
    } else if key == VK_C {
        Some(KeyCommand::ToggleHighlighter)
    } else if key == VK_ESCAPE {
        Some(KeyCommand::Hide)
    } else {
        None
    }
}

} // verus!

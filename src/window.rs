use vstd::prelude::*;

verus! {

pub const WM_DESTROY: u32 = 0x0002;
pub const WM_SIZE: u32 = 0x0005;
pub const WM_KEYDOWN: u32 = 0x0100;
pub const WM_MOUSEMOVE: u32 = 0x0200;
pub const WM_LBUTTONDOWN: u32 = 0x0201;
pub const WM_LBUTTONUP: u32 = 0x0202;
pub const WM_MOUSEWHEEL: u32 = 0x020A;

/// Flag of the message parameter that says the left mouse button is down.
pub const MK_LBUTTON: usize = 0x0001;
/// Flag of the message parameter that says a Ctrl key is down.
pub const MK_CONTROL: usize = 0x0008;

/// The low 16 bits of a 32-bit word.
pub open spec fn low_word(v: u32) -> u16 {
    (v % 0x10000) as u16
}

/// The high 16 bits of a 32-bit word.
pub open spec fn high_word(v: u32) -> u16 {
    (v / 0x10000) as u16
}

/// A 16-bit word read as a two's complement number.
pub open spec fn signed_word(w: u16) -> int {
    if w < 0x8000 {
        w as int
    } else {
        w - 0x10000
    }
}

/// The low 32 bits of a message parameter.
pub open spec fn param_dword(p: isize) -> u32 {
    p as u32
}

/// What a window message asks of the overlay, with its parameters read.
#[derive(Clone, Copy, Debug, PartialEq, Eq, Structural)]
pub enum WindowEvent {
    /// The client area is now `width` x `height` pixels.
    Resize { width: u16, height: u16 },
    /// The left button went down at client pixel `(x, y)`.
    LeftMouseDown { x: i32, y: i32 },
    LeftMouseUp,
    /// The pointer moved to client pixel `(x, y)`.
    MouseMove { x: i32, y: i32, left_mouse_down: bool },
    /// The wheel turned by `delta` (120 a notch) with the pointer at screen
    /// pixel `(x, y)`.
    MouseWheel { delta: i16, x: i32, y: i32, ctrl_is_down: bool },
    /// A key with virtual-key code `key` went down.
    KeyDown { key: u8 },
    Destroy,
    /// A message the overlay leaves to the default handling.
    Other,
}

/// The event that the message `message` with parameters `w_param` and
/// `l_param` stands for.
pub open spec fn message_event(message: u32, w_param: usize, l_param: isize) -> WindowEvent {
    let l = param_dword(l_param);
    let x = signed_word(low_word(l)) as i32;
    let y = signed_word(high_word(l)) as i32;
    if message == WM_SIZE {
        WindowEvent::Resize { width: low_word(l), height: high_word(l) }
    } else if message == WM_LBUTTONDOWN {
        WindowEvent::LeftMouseDown { x, y }
    } else if message == WM_LBUTTONUP {
        WindowEvent::LeftMouseUp
    } else if message == WM_MOUSEMOVE {
        WindowEvent::MouseMove { x, y, left_mouse_down: w_param & MK_LBUTTON != 0 }
    } else if message == WM_MOUSEWHEEL {
        WindowEvent::MouseWheel {
            delta: signed_word(high_word(w_param as u32)) as i16,
            x,
            y,
            ctrl_is_down: w_param & MK_CONTROL != 0,
        }
    } else if message == WM_KEYDOWN {
        WindowEvent::KeyDown { key: w_param as u8 }
    } else if message == WM_DESTROY {
        WindowEvent::Destroy
    } else {
        WindowEvent::Other
    }
}

fn low_word_of(v: u32) -> (r: u16)
    ensures
        r == low_word(v),
{
    (v % 0x10000) as u16
}

fn high_word_of(v: u32) -> (r: u16)
    ensures
        r == high_word(v),
{
    (v / 0x10000) as u16
}

fn signed_word_of(w: u16) -> (r: i16)
    ensures
        r == signed_word(w),
{
    if w < 0x8000 {
        w as i16
    } else {
        (w as i32 - 0x10000) as i16
    }
}

/// Reads a window message.
pub fn decode_message(message: u32, w_param: usize, l_param: isize) -> (r: WindowEvent)
    ensures
        r == message_event(message, w_param, l_param),
{
    #[verifier::truncate]
    let l: u32 = l_param as u32;
    let x = signed_word_of(low_word_of(l)) as i32;
    let y = signed_word_of(high_word_of(l)) as i32;
    if message == WM_SIZE {
        WindowEvent::Resize { width: low_word_of(l), height: high_word_of(l) }
    } else if message == WM_LBUTTONDOWN {
        WindowEvent::LeftMouseDown { x, y }
    } else if message == WM_LBUTTONUP {
        WindowEvent::LeftMouseUp
    } else if message == WM_MOUSEMOVE {
        WindowEvent::MouseMove { x, y, left_mouse_down: w_param & MK_LBUTTON != 0 }
    } else if message == WM_MOUSEWHEEL {
        #[verifier::truncate]
        let w: u32 = w_param as u32;
        WindowEvent::MouseWheel {
            delta: signed_word_of(high_word_of(w)),
            x,
            y,
            ctrl_is_down: w_param & MK_CONTROL != 0,
        }
    } else if message == WM_KEYDOWN {
        #[verifier::truncate]
        let key: u8 = w_param as u8;
        WindowEvent::KeyDown { key }
    } else if message == WM_DESTROY {
        WindowEvent::Destroy
    } else {
        WindowEvent::Other
    }
}

impl WindowEvent {
    /// Whether the debug UI takes this event for itself: pointer events
    /// while it wants the pointer, key presses while it wants the keyboard.
    pub fn is_taken_by_ui(&self, ui_wants_mouse: bool, ui_wants_keyboard: bool) -> (r: bool)
        ensures
            r == match *self {
                WindowEvent::LeftMouseDown { .. } => ui_wants_mouse,
                WindowEvent::MouseMove { .. } => ui_wants_mouse,
                WindowEvent::MouseWheel { .. } => ui_wants_mouse,
                WindowEvent::KeyDown { .. } => ui_wants_keyboard,
                _ => false,
            },
    {
        match self {
            WindowEvent::LeftMouseDown { .. } => ui_wants_mouse,
            WindowEvent::MouseMove { .. } => ui_wants_mouse,
            WindowEvent::MouseWheel { .. } => ui_wants_mouse,
            WindowEvent::KeyDown { .. } => ui_wants_keyboard,
            _ => false,
        }
    }
}

} // verus!

//! The integer and text logic of a screen magnifier overlay: the geometry of
//! a capture of all monitors and the conversion of its pixels, ANSI console
//! text, OpenGL enum names and debug message lines, the settings of the
//! smoothing that the camera uses, and the overlay's window messages and keys.

mod console;
mod gl;
mod input;
mod interpolation;
mod monitors;
mod screenshot;
mod window;

pub use console::{
    color_params, decimal, digit_char, escape_sequence, escaped, formatting_code, hex_channel,
    hex_channel_value, hex_color_bytes, hex_digit_value, hex_value, is_hex_color_shaped,
    is_hex_digit, joined, parses_as_hex_byte, rendered, simple_color_code, text, trim_hashes,
    unsigned_digits, Color, SimpleColor, Text, TextFormatting, TextView,
};
pub use gl::{
    debug_message_line, debug_message_text, debug_type_name, debug_type_to_str,
    is_debug_severity, is_extension_listed, is_named_debug_type, severity_color,
    severity_to_color, shader_type_name, shader_type_to_str, split_at_spaces, GL_DEBUG_SEVERITY_HIGH,
    GL_DEBUG_SEVERITY_LOW, GL_DEBUG_SEVERITY_MEDIUM, GL_DEBUG_SEVERITY_NOTIFICATION,
    GL_DEBUG_TYPE_DEPRECATED_BEHAVIOR, GL_DEBUG_TYPE_ERROR, GL_DEBUG_TYPE_OTHER,
    GL_DEBUG_TYPE_PERFORMANCE, GL_DEBUG_TYPE_PORTABILITY, GL_DEBUG_TYPE_UNDEFINED_BEHAVIOR,
    GL_FRAGMENT_SHADER, GL_VERTEX_SHADER,
};
pub use input::{key_command, KeyCommand, VK_C, VK_ESCAPE, VK_F2};
pub use interpolation::ExponentialSmoothing;
pub use monitors::{capture_area, max_height, min_left, min_top, total_width, Monitor};
pub use screenshot::{
    bgra_to_rgba, is_power_of_2, round_up_to_power_of_2, row_stride, swap_red_blue,
    swapped_channel_source, Screenshot, ScreenshotView,
};
pub use window::{
    decode_message, high_word, low_word, message_event, param_dword, signed_word, WindowEvent,
    MK_CONTROL, MK_LBUTTON, WM_DESTROY, WM_KEYDOWN, WM_LBUTTONDOWN, WM_LBUTTONUP, WM_MOUSEMOVE,
    WM_MOUSEWHEEL, WM_SIZE,
};

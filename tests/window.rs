use zoomer::{
    decode_message, WindowEvent, MK_CONTROL, MK_LBUTTON, WM_DESTROY, WM_KEYDOWN, WM_LBUTTONDOWN,
    WM_LBUTTONUP, WM_MOUSEMOVE, WM_MOUSEWHEEL, WM_SIZE,
};

fn point(x: i16, y: i16) -> isize {
    (((y as u16 as u32) << 16) | (x as u16 as u32)) as i32 as isize
}

#[test]
fn resize_reads_both_words() {
    let l = ((1080u32 << 16) | 1920) as isize;
    assert_eq!(decode_message(WM_SIZE, 0, l), WindowEvent::Resize { width: 1920, height: 1080 });
}

#[test]
fn pointer_coordinates_are_signed() {
    assert_eq!(
        decode_message(WM_LBUTTONDOWN, MK_LBUTTON, point(-5, 300)),
        WindowEvent::LeftMouseDown { x: -5, y: 300 }
    );
    assert_eq!(
        decode_message(WM_MOUSEMOVE, MK_LBUTTON, point(12, -7)),
        WindowEvent::MouseMove { x: 12, y: -7, left_mouse_down: true }
    );
    assert_eq!(
        decode_message(WM_MOUSEMOVE, MK_CONTROL, point(12, 7)),
        WindowEvent::MouseMove { x: 12, y: 7, left_mouse_down: false }
    );
}

#[test]
fn wheel_delta_and_ctrl() {
    let w = (((-120i16) as u16 as usize) << 16) | MK_CONTROL;
    assert_eq!(
        decode_message(WM_MOUSEWHEEL, w, point(-1920, 40)),
        WindowEvent::MouseWheel { delta: -120, x: -1920, y: 40, ctrl_is_down: true }
    );
    let w = (240usize << 16) | MK_LBUTTON;
    assert_eq!(
        decode_message(WM_MOUSEWHEEL, w, point(0, 0)),
        WindowEvent::MouseWheel { delta: 240, x: 0, y: 0, ctrl_is_down: false }
    );
}

#[test]
fn other_messages() {
    assert_eq!(decode_message(WM_KEYDOWN, 0x171, 0), WindowEvent::KeyDown { key: 0x71 });
    assert_eq!(decode_message(WM_LBUTTONUP, 0, 0), WindowEvent::LeftMouseUp);
    assert_eq!(decode_message(WM_DESTROY, 0, 0), WindowEvent::Destroy);
    assert_eq!(decode_message(0x0010, 0, 0), WindowEvent::Other);
}

#[test]
fn ui_takes_pointer_and_key_events_it_wants() {
    let down = WindowEvent::LeftMouseDown { x: 0, y: 0 };
    let key = WindowEvent::KeyDown { key: 0x43 };
    assert!(down.is_taken_by_ui(true, false));
    assert!(!down.is_taken_by_ui(false, true));
    assert!(key.is_taken_by_ui(false, true));
    assert!(!key.is_taken_by_ui(true, false));
    assert!(!WindowEvent::LeftMouseUp.is_taken_by_ui(true, true));
    assert!(!WindowEvent::Resize { width: 1, height: 1 }.is_taken_by_ui(true, true));
}

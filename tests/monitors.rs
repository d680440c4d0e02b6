use zoomer::{capture_area, Monitor};

fn monitor(x: i32, y: i32, width: u32, height: u32) -> Monitor {
    Monitor { x, y, width, height }
}

#[test]
fn monitor_from_rect_measures_edges() {
    let m = Monitor::from_rect(-1280, 200, 0, 1224);
    assert_eq!((m.x, m.y, m.width, m.height), (-1280, 200, 1280, 1024));
}

#[test]
fn capture_area_of_one_monitor() {
    assert_eq!(capture_area(&vec![monitor(0, 0, 1920, 1080)]), (0, 0, 1920, 1080));
}

#[test]
fn capture_area_spans_monitors_left_of_the_origin() {
    let monitors = vec![monitor(0, 0, 1920, 1080), monitor(-1280, 200, 1280, 1024)];
    assert_eq!(capture_area(&monitors), (-1280, 0, 3200, 1080));
}

#[test]
fn capture_area_starts_no_later_than_the_origin() {
    let monitors = vec![monitor(100, 50, 800, 600), monitor(900, -20, 1024, 768)];
    assert_eq!(capture_area(&monitors), (0, -20, 1824, 768));
}

use vstd::prelude::*;

verus! {

/// A display monitor's rectangle in virtual screen coordinates.
#[derive(Debug, Clone, Copy)]
pub struct Monitor {
    pub x: i32,
    pub y: i32,
    pub width: u32,
    pub height: u32,
}

impl Monitor {
    /// The monitor whose rectangle has the given edges.
    pub fn from_rect(left: i32, top: i32, right: i32, bottom: i32) -> (r: Monitor)
        requires
            i32::MIN <= right - left <= i32::MAX,
            i32::MIN <= bottom - top <= i32::MAX,
        ensures
            r == (Monitor {
                x: left,
                y: top,
                width: (right - left) as u32,
                height: (bottom - top) as u32,
            }),
    {
        Monitor { x: left, y: top, width: (right - left) as u32, height: (bottom - top) as u32 }
    }
}

/// The least left edge of `monitors`, or 0 if all lie to its right.
pub open spec fn min_left(monitors: Seq<Monitor>) -> int
    decreases monitors.len(),
{
    if monitors.len() == 0 {
        0
    } else {
        let rest = min_left(monitors.drop_last());
        if monitors.last().x < rest { monitors.last().x as int } else { rest }
    }
}

/// The least top edge of `monitors`, or 0 if all lie below it.
pub open spec fn min_top(monitors: Seq<Monitor>) -> int
    decreases monitors.len(),
{
    if monitors.len() == 0 {
        0
    } else {
        let rest = min_top(monitors.drop_last());
        if monitors.last().y < rest { monitors.last().y as int } else { rest }
    }
}

/// The widths of `monitors` added up.
pub open spec fn total_width(monitors: Seq<Monitor>) -> int
    decreases monitors.len(),
{
    if monitors.len() == 0 {
        0
    } else {
        total_width(monitors.drop_last()) + monitors.last().width
    }
}

/// The greatest height of `monitors` (0 for none).
pub open spec fn max_height(monitors: Seq<Monitor>) -> int
    decreases monitors.len(),
{
    if monitors.len() == 0 {
        0
    } else {
        let rest = max_height(monitors.drop_last());
        if monitors.last().height > rest { monitors.last().height as int } else { rest }
    }
}

/// The rectangle `(x, y, width, height)` that a capture of every monitor at
/// once covers: it starts at the least of the origin and the monitors'
/// corners, is as wide as the monitors side by side and as high as the
/// highest.
pub fn capture_area(monitors: &Vec<Monitor>) -> (r: (i32, i32, u32, u32))
    requires
        monitors@.len() > 0,
        total_width(monitors@) <= u32::MAX,
    ensures
        r.0 == min_left(monitors@),
        r.1 == min_top(monitors@),
        r.2 == total_width(monitors@),
        r.3 == max_height(monitors@),
{
    let mut x: i32 = 0;
    let mut y: i32 = 0;
    let mut width: u32 = 0;
    let mut height: u32 = 0;
    let mut i: usize = 0;
    while i < monitors.len()
        invariant
            i <= monitors@.len(),
            total_width(monitors@) <= u32::MAX,
            x == min_left(monitors@.take(i as int)),
            y == min_top(monitors@.take(i as int)),
            width == total_width(monitors@.take(i as int)),
            height == max_height(monitors@.take(i as int)),
        decreases monitors@.len() - i,
    {
        let m = monitors[i];
        proof {
            let next = monitors@.take(i + 1);
            assert(next.drop_last() =~= monitors@.take(i as int));
            lemma_total_width_prefix(monitors@, i + 1);
        }
        if m.x < x {
            x = m.x;
        }
        if m.y < y {
            y = m.y;
        }
        width = width + m.width;
        if m.height > height {
            height = m.height;
        }
        i += 1;
    }
    assert(monitors@.take(i as int) =~= monitors@);
    (x, y, width, height)
}

proof fn lemma_total_width_prefix(monitors: Seq<Monitor>, n: int)
    requires
        0 <= n <= monitors.len(),
    ensures
        total_width(monitors.take(n)) <= total_width(monitors),
    decreases monitors.len(),
{
    if n < monitors.len() {
        lemma_total_width_prefix(monitors.drop_last(), n);
        assert(monitors.drop_last().take(n) =~= monitors.take(n));
    } else {
        assert(monitors.take(n) =~= monitors);
    }
}

} // verus!

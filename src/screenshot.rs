use vstd::arithmetic::div_mod::{lemma_fundamental_div_mod, lemma_fundamental_div_mod_converse};
use vstd::prelude::*;

verus! {

/// An RGBA screenshot.
pub struct Screenshot {
    width: u32,
    height: u32,
    /// Taken out of the screenshot, and freed, once they are on the GPU.
    pixel_bytes: Option<Vec<u8>>,
    /// Width of a row in bytes.
    stride: u32,
}

/// What a screenshot holds.
pub struct ScreenshotView {
    pub width: u32,
    pub height: u32,
    pub pixel_bytes: Option<Seq<u8>>,
    pub stride: u32,
}

impl View for Screenshot {
    type V = ScreenshotView;

    closed spec fn view(&self) -> ScreenshotView {
        ScreenshotView {
            width: self.width,
            height: self.height,
            pixel_bytes: match self.pixel_bytes {
                Some(v) => Some(v@),
                None => None,
            },
            stride: self.stride,
        }
    }
}

impl Screenshot {
    pub const BYTES_PER_PIXEL: u32 = 4;

    /// Builds the screenshot of a `width` x `height` capture from the BGRA
    /// bytes that were read back, rows of `row_stride(width)` bytes, top row
    /// first.
    pub fn from_bgra(width: u32, height: u32, pixel_bytes: Vec<u8>) -> (r: Screenshot)
        requires
            width * 4 + 3 <= u32::MAX,
            width * 4 * height <= pixel_bytes@.len(),
        ensures
            r@ == (ScreenshotView {
                width,
                height,
                pixel_bytes: Some(
                    swap_red_blue(pixel_bytes@, width as int, height as int, width * 4),
                ),
                stride: (width * 4) as u32,
            }),
    {
        let stride = row_stride(width);
        let mut pixel_bytes = pixel_bytes;
        bgra_to_rgba(&mut pixel_bytes, width, height, stride);
        Screenshot { width, height, pixel_bytes: Some(pixel_bytes), stride }
    }

    pub fn width(&self) -> (r: u32)
        ensures
            r == self@.width,
    {
        self.width
    }

    pub fn height(&self) -> (r: u32)
        ensures
            r == self@.height,
    {
        self.height
    }

    /// Moves the pixel bytes out of the screenshot so that the caller can
    /// free them.
    pub fn take_pixel_bytes(&mut self) -> (r: Vec<u8>)
        requires
            old(self)@.pixel_bytes is Some,
        ensures
            Some(r@) == old(self)@.pixel_bytes,
            final(self)@ == (ScreenshotView { pixel_bytes: None, ..old(self)@ }),
    {
        let bytes = self.pixel_bytes.take();
        match bytes {
            Some(b) => b,
            None => Vec::new(),
        }
    }

    pub fn stride(&self) -> (r: u32)
        ensures
            r == self@.stride,
    {
        self.stride
    }
}

/// Width in bytes of a row of `width` pixels: whole pixels, rounded up to a
/// multiple of four bytes.
pub fn row_stride(width: u32) -> (r: u32)
    requires
        width * 4 + 3 <= u32::MAX,
    ensures
        r == width * 4,
{
    assert(is_power_of_2(4)) by (bit_vector);
    let r = round_up_to_power_of_2(width * Screenshot::BYTES_PER_PIXEL, 4);
    assert(r == width * 4) by (nonlinear_arith)
        requires r % 4 == 0, width * 4 <= r, r < width * 4 + 4;
    r
}

/// `n` is `2^k` for some `k`.
pub open spec fn is_power_of_2(n: u32) -> bool {
    n != 0 && n & ((n - 1) as u32) == 0
}

/// Rounds `value` up to the next multiple of `power_of_2`.
pub fn round_up_to_power_of_2(value: u32, power_of_2: u32) -> (r: u32)
    requires
        is_power_of_2(power_of_2),
        value + (power_of_2 - 1) <= u32::MAX,
    ensures
        r % power_of_2 == 0,
        value <= r,
        r < value + power_of_2,
{
    let mask: u32 = power_of_2 - 1;
    let r: u32 = (value + mask) & !mask;
    assert(r % power_of_2 == 0 && value <= r && r < value + power_of_2) by (bit_vector)
        requires
            power_of_2 != 0,
            power_of_2 & ((power_of_2 - 1) as u32) == 0,
            mask == power_of_2 - 1,
            value + mask <= 0xffff_ffffu32,
            r == ((value + mask) as u32) & !mask,
    ;
    r
}

/// Where byte `i` of an image of `width` x `height` pixels, four bytes each,
/// stored in rows of `stride` bytes, comes from when blue and red trade
/// places in every pixel: the first and third byte of a pixel swap, every
/// other byte (alpha, green, row padding, bytes past the last row) stays.
pub open spec fn swapped_channel_source(i: int, width: int, height: int, stride: int) -> int {
    let row = i / stride;
    let col = i % stride;
    if 0 <= i && row < height && 0 <= col < width * 4 && col % 4 == 0 {
        i + 2
    } else if 0 <= i && row < height && 0 <= col < width * 4 && col % 4 == 2 {
        i - 2
    } else {
        i
    }
}

/// The bytes of a BGRA image rewritten as RGBA.
pub open spec fn swap_red_blue(bytes: Seq<u8>, width: int, height: int, stride: int) -> Seq<u8> {
    Seq::new(bytes.len(), |i: int| bytes[swapped_channel_source(i, width, height, stride)])
}

proof fn lemma_row_col(y: int, c: int, stride: int)
    requires
        0 <= y,
        0 <= c < stride,
    ensures
        (y * stride + c) / stride == y,
        (y * stride + c) % stride == c,
{
    lemma_fundamental_div_mod_converse(y * stride + c, stride, y, c);
}

proof fn lemma_channel(x: int, k: int)
    requires
        0 <= x,
        0 <= k < 4,
    ensures
        (x * 4 + k) % 4 == k,
{
    lemma_fundamental_div_mod_converse(x * 4 + k, 4, x, k);
}

/// Converts the pixels of a BGRA image, four bytes each in rows of `stride`
/// bytes, to RGBA in place.
pub fn bgra_to_rgba(bytes: &mut Vec<u8>, width: u32, height: u32, stride: u32)
    requires
        width * 4 <= stride,
        stride * height <= old(bytes).len(),
    ensures
        final(bytes)@ == swap_red_blue(old(bytes)@, width as int, height as int, stride as int),
{
    let ghost src = old(bytes)@;
    let len: usize = bytes.len();
    let ghost (w, h, st) = (width as int, height as int, stride as int);
    let mut y: u32 = 0;
    while y < height
        invariant
            width * 4 <= stride,
            stride * height <= src.len(),
            src.len() == len,
            y <= height,
            bytes@.len() == src.len(),
            w == width as int, h == height as int, st == stride as int,
            forall|i: int|
                #![trigger bytes@[i]]
                0 <= i < src.len() ==> bytes@[i] == if i < y * st {
                    src[swapped_channel_source(i, w, h, st)]
                } else {
                    src[i]
                },
        decreases height - y,
    {
        assert(y * st + st <= h * st) by (nonlinear_arith)
            requires y < h, 0 <= st;
        let row: usize = y as usize * stride as usize;
        let mut x: u32 = 0;
        while x < width
            invariant
                width * 4 <= stride,
                stride * height <= src.len(),
                src.len() == len,
                y < height,
                x <= width,
                row == y * st,
                row + st <= h * st,
                bytes@.len() == src.len(),
                w == width as int, h == height as int, st == stride as int,
                forall|i: int|
                    #![trigger bytes@[i]]
                    0 <= i < src.len() ==> bytes@[i] == if i < row + x * 4 {
                        src[swapped_channel_source(i, w, h, st)]
                    } else {
                        src[i]
                    },
            decreases width - x,
        {
            let p: usize = row + x as usize * 4;
            proof {
                lemma_row_col(y as int, x * 4, st);
                lemma_row_col(y as int, x * 4 + 1, st);
                lemma_row_col(y as int, x * 4 + 2, st);
                lemma_row_col(y as int, x * 4 + 3, st);
                lemma_channel(x as int, 0);
                lemma_channel(x as int, 1);
                lemma_channel(x as int, 2);
                lemma_channel(x as int, 3);
            }
            let b: u8 = bytes[p];
            let r: u8 = bytes[p + 2];
            bytes.set(p, r);
            bytes.set(p + 2, b);
            x += 1;
        }
        proof {
            assert forall|i: int| row + w * 4 <= i < row + st implies
                swapped_channel_source(i, w, h, st) == i by {
                lemma_row_col(y as int, i - row, st);
            }
            assert((y + 1) * st == row + st) by (nonlinear_arith)
                requires row == y * st;
        }
        y += 1;
    }
    proof {
        assert forall|i: int| h * st <= i < src.len() implies
            swapped_channel_source(i, w, h, st) == i by {
            if st > 0 {
                lemma_fundamental_div_mod(i, st);
                assert(i / st >= h) by (nonlinear_arith)
                    requires i == st * (i / st) + i % st, i % st < st, h * st <= i, st > 0;
            }
        }
        assert(bytes@ =~= swap_red_blue(src, w, h, st));
    }
}

} // verus!

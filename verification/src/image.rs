//! The pixel-buffer model of a decoded raster image.

use vstd::prelude::*;

verus! {

/// A decoded raster image: RGBA bytes in row-major order, four bytes per
/// pixel. The byte of channel `k` of the pixel at column `x`, row `y` sits
/// at index `4 * (y * width + x) + k`.
pub struct Image {
    pub width: u32,
    pub height: u32,
    pub pixels: Vec<u8>,
}

impl Image {
    /// The buffer holds exactly four bytes for each of the
    /// `width * height` pixels.
    pub open spec fn wf(self) -> bool {
        self.pixels@.len() == 4 * self.width * self.height
    }

    /// The byte of channel `k` of the pixel at column `x`, row `y`.
    pub open spec fn pixel_byte(self, x: int, y: int, k: int) -> u8 {
        self.pixels@[4 * (y * self.width + x) + k]
    }

    /// Wraps a raw RGBA buffer, accepting it only when its length matches
    /// the given dimensions.
    pub fn new(width: u32, height: u32, pixels: Vec<u8>) -> (r: Option<Image>)
        ensures
            r is Some <==> pixels@.len() == 4 * width * height,
            r matches Some(img) ==> img.wf() && img.width == width && img.height == height
                && img.pixels@ == pixels@,
    {
        proof {
            assert((width as int) * (height as int) < 0x1_0000_0000_0000_0000) by (nonlinear_arith)
                requires
                    width < 0x1_0000_0000,
                    height < 0x1_0000_0000,
            ;
        }
        let area: u64 = (width as u64) * (height as u64);
        let expected: u128 = 4u128 * (area as u128);
        proof {
            assert(expected == 4 * width * height) by (nonlinear_arith)
                requires
                    area == (width as int) * (height as int),
                    expected == 4 * area,
            ;
        }
        if (pixels.len() as u128) == expected {
            Some(Image { width, height, pixels })
        } else {
            None
        }
    }

    /// A non-destructive rectangular copy: a new `w × h` image whose pixel
    /// at `(x, y)` is read from this image at `(x1 + x, y1 + y)`. The source
    /// is only read, never changed, so repeated extractions against the same
    /// source all see the same pixels.
    pub fn crop(&self, x1: u32, y1: u32, w: u32, h: u32) -> (r: Image)
        requires
            self.wf(),
            x1 + w <= self.width,
            y1 + h <= self.height,
        ensures
            r.wf(),
            r.width == w,
            r.height == h,
            forall|x: int, y: int, k: int|
                0 <= x < w && 0 <= y < h && 0 <= k < 4 ==> #[trigger] r.pixel_byte(x, y, k)
                    == self.pixel_byte(x1 + x, y1 + y, k),
    {
        let mut out: Vec<u8> = Vec::new();
        // The loop invariants need the buffer length to fit in usize,
        // a fact this call puts on record.
        let _n: usize = self.pixels.len();
        let mut y: u32 = 0;
        while y < h
            invariant
                self.wf(),
                self.pixels@.len() <= usize::MAX,
                x1 + w <= self.width,
                y1 + h <= self.height,
                y <= h,
                out@.len() == 4 * ((y * w) as int),
                forall|yy: int, xx: int, k: int|
                    0 <= yy < y && 0 <= xx < w && 0 <= k < 4 ==> out@[4 * (yy * w + xx) + k]
                        == #[trigger] self.pixel_byte(x1 + xx, y1 + yy, k),
            decreases h - y,
        {
            let mut x: u32 = 0;
            while x < w
                invariant
                    self.wf(),
                    self.pixels@.len() <= usize::MAX,
                    x1 + w <= self.width,
                    y1 + h <= self.height,
                    y < h,
                    x <= w,
                    out@.len() == 4 * ((y * w) as int + x),
                    forall|yy: int, xx: int, k: int|
                        0 <= yy < y && 0 <= xx < w && 0 <= k < 4 ==> out@[4 * (yy * w + xx) + k]
                            == #[trigger] self.pixel_byte(x1 + xx, y1 + yy, k),
                    forall|xx: int, k: int|
                        0 <= xx < x && 0 <= k < 4 ==> out@[4 * (y * w + xx) + k]
                            == #[trigger] self.pixel_byte(x1 + xx, y1 + y, k),
                decreases w - x,
            {
                let sx: usize = (x1 + x) as usize;
                let sy: usize = (y1 + y) as usize;
                proof {
                    assert(4 * ((sy as int) * (self.width as int) + sx as int) + 3 < 4
                        * (self.width as int) * (self.height as int)) by (nonlinear_arith)
                        requires
                            0 <= sx < self.width as int,
                            0 <= sy < self.height as int,
                    ;
                }
                let base: usize = 4 * (sy * (self.width as usize) + sx);
                let ghost pre = out@;
                out.push(self.pixels[base]);
                out.push(self.pixels[base + 1]);
                out.push(self.pixels[base + 2]);
                out.push(self.pixels[base + 3]);
                proof {
                    assert forall|yy: int, xx: int, k: int|
                        0 <= yy < y && 0 <= xx < w && 0 <= k < 4 implies out@[4 * (yy * w + xx)
                        + k] == #[trigger] self.pixel_byte(x1 + xx, y1 + yy, k) by {
                        assert(yy * w + xx < y * w) by (nonlinear_arith)
                            requires
                                0 <= yy < y,
                                0 <= xx < w,
                        ;
                        assert(out@[4 * (yy * w + xx) + k] == pre[4 * (yy * w + xx) + k]);
                    }
                    assert forall|xx: int, k: int|
                        0 <= xx < x + 1 && 0 <= k < 4 implies out@[4 * (y * w + xx) + k]
                        == #[trigger] self.pixel_byte(x1 + xx, y1 + y, k) by {
                        if xx < x {
                            assert(out@[4 * (y * w + xx) + k] == pre[4 * (y * w + xx) + k]);
                        } else {
                            assert(out@[4 * (y * w + xx) + k] == self.pixels@[base + k]);
                        }
                    }
                }
                x = x + 1;
            }
            proof {
                assert((y as int + 1) * (w as int) == y * w + w) by (nonlinear_arith);
            }
            y = y + 1;
        }
        proof {
            assert(4 * ((h * w) as int) == 4 * w * h) by (nonlinear_arith);
        }
        Image { width: w, height: h, pixels: out }
    }
}

} // verus!

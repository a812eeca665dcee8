//! Pixel buffers: width, height and a flat row-major RGBA byte array.
use vstd::prelude::*;

verus! {

/// A rendered page: `width * height` pixels, four bytes each (RGBA),
/// stored row-major.
pub struct PixelBuffer {
    width: u32,
    height: u32,
    pixels: Vec<u8>,
}

/// The flat index of channel `c` of the pixel at `(x, y)` in a buffer
/// `w` pixels wide.
pub open spec fn flat_index(w: int, x: int, y: int, c: int) -> int {
    4 * (y * w + x) + c
}

/// Flat indices stay inside a `w` by `h` buffer.
pub proof fn lemma_flat_bound(w: int, h: int, x: int, y: int, c: int)
    requires
        0 <= x < w,
        0 <= y < h,
        0 <= c < 4,
    ensures
        0 <= flat_index(w, x, y, c) < 4 * w * h,
{
    assert(0 <= 4 * (y * w + x) + c < 4 * w * h) by (nonlinear_arith)
        requires
            0 <= x < w,
            0 <= y < h,
            0 <= c < 4,
    {}
}

/// Distinct coordinates have distinct flat indices.
pub proof fn lemma_flat_inj(w: int, x1: int, y1: int, c1: int, x2: int, y2: int, c2: int)
    requires
        0 <= x1 < w,
        0 <= c1 < 4,
        0 <= y1,
        0 <= x2 < w,
        0 <= c2 < 4,
        0 <= y2,
        flat_index(w, x1, y1, c1) == flat_index(w, x2, y2, c2),
    ensures
        x1 == x2 && y1 == y2 && c1 == c2,
{
    let v = flat_index(w, x1, y1, c1);
    assert(4 * (y1 * w + x1) + c1 == y1 * (4 * w) + (4 * x1 + c1)) by (nonlinear_arith);
    assert(4 * (y2 * w + x2) + c2 == y2 * (4 * w) + (4 * x2 + c2)) by (nonlinear_arith);
    assert(4 * x1 + c1 == x1 * 4 + c1);
    assert(4 * x2 + c2 == x2 * 4 + c2);
    vstd::arithmetic::div_mod::lemma_fundamental_div_mod_converse(v, 4 * w, y1, 4 * x1 + c1);
    vstd::arithmetic::div_mod::lemma_fundamental_div_mod_converse(v, 4 * w, y2, 4 * x2 + c2);
    assert(y1 == y2 && 4 * x1 + c1 == 4 * x2 + c2);
    vstd::arithmetic::div_mod::lemma_fundamental_div_mod_converse(4 * x1 + c1, 4, x1, c1);
    vstd::arithmetic::div_mod::lemma_fundamental_div_mod_converse(4 * x1 + c1, 4, x2, c2);
}

/// A buffer's width is never negative and fits the pixel coordinate type.
pub broadcast proof fn lemma_width_in_range(b: PixelBuffer)
    ensures
        0 <= #[trigger] b.spec_width() <= u32::MAX as int,
{
}

/// A buffer's height is never negative and fits the pixel coordinate type.
pub broadcast proof fn lemma_height_in_range(b: PixelBuffer)
    ensures
        0 <= #[trigger] b.spec_height() <= u32::MAX as int,
{
}

impl PixelBuffer {
    pub closed spec fn spec_width(&self) -> int {
        self.width as int
    }

    pub closed spec fn spec_height(&self) -> int {
        self.height as int
    }

    pub closed spec fn spec_pixels(&self) -> Seq<u8> {
        self.pixels@
    }

    /// The byte array holds exactly the buffer's pixels.
    pub open spec fn wf(&self) -> bool {
        self.spec_pixels().len() == 4 * self.spec_width() * self.spec_height()
    }

    /// Channel `c` (0 red, 1 green, 2 blue, 3 alpha) of the pixel at `(x, y)`.
    pub open spec fn byte_at(&self, x: int, y: int, c: int) -> u8 {
        self.spec_pixels()[flat_index(self.spec_width(), x, y, c)]
    }

    pub fn width(&self) -> (w: u32)
        ensures
            w as int == self.spec_width(),
    {
        self.width
    }

    pub fn height(&self) -> (h: u32)
        ensures
            h as int == self.spec_height(),
    {
        self.height
    }

    pub fn pixel_data(&self) -> (d: &Vec<u8>)
        ensures
            d@ == self.spec_pixels(),
    {
        &self.pixels
    }

    /// A fully transparent canvas: every byte of every pixel is zero.
    pub fn new_transparent(width: u32, height: u32) -> (r: PixelBuffer)
        requires
            4 * (width as int) * (height as int) <= usize::MAX as int,
        ensures
            r.wf(),
            r.spec_width() == width as int,
            r.spec_height() == height as int,
            forall|x: int, y: int, c: int|
                0 <= x < width as int && 0 <= y < height as int && 0 <= c < 4
                    ==> r.byte_at(x, y, c) == 0,
    {
        proof {
            assert((4 * (width as int)) * (height as int) == 4 * ((width as int) * (
            height as int))) by (nonlinear_arith);
            assert(0 <= (width as int) * (height as int)) by (nonlinear_arith)
                requires
                    0 <= width as int && 0 <= height as int,
            {}
        }
        let wh: usize = (width as usize) * (height as usize);
        proof {
            assert(wh as int == (width as int) * (height as int));
        }
        let n: usize = 4 * wh;
        let mut pixels: Vec<u8> = Vec::new();
        let mut i: usize = 0;
        while i < n
            invariant
                pixels@.len() == i as int,
                i <= n,
                forall|j: int| 0 <= j < i as int ==> pixels@[j] == 0,
            decreases n - i,
        {
            pixels.push(0);
            i = i + 1;
        }
        let r = PixelBuffer { width, height, pixels };
        proof {
            assert(r.spec_pixels().len() == 4 * (width as int) * (height as int));
            assert forall|x: int, y: int, c: int|
                0 <= x < width as int && 0 <= y < height as int && 0 <= c < 4 implies r.byte_at(
                x,
                y,
                c,
            ) == 0 by {
                lemma_flat_bound(width as int, height as int, x, y, c);
            }
        }
        r
    }

    /// Adopt a raw RGBA byte array, provided its length matches the claimed
    /// dimensions exactly.
    pub fn from_rgba(width: u32, height: u32, data: Vec<u8>) -> (r: Option<PixelBuffer>)
        ensures
            match r {
                Some(b) => {
                    &&& b.wf()
                    &&& b.spec_width() == width as int
                    &&& b.spec_height() == height as int
                    &&& b.spec_pixels() == data@
                },
                None => data@.len() != 4 * (width as int) * (height as int),
            },
    {
        proof {
            vstd::arithmetic::mul::lemma_mul_upper_bound(
                4 * (width as int),
                4 * (u32::MAX as int),
                height as int,
                u32::MAX as int,
            );
            vstd::arithmetic::mul::lemma_mul_nonnegative(4 * (width as int), height as int);
            vstd::arithmetic::mul::lemma_mul_nonnegative(width as int, height as int);
            assert((4 * (width as int)) * (height as int) == 4 * ((width as int) * (
            height as int))) by (nonlinear_arith);
        }
        let expect: u128 = 4u128 * (width as u128) * (height as u128);
        if (data.len() as u128) == expect {
            Some(PixelBuffer { width, height, pixels: data })
        } else {
            None
        }
    }

    /// Copy `src` into this buffer, left-aligned, with its top row at `y0`.
    /// Bytes outside the copied rectangle keep their value.
    pub fn blit(&mut self, src: &PixelBuffer, y0: u32)
        requires
            old(self).wf(),
            src.wf(),
            src.spec_width() <= old(self).spec_width(),
            y0 as int + src.spec_height() <= old(self).spec_height(),
        ensures
            final(self).wf(),
            final(self).spec_width() == old(self).spec_width(),
            final(self).spec_height() == old(self).spec_height(),
            forall|x: int, y: int, c: int|
                0 <= x < old(self).spec_width() && 0 <= y < old(self).spec_height() && 0 <= c < 4
                    ==> final(self).byte_at(x, y, c) == (if y0 as int <= y < y0 as int
                    + src.spec_height() && x < src.spec_width() {
                    src.byte_at(x, y - y0 as int, c)
                } else {
                    old(self).byte_at(x, y, c)
                }),
    {
        let ghost w = self.spec_width();
        let ghost h = self.spec_height();
        let ghost sw = src.spec_width();
        let ghost sh = src.spec_height();
        let ghost orig = *self;
        let dw = self.width;
        let plen = self.pixels.len();
        let slen = src.pixels.len();
        proof {
            assert(plen as int == 4 * w * h);
            assert(slen as int == 4 * sw * sh);
        }
        let mut y: u32 = 0;
        while y < src.height
            invariant
                0 <= (y as int) && (y as int) <= sh,
                self.width as int == w,
                self.height as int == h,
                self.pixels@.len() == 4 * w * h,
                4 * w * h <= usize::MAX as int,
                4 * sw * sh <= usize::MAX as int,
                dw as int == w,
                src.wf(),
                sw == src.spec_width(),
                sh == src.spec_height(),
                sw <= w,
                y0 as int + sh <= h,
                orig.spec_width() == w,
                orig.spec_pixels().len() == 4 * w * h,
                forall|xx: int, yy: int, cc: int|
                    #![trigger flat_index(w, xx, yy, cc)]
                    0 <= xx < w && 0 <= yy < h && 0 <= cc < 4 ==> self.byte_at(xx, yy, cc) == (
                    if y0 as int <= yy < y0 as int + y as int && xx < sw {
                        src.byte_at(xx, yy - y0 as int, cc)
                    } else {
                        orig.byte_at(xx, yy, cc)
                    }),
            decreases sh - y,
        {
            let dy = y0 + y;
            let mut x: u32 = 0;
            while x < src.width
                invariant
                    0 <= (x as int) && (x as int) <= sw,
                    0 <= (y as int) && (y as int) < sh,
                    dy == y0 + y,
                    self.width as int == w,
                    self.height as int == h,
                    self.pixels@.len() == 4 * w * h,
                    4 * w * h <= usize::MAX as int,
                    4 * sw * sh <= usize::MAX as int,
                    dw as int == w,
                    src.wf(),
                    sw == src.spec_width(),
                    sh == src.spec_height(),
                    sw <= w,
                    y0 as int + sh <= h,
                    orig.spec_width() == w,
                    orig.spec_pixels().len() == 4 * w * h,
                    forall|xx: int, yy: int, cc: int|
                        #![trigger flat_index(w, xx, yy, cc)]
                        0 <= xx < w && 0 <= yy < h && 0 <= cc < 4 ==> self.byte_at(xx, yy, cc)
                            == (if (y0 as int <= yy < y0 as int + y as int && xx < sw) || (yy
                            == y0 as int + y as int && xx < x as int) {
                            src.byte_at(xx, yy - y0 as int, cc)
                        } else {
                            orig.byte_at(xx, yy, cc)
                        }),
                decreases sw - x,
            {
                let mut c: u32 = 0;
                while c < 4
                    invariant
                        0 <= (c as int) && (c as int) <= 4,
                        0 <= (x as int) && (x as int) < sw,
                        0 <= (y as int) && (y as int) < sh,
                        dy == y0 + y,
                        self.width as int == w,
                        self.height as int == h,
                        self.pixels@.len() == 4 * w * h,
                        4 * w * h <= usize::MAX as int,
                        4 * sw * sh <= usize::MAX as int,
                        dw as int == w,
                        src.wf(),
                        sw == src.spec_width(),
                        sh == src.spec_height(),
                        sw <= w,
                        y0 as int + sh <= h,
                        orig.spec_width() == w,
                        orig.spec_pixels().len() == 4 * w * h,
                        forall|xx: int, yy: int, cc: int|
                            #![trigger flat_index(w, xx, yy, cc)]
                            0 <= xx < w && 0 <= yy < h && 0 <= cc < 4 ==> self.byte_at(xx, yy, cc)
                                == (if (y0 as int <= yy < y0 as int + y as int && xx < sw) || (yy
                                == y0 as int + y as int && xx < x as int) || (yy == y0 as int
                                + y as int && xx == x as int && cc < c as int) {
                                src.byte_at(xx, yy - y0 as int, cc)
                            } else {
                                orig.byte_at(xx, yy, cc)
                            }),
                    decreases 4 - c,
                {
                    proof {
                        lemma_flat_bound(w, h, x as int, dy as int, c as int);
                        lemma_flat_bound(sw, sh, x as int, y as int, c as int);
                        vstd::arithmetic::mul::lemma_mul_nonnegative(dy as int, w);
                        vstd::arithmetic::mul::lemma_mul_nonnegative(y as int, sw);
                        assert(flat_index(w, x as int, dy as int, c as int) == 4 * ((dy as int) * w
                            + x as int) + c as int);
                        assert(flat_index(sw, x as int, y as int, c as int) == 4 * ((y as int) * sw
                            + x as int) + c as int);
                    }
                    let didx: usize = 4 * ((dy as usize) * (dw as usize) + (x as usize)) + (
                    c as usize);
                    let sidx: usize = 4 * ((y as usize) * (src.width as usize) + (x as usize)) + (
                    c as usize);
                    let ghost pre = self.pixels@;
                    let v = src.pixels[sidx];
                    self.pixels[didx] = v;
                    proof {
                        assert(didx as int == flat_index(w, x as int, dy as int, c as int));
                        assert(sidx as int == flat_index(sw, x as int, y as int, c as int));
                        assert(v == src.byte_at(x as int, y as int, c as int));
                        assert(self.pixels@ =~= pre.update(didx as int, v));
                        assert forall|xx: int, yy: int, cc: int|
                            #![trigger flat_index(w, xx, yy, cc)]
                            0 <= xx < w && 0 <= yy < h && 0 <= cc < 4 implies self.byte_at(
                            xx,
                            yy,
                            cc,
                        ) == (if (y0 as int <= yy < y0 as int + y as int && xx < sw) || (yy
                            == y0 as int + y as int && xx < x as int) || (yy == y0 as int + y as int
                            && xx == x as int && cc < c as int + 1) {
                            src.byte_at(xx, yy - y0 as int, cc)
                        } else {
                            orig.byte_at(xx, yy, cc)
                        }) by {
                            lemma_flat_bound(w, h, xx, yy, cc);
                            if flat_index(w, xx, yy, cc) == didx as int {
                                lemma_flat_inj(w, xx, yy, cc, x as int, dy as int, c as int);
                            }
                        }
                    }
                    c = c + 1;
                }
                x = x + 1;
            }
            y = y + 1;
        }
    }
}

} // verus!

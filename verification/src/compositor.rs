//! Vertical compositing: an ordered sequence of pixel buffers stacked
//! top-to-bottom, left-aligned, on a transparent canvas.
use vstd::prelude::*;
use crate::pixels::PixelBuffer;

verus! {

broadcast use crate::pixels::lemma_width_in_range, crate::pixels::lemma_height_in_range;

/// The canvas width a sequence of buffers needs: the widest input.
pub open spec fn canvas_width(s: Seq<PixelBuffer>) -> int
    decreases s.len(),
{
    if s.len() == 0 {
        0
    } else if canvas_width(s.drop_last()) >= s.last().spec_width() {
        canvas_width(s.drop_last())
    } else {
        s.last().spec_width()
    }
}

/// The canvas height a sequence of buffers needs: the sum of their heights.
pub open spec fn canvas_height(s: Seq<PixelBuffer>) -> int
    decreases s.len(),
{
    if s.len() == 0 {
        0
    } else {
        canvas_height(s.drop_last()) + s.last().spec_height()
    }
}

/// The row at which buffer `k` is placed: the summed heights of the buffers
/// before it.
pub open spec fn stack_offset(s: Seq<PixelBuffer>, k: int) -> int {
    canvas_height(s.take(k))
}

/// The canvas fits the machine: the height fits the pixel coordinate type
/// and the byte array fits an allocation.
pub open spec fn canvas_fits(s: Seq<PixelBuffer>) -> bool {
    &&& canvas_height(s) <= u32::MAX as int
    &&& 4 * canvas_width(s) * canvas_height(s) <= usize::MAX as int
}

/// Canvas dimensions never shrink as buffers are appended, and are never
/// negative.
pub proof fn lemma_canvas_prefix(s: Seq<PixelBuffer>, i: int)
    requires
        0 <= i <= s.len(),
    ensures
        0 <= canvas_width(s.take(i)) <= canvas_width(s),
        0 <= canvas_height(s.take(i)) <= canvas_height(s),
    decreases s.len(),
{
    if s.len() == 0 {
        assert(s.take(i) =~= s);
    } else if i == s.len() {
        assert(s.take(i) =~= s);
        lemma_canvas_prefix(s.drop_last(), s.len() - 1);
        assert(s.drop_last().take(s.len() - 1) =~= s.drop_last());
    } else {
        lemma_canvas_prefix(s.drop_last(), i);
        assert(s.drop_last().take(i) =~= s.take(i));
    }
}

/// Stacking is associative in canvas height: composing a whole sequence
/// yields the same height as composing a prefix and then appending the rest
/// at the resulting height offset. In particular, one more buffer lands at
/// exactly the height the buffers before it add up to.
pub proof fn lemma_stack_height_associative(s: Seq<PixelBuffer>, t: Seq<PixelBuffer>)
    ensures
        canvas_height(s + t) == canvas_height(s) + canvas_height(t),
        stack_offset(s + t, s.len() as int) == canvas_height(s),
    decreases t.len(),
{
    if t.len() == 0 {
        assert(s + t =~= s);
        assert((s + t).take(s.len() as int) =~= s);
    } else {
        lemma_stack_height_associative(s, t.drop_last());
        assert((s + t).drop_last() =~= s + t.drop_last());
        assert((s + t).take(s.len() as int) =~= (s + t.drop_last()).take(s.len() as int));
    }
}

/// The composed canvas: every buffer appears at its stack offset, and the
/// rest of the canvas is transparent.
pub open spec fn composed(s: Seq<PixelBuffer>, r: PixelBuffer) -> bool {
    &&& r.wf()
    &&& r.spec_width() == canvas_width(s)
    &&& r.spec_height() == canvas_height(s)
    &&& forall|k: int, x: int, y: int, c: int|
        #![trigger s[k].byte_at(x, y, c)]
        0 <= k < s.len() && 0 <= x < s[k].spec_width() && 0 <= y < s[k].spec_height() && 0 <= c
            < 4 ==> r.byte_at(x, stack_offset(s, k) + y, c) == s[k].byte_at(x, y, c)
    &&& forall|k: int, x: int, y: int, c: int|
        #![trigger s[k].spec_width(), r.byte_at(x, stack_offset(s, k) + y, c)]
        0 <= k < s.len() && s[k].spec_width() <= x < canvas_width(s) && 0 <= y
            < s[k].spec_height() && 0 <= c < 4 ==> r.byte_at(x, stack_offset(s, k) + y, c) == 0
}

/// Stack the buffers on a transparent canvas, provided the canvas fits the
/// machine's limits.
pub fn compose(buffers: &Vec<PixelBuffer>) -> (r: PixelBuffer)
    requires
        buffers@.len() > 0,
        forall|k: int| 0 <= k < buffers@.len() ==> (#[trigger] buffers@[k]).wf(),
        canvas_fits(buffers@),
    ensures
        composed(buffers@, r),
{
    let ghost bs = buffers@;
    // The canvas dimensions.
    let mut cw: u32 = 0;
    let mut ch_total: u32 = 0;
    let mut k: usize = 0;
    while k < buffers.len()
        invariant
            0 <= k as int <= bs.len(),
            bs == buffers@,
            forall|j: int| 0 <= j < bs.len() ==> (#[trigger] bs[j]).wf(),
            canvas_fits(bs),
            cw as int == canvas_width(bs.take(k as int)),
            ch_total as int == canvas_height(bs.take(k as int)),
        decreases bs.len() - k,
    {
        proof {
            lemma_canvas_prefix(bs, k as int + 1);
            assert(bs.take(k as int + 1).drop_last() =~= bs.take(k as int));
            assert(bs.take(k as int + 1).last() == bs[k as int]);
        }
        let b = &buffers[k];
        let bw = b.width();
        if bw > cw {
            cw = bw;
        }
        ch_total = ch_total + b.height();
        k = k + 1;
    }
    proof {
        assert(bs.take(bs.len() as int) =~= bs);
    }
    let mut canvas = PixelBuffer::new_transparent(cw, ch_total);
    // Stack each buffer below the ones already placed.
    let mut y: u32 = 0;
    let mut k2: usize = 0;
    while k2 < buffers.len()
        invariant
            0 <= k2 as int <= bs.len(),
            bs == buffers@,
            forall|j: int| 0 <= j < bs.len() ==> (#[trigger] bs[j]).wf(),
            canvas_fits(bs),
            cw as int == canvas_width(bs),
            ch_total as int == canvas_height(bs),
            canvas.wf(),
            canvas.spec_width() == cw as int,
            canvas.spec_height() == ch_total as int,
            y as int == stack_offset(bs, k2 as int),
            forall|k: int, x: int, yy: int, c: int|
                #![trigger bs[k].byte_at(x, yy, c)]
                0 <= k < k2 as int && 0 <= x < bs[k].spec_width() && 0 <= yy
                    < bs[k].spec_height() && 0 <= c < 4 ==> canvas.byte_at(
                    x,
                    stack_offset(bs, k) + yy,
                    c,
                ) == bs[k].byte_at(x, yy, c),
            forall|k: int, x: int, yy: int, c: int|
                #![trigger bs[k].spec_width(), canvas.byte_at(x, stack_offset(bs, k) + yy, c)]
                0 <= k < k2 as int && bs[k].spec_width() <= x < cw as int && 0 <= yy
                    < bs[k].spec_height() && 0 <= c < 4 ==> canvas.byte_at(
                    x,
                    stack_offset(bs, k) + yy,
                    c,
                ) == 0,
            forall|x: int, yy: int, c: int|
                #![trigger canvas.byte_at(x, yy, c)]
                0 <= x < cw as int && y as int <= yy < ch_total as int && 0 <= c < 4
                    ==> canvas.byte_at(x, yy, c) == 0,
        decreases bs.len() - k2,
    {
        proof {
            lemma_canvas_prefix(bs, k2 as int + 1);
            lemma_stack_height_associative(bs.take(k2 as int + 1), bs.skip(k2 as int + 1));
            assert(bs.take(k2 as int + 1) + bs.skip(k2 as int + 1) =~= bs);
            assert(bs.take(k2 as int + 1).drop_last() =~= bs.take(k2 as int));
            assert(bs.take(k2 as int + 1).last() == bs[k2 as int]);
        }
        let b = &buffers[k2];
        let bh = b.height();
        let ghost y_before = y as int;
        let ghost canvas_pre = canvas;
        canvas.blit(b, y);
        y = y + bh;
        k2 = k2 + 1;
        proof {
            let kc = k2 as int - 1;
            let bk = bs[kc];
            assert(y as int == stack_offset(bs, k2 as int));
            // Each band sits wholly inside the canvas, and earlier bands end
            // at or before the row just written, so the copy left them alone.
            assert forall|k: int, x: int, yy: int, c: int|
                #![trigger bs[k].byte_at(x, yy, c)]
                0 <= k < k2 as int && 0 <= x < bs[k].spec_width() && 0 <= yy
                    < bs[k].spec_height() && 0 <= c < 4 implies canvas.byte_at(
                x,
                stack_offset(bs, k) + yy,
                c,
            ) == bs[k].byte_at(x, yy, c) by {
                lemma_band_in_canvas(bs, k);
                let ty = stack_offset(bs, k) + yy;
                if k < kc {
                    lemma_stack_monotone(bs, k + 1, kc);
                    assert(stack_offset(bs, k + 1) <= stack_offset(bs, kc));
                    assert(ty < y_before);
                    assert(canvas.byte_at(x, ty, c) == canvas_pre.byte_at(x, ty, c));
                    assert(canvas_pre.byte_at(x, ty, c) == bs[k].byte_at(x, yy, c));
                } else {
                    assert(stack_offset(bs, k) == y_before);
                    assert(canvas.byte_at(x, ty, c) == bk.byte_at(x, ty - y_before, c));
                }
            }
            assert forall|k: int, x: int, yy: int, c: int|
                #![trigger bs[k].spec_width(), canvas.byte_at(x, stack_offset(bs, k) + yy, c)]
                0 <= k < k2 as int && bs[k].spec_width() <= x < cw as int && 0 <= yy
                    < bs[k].spec_height() && 0 <= c < 4 implies canvas.byte_at(
                x,
                stack_offset(bs, k) + yy,
                c,
            ) == 0 by {
                lemma_band_in_canvas(bs, k);
                let ty = stack_offset(bs, k) + yy;
                if k < kc {
                    lemma_stack_monotone(bs, k + 1, kc);
                    assert(stack_offset(bs, k + 1) <= stack_offset(bs, kc));
                    assert(ty < y_before);
                    assert(canvas.byte_at(x, ty, c) == canvas_pre.byte_at(x, ty, c));
                    assert(canvas_pre.byte_at(x, ty, c) == 0);
                } else {
                    assert(stack_offset(bs, k) == y_before);
                    assert(y_before <= ty < ch_total as int);
                    assert(canvas.byte_at(x, ty, c) == canvas_pre.byte_at(x, ty, c));
                    assert(canvas_pre.byte_at(x, ty, c) == 0);
                }
            }
            assert forall|x: int, yy: int, c: int|
                #![trigger canvas.byte_at(x, yy, c)]
                0 <= x < cw as int && y as int <= yy < ch_total as int && 0 <= c < 4
                    implies canvas.byte_at(x, yy, c) == 0 by {
                assert(canvas.byte_at(x, yy, c) == canvas_pre.byte_at(x, yy, c));
                assert(canvas_pre.byte_at(x, yy, c) == 0);
            }
        }
    }
    proof {
        assert(bs.take(bs.len() as int) =~= bs);
    }
    canvas
}

/// Band `k` lies inside the canvas: its offset is at least zero and its
/// bottom row is at most the canvas height.
proof fn lemma_band_in_canvas(s: Seq<PixelBuffer>, k: int)
    requires
        0 <= k < s.len(),
    ensures
        0 <= stack_offset(s, k),
        stack_offset(s, k) + s[k].spec_height() == stack_offset(s, k + 1),
        stack_offset(s, k) + s[k].spec_height() <= canvas_height(s),
        s[k].spec_width() <= canvas_width(s),
{
    lemma_canvas_prefix(s, k);
    lemma_canvas_prefix(s, k + 1);
    assert(s.take(k + 1).drop_last() =~= s.take(k));
    assert(s.take(k + 1).last() == s[k]);
}

/// Offsets grow with the band index.
proof fn lemma_stack_monotone(s: Seq<PixelBuffer>, i: int, j: int)
    requires
        0 <= i <= j <= s.len(),
    ensures
        stack_offset(s, i) <= stack_offset(s, j),
    decreases j - i,
{
    if i < j {
        lemma_stack_monotone(s, i + 1, j);
        assert(s.take(i + 1).drop_last() =~= s.take(i));
        assert(s.take(i + 1).last() == s[i]);
        assert(s[i].spec_height() >= 0);
        assert(canvas_height(s.take(i + 1)) == canvas_height(s.take(i)) + s[i].spec_height());
    }
}

/// Stack the buffers if the canvas has content and fits; report the skip
/// otherwise. A canvas of zero width or height, or one beyond the machine's
/// limits, produces nothing.
pub fn try_compose(buffers: &Vec<PixelBuffer>) -> (r: Option<PixelBuffer>)
    requires
        buffers@.len() > 0,
        forall|k: int| 0 <= k < buffers@.len() ==> (#[trigger] buffers@[k]).wf(),
    ensures
        match r {
            Some(b) => {
                &&& canvas_fits(buffers@)
                &&& canvas_width(buffers@) > 0
                &&& canvas_height(buffers@) > 0
                &&& composed(buffers@, b)
            },
            None => !canvas_fits(buffers@) || canvas_width(buffers@) == 0 || canvas_height(
                buffers@,
            ) == 0,
        },
{
    let ghost bs = buffers@;
    let mut cw: u64 = 0;
    let mut ch: u64 = 0;
    let mut k: usize = 0;
    while k < buffers.len()
        invariant
            0 <= k as int <= bs.len(),
            bs == buffers@,
            forall|j: int| 0 <= j < bs.len() ==> (#[trigger] bs[j]).wf(),
            cw as int == canvas_width(bs.take(k as int)),
            ch as int == canvas_height(bs.take(k as int)),
            cw <= u32::MAX as u64,
        decreases bs.len() - k,
    {
        proof {
            assert(bs.take(k as int + 1).drop_last() =~= bs.take(k as int));
            assert(bs.take(k as int + 1).last() == bs[k as int]);
        }
        let b = &buffers[k];
        let bw = b.width() as u64;
        if bw > cw {
            cw = bw;
        }
        let bh = b.height() as u64;
        if ch > u64::MAX - bh {
            proof {
                lemma_canvas_prefix(bs, k as int + 1);
            }
            return None;
        }
        ch = ch + bh;
        k = k + 1;
    }
    proof {
        assert(bs.take(bs.len() as int) =~= bs);
    }
    if cw == 0 || ch == 0 {
        return None;
    }
    if ch > u32::MAX as u64 {
        return None;
    }
    proof {
        vstd::arithmetic::mul::lemma_mul_upper_bound(
            4 * (cw as int),
            4 * (u32::MAX as int),
            ch as int,
            u32::MAX as int,
        );
        vstd::arithmetic::mul::lemma_mul_nonnegative(4 * (cw as int), ch as int);
        assert((4 * (cw as int)) * (ch as int) == 4 * ((cw as int) * (ch as int)))
            by (nonlinear_arith);
        vstd::arithmetic::mul::lemma_mul_nonnegative(cw as int, ch as int);
    }
    let area: u128 = 4u128 * (cw as u128) * (ch as u128);
    if area > usize::MAX as u128 {
        return None;
    }
    Some(compose(buffers))
}

} // verus!

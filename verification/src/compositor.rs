use vstd::prelude::*;
use crate::bitmap::{BitmapView, CoverageBitmap, lemma_row_major_index_in_range};
use crate::framebuffer::Framebuffer;
use crate::glyph::Color;

verus! {

/// Whether the bitmap, placed with its top-left corner at `(ox, oy)`,
/// covers the framebuffer pixel `(x, y)`.
pub open spec fn covers(b: BitmapView, ox: int, oy: int, x: int, y: int) -> bool {
    ox <= x < ox + b.width && oy <= y < oy + b.height
}

/// The packed `0x00RRGGBB` value for one coverage sample: the coverage
/// replicated into all three channels (grayscale glyph rendering).
pub open spec fn pack_coverage(c: u8) -> u32 {
    (c * 0x1_0000 + c * 0x100 + c) as u32
}

/// One pixel of the blend result: the bitmap's sample wherever the
/// bitmap covers the pixel, the previous value everywhere else. The
/// prior framebuffer content is not blended against: last write wins.
pub open spec fn blended_pixel(
    data: Seq<u32>,
    w: int,
    b: BitmapView,
    ox: int,
    oy: int,
    i: int,
) -> u32 {
    let x = i % w;
    let y = i / w;
    if covers(b, ox, oy, x, y) {
        pack_coverage(b.cov(x - ox, y - oy))
    } else {
        data[i]
    }
}

/// The whole framebuffer after one blend of `b` at `(ox, oy)`.
pub open spec fn composite(data: Seq<u32>, w: int, b: BitmapView, ox: int, oy: int) -> Seq<u32> {
    Seq::new(data.len(), |i: int| blended_pixel(data, w, b, ox, oy, i))
}

/// Lexicographic order on source rows and columns: which grid samples a
/// row-by-row pass has already handled.
spec fn lex_before(ry: int, rx: int, sy: int, sx: int) -> bool {
    ry < sy || (ry == sy && rx < sx)
}

/// The framebuffer part way through a blend: source rows before `sy`
/// written in full, and in row `sy` the columns before `sx`.
spec fn partial(
    data: Seq<u32>,
    w: int,
    b: BitmapView,
    ox: int,
    oy: int,
    sy: int,
    sx: int,
) -> Seq<u32> {
    Seq::new(
        data.len(),
        |i: int|
            {
                let x = i % w;
                let y = i / w;
                if covers(b, ox, oy, x, y) && lex_before(y - oy, x - ox, sy, sx) {
                    pack_coverage(b.cov(x - ox, y - oy))
                } else {
                    data[i]
                }
            },
    )
}

/// A flat index below `w * h` decomposes into in-range coordinates.
proof fn lemma_flat_coords(w: int, h: int, i: int)
    requires
        w >= 0,
        h >= 0,
        0 <= i < w * h,
    ensures
        w > 0 && h > 0,
        0 <= i % w < w,
        0 <= i / w < h,
        i == (i / w) * w + (i % w),
{
    assert(w > 0 && h > 0) by (nonlinear_arith)
        requires
            w >= 0,
            h >= 0,
            0 <= i < w * h,
    ;
    vstd::arithmetic::div_mod::lemma_mod_division_less_than_divisor(i, w);
    vstd::arithmetic::div_mod::lemma_fundamental_div_mod(i, w);
    let q = i / w;
    let r = i % w;
    assert(q * w == w * q) by (nonlinear_arith);
    assert(0 <= q < h) by (nonlinear_arith)
        requires
            w > 0,
            h > 0,
            0 <= i < w * h,
            i == w * q + r,
            0 <= r < w,
    ;
}

/// Nothing is covered before the pass begins.
proof fn lemma_partial_start(data: Seq<u32>, w: int, h: int, b: BitmapView, ox: int, oy: int)
    requires
        data.len() == w * h,
        w >= 0,
        h >= 0,
    ensures
        partial(data, w, b, ox, oy, 0, 0) == data,
{
    assert forall|i: int| 0 <= i < data.len() implies partial(data, w, b, ox, oy, 0, 0)[i]
        == data[i] by {
        lemma_flat_coords(w, h, i);
    }
    assert(partial(data, w, b, ox, oy, 0, 0) =~= data);
}

/// Finishing row `sy` is the same as standing at the start of row
/// `sy + 1`.
proof fn lemma_partial_row_advance(
    data: Seq<u32>,
    w: int,
    h: int,
    b: BitmapView,
    ox: int,
    oy: int,
    sy: int,
)
    requires
        data.len() == w * h,
        w >= 0,
        h >= 0,
    ensures
        partial(data, w, b, ox, oy, sy, b.width as int) == partial(data, w, b, ox, oy, sy + 1, 0),
{
    assert forall|i: int| 0 <= i < data.len() implies partial(data, w, b, ox, oy, sy, b.width as int)[i]
        == partial(data, w, b, ox, oy, sy + 1, 0)[i] by {
        lemma_flat_coords(w, h, i);
    }
    assert(partial(data, w, b, ox, oy, sy, b.width as int) =~= partial(data, w, b, ox, oy, sy + 1, 0));
}

/// After the last row the pass has written exactly the composite.
proof fn lemma_partial_complete(data: Seq<u32>, w: int, h: int, b: BitmapView, ox: int, oy: int)
    requires
        data.len() == w * h,
        w >= 0,
        h >= 0,
    ensures
        partial(data, w, b, ox, oy, b.height as int, 0) == composite(data, w, b, ox, oy),
{
    assert forall|i: int| 0 <= i < data.len() implies partial(data, w, b, ox, oy, b.height as int, 0)[i]
        == composite(data, w, b, ox, oy)[i] by {
        lemma_flat_coords(w, h, i);
    }
    assert(partial(data, w, b, ox, oy, b.height as int, 0) =~= composite(data, w, b, ox, oy));
}

/// A source sample whose destination falls outside the framebuffer is
/// skipped without effect.
proof fn lemma_partial_skip(
    data: Seq<u32>,
    w: int,
    h: int,
    b: BitmapView,
    ox: int,
    oy: int,
    sy: int,
    sx: int,
)
    requires
        data.len() == w * h,
        w >= 0,
        h >= 0,
        0 <= sy < b.height,
        0 <= sx < b.width,
        ox + sx < 0 || ox + sx >= w || oy + sy < 0 || oy + sy >= h,
    ensures
        partial(data, w, b, ox, oy, sy, sx + 1) == partial(data, w, b, ox, oy, sy, sx),
{
    assert forall|i: int| 0 <= i < data.len() implies partial(data, w, b, ox, oy, sy, sx + 1)[i]
        == partial(data, w, b, ox, oy, sy, sx)[i] by {
        lemma_flat_coords(w, h, i);
    }
    assert(partial(data, w, b, ox, oy, sy, sx + 1) =~= partial(data, w, b, ox, oy, sy, sx));
}

/// Writing the destination of source sample `(sx, sy)` advances the
/// pass by exactly that sample.
proof fn lemma_partial_write(
    data: Seq<u32>,
    w: int,
    h: int,
    b: BitmapView,
    ox: int,
    oy: int,
    sy: int,
    sx: int,
)
    requires
        data.len() == w * h,
        w >= 0,
        h >= 0,
        b.wf(),
        0 <= sy < b.height,
        0 <= sx < b.width,
        0 <= ox + sx < w,
        0 <= oy + sy < h,
    ensures
        partial(data, w, b, ox, oy, sy, sx).update(
            (oy + sy) * w + (ox + sx),
            pack_coverage(b.cov(sx, sy)),
        ) == partial(data, w, b, ox, oy, sy, sx + 1),
{
    let dx = ox + sx;
    let dy = oy + sy;
    let i0 = dy * w + dx;
    lemma_row_major_index_in_range(w, h, dx, dy);
    vstd::arithmetic::div_mod::lemma_fundamental_div_mod_converse(i0, w, dy, dx);
    let lhs = partial(data, w, b, ox, oy, sy, sx).update(i0, pack_coverage(b.cov(sx, sy)));
    let rhs = partial(data, w, b, ox, oy, sy, sx + 1);
    assert forall|i: int| 0 <= i < data.len() implies lhs[i] == rhs[i] by {
        lemma_flat_coords(w, h, i);
        if i != i0 {
            let x = i % w;
            let y = i / w;
            if x == dx && y == dy {
                assert(i == y * w + x);
            }
        }
    }
    assert(lhs =~= rhs);
}

/// Packs one coverage sample as `0x00RRGGBB` with `R = G = B` equal to
/// the coverage.
pub fn pack_pixel(c: u8) -> (r: u32)
    ensures
        r == pack_coverage(c),
{
    let v = c as u32;
    v * 0x1_0000 + v * 0x100 + v
}

/// Blends `bitmap` into `fb` with the bitmap's top-left corner at
/// `(ox, oy)`. Every source sample whose destination falls outside
/// `[0, width) x [0, height)` is skipped silently; every in-bounds
/// destination takes the packed grayscale of its coverage sample,
/// replacing what was there (last write wins). `color` is part of the
/// blend interface; in this grayscale model it does not enter the
/// written value.
#[allow(unused_variables)]
#[verifier::loop_isolation(false)]
pub fn blend(fb: &mut Framebuffer, bitmap: &CoverageBitmap, ox: i64, oy: i64, color: Color)
    requires
        old(fb).wf(),
        bitmap@.wf(),
        -0x4000_0000_0000_0000 <= ox <= 0x4000_0000_0000_0000,
        -0x4000_0000_0000_0000 <= oy <= 0x4000_0000_0000_0000,
    ensures
        final(fb).wf(),
        final(fb).width() == old(fb).width(),
        final(fb).height() == old(fb).height(),
        final(fb)@ == composite(old(fb)@, old(fb).width() as int, bitmap@, ox as int, oy as int),
{
    let ghost data0 = fb@;
    let ghost b = bitmap@;
    let ghost wi = old(fb).width() as int;
    let ghost hi = old(fb).height() as int;
    let (w, h) = fb.dimensions();
    let bw = bitmap.width();
    let bh = bitmap.height();
    proof {
        lemma_partial_start(data0, wi, hi, b, ox as int, oy as int);
    }
    let mut sy: u32 = 0;
    while sy < bh
        invariant
            sy <= bh,
            fb.wf(),
            fb.width() == old(fb).width(),
            fb.height() == old(fb).height(),
            fb@ == partial(data0, wi, b, ox as int, oy as int, sy as int, 0),
        decreases bh - sy,
    {
        let mut sx: u32 = 0;
        while sx < bw
            invariant
                sy < bh,
                sx <= bw,
                fb.wf(),
                fb.width() == old(fb).width(),
                fb.height() == old(fb).height(),
                fb@ == partial(data0, wi, b, ox as int, oy as int, sy as int, sx as int),
            decreases bw - sx,
        {
            let dx = ox + sx as i64;
            let dy = oy + sy as i64;
            if dx >= 0 && dy >= 0 && (dx as u64) < (w as u64) && (dy as u64) < (h as u64) {
                let value = pack_pixel(bitmap.sample(sx, sy));
                fb.set_pixel(dx as usize, dy as usize, value);
                proof {
                    lemma_partial_write(
                        data0,
                        wi,
                        hi,
                        b,
                        ox as int,
                        oy as int,
                        sy as int,
                        sx as int,
                    );
                }
            } else {
                proof {
                    lemma_partial_skip(
                        data0,
                        wi,
                        hi,
                        b,
                        ox as int,
                        oy as int,
                        sy as int,
                        sx as int,
                    );
                }
            }
            sx = sx + 1;
        }
        proof {
            lemma_partial_row_advance(data0, wi, hi, b, ox as int, oy as int, sy as int);
        }
        sy = sy + 1;
    }
    proof {
        lemma_partial_complete(data0, wi, hi, b, ox as int, oy as int);
    }
}

/// Clipping safety, in the large: a bitmap placed wholly outside the
/// framebuffer changes no pixel at all.
pub proof fn lemma_composite_fully_clipped(
    data: Seq<u32>,
    w: int,
    h: int,
    b: BitmapView,
    ox: int,
    oy: int,
)
    requires
        data.len() == w * h,
        w >= 0,
        h >= 0,
        ox + b.width <= 0 || ox >= w || oy + b.height <= 0 || oy >= h,
    ensures
        composite(data, w, b, ox, oy) == data,
{
    assert forall|i: int| 0 <= i < data.len() implies composite(data, w, b, ox, oy)[i]
        == data[i] by {
        lemma_flat_coords(w, h, i);
    }
    assert(composite(data, w, b, ox, oy) =~= data);
}

/// Missing-glyph resilience: compositing a zero-coverage (empty) bitmap
/// leaves the framebuffer untouched, whatever the origin.
pub proof fn lemma_composite_empty(data: Seq<u32>, w: int, b: BitmapView, ox: int, oy: int)
    requires
        b.width == 0 || b.height == 0,
    ensures
        composite(data, w, b, ox, oy) == data,
{
    assert forall|i: int| 0 <= i < data.len() implies composite(data, w, b, ox, oy)[i]
        == data[i] by {
    }
    assert(composite(data, w, b, ox, oy) =~= data);
}

/// Last write wins: wherever a blend covers an in-bounds pixel, the
/// blended framebuffer holds that blend's sample, whatever stood there
/// before.
pub proof fn lemma_blend_last_write_wins(
    data: Seq<u32>,
    w: int,
    h: int,
    b: BitmapView,
    ox: int,
    oy: int,
    x: int,
    y: int,
)
    requires
        data.len() == w * h,
        0 <= x < w,
        0 <= y < h,
        covers(b, ox, oy, x, y),
    ensures
        composite(data, w, b, ox, oy)[y * w + x] == pack_coverage(b.cov(x - ox, y - oy)),
{
    lemma_row_major_index_in_range(w, h, x, y);
    vstd::arithmetic::div_mod::lemma_fundamental_div_mod_converse(y * w + x, w, y, x);
}

} // verus!

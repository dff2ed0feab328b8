use vstd::prelude::*;
use crate::bitmap::BitmapView;
use crate::cache::GlyphRasterCache;
use crate::compositor::{blend, composite, covers, pack_coverage};
use crate::framebuffer::Framebuffer;
use crate::glyph::{Color, GlyphPlacement, key_code};
use crate::shaping::FontContext;

verus! {

/// Destination x of a bitmap drawn for a placement: the glyph origin
/// displaced right by the bitmap's left offset.
pub open spec fn dest_x(p: GlyphPlacement, b: BitmapView) -> int {
    p.x + b.left
}

/// Destination y of a bitmap drawn for a placement: the glyph origin
/// displaced up by the bitmap's top offset.
pub open spec fn dest_y(p: GlyphPlacement, b: BitmapView) -> int {
    p.y - b.top
}

/// The framebuffer after compositing the placements of `ps` in order,
/// each placement's bitmap taken from `m` under its packed key code.
/// Later placements overwrite earlier ones where they overlap.
pub open spec fn render_fold(
    data: Seq<u32>,
    w: int,
    ps: Seq<GlyphPlacement>,
    m: Map<u64, BitmapView>,
) -> Seq<u32>
    decreases ps.len(),
{
    if ps.len() == 0 {
        data
    } else {
        let p = ps.last();
        let b = m[key_code(p.key)];
        composite(render_fold(data, w, ps.drop_last(), m), w, b, dest_x(p, b), dest_y(p, b))
    }
}

/// The fold reads `m` only at the codes of `ps`: a map that keeps those
/// entries folds to the same framebuffer.
pub proof fn lemma_render_fold_stable(
    data: Seq<u32>,
    w: int,
    ps: Seq<GlyphPlacement>,
    m1: Map<u64, BitmapView>,
    m2: Map<u64, BitmapView>,
)
    requires
        forall|j: int|
            0 <= j < ps.len() ==> m1.dom().contains(#[trigger] key_code(ps[j].key))
                && m2.dom().contains(key_code(ps[j].key)) && m2[key_code(ps[j].key)]
                == m1[key_code(ps[j].key)],
    ensures
        render_fold(data, w, ps, m2) == render_fold(data, w, ps, m1),
    decreases ps.len(),
{
    if ps.len() > 0 {
        assert(ps.last() == ps[ps.len() - 1]);
        lemma_render_fold_stable(data, w, ps.drop_last(), m1, m2);
    }
}

/// One full redraw pass over already-prepared framebuffer contents:
/// for every placement in order, look the glyph up in the cache
/// (rasterizing on a miss), then composite its bitmap. The final
/// framebuffer is exactly the fold of the placements over the final
/// cache contents; the cache only grows, and afterwards holds an entry
/// for every placement.
#[verifier::loop_isolation(false)]
pub fn render_placements(
    fb: &mut Framebuffer,
    cache: &mut GlyphRasterCache,
    ctx: &mut FontContext,
    placements: &Vec<GlyphPlacement>,
    color: Color,
)
    requires
        old(fb).wf(),
        old(cache).wf(),
    ensures
        final(fb).wf(),
        final(fb).width() == old(fb).width(),
        final(fb).height() == old(fb).height(),
        final(cache).wf(),
        old(cache)@.submap_of(final(cache)@),
        forall|j: int|
            0 <= j < placements@.len() ==> final(cache)@.dom().contains(
                #[trigger] key_code(placements@[j].key),
            ),
        final(fb)@ == render_fold(
            old(fb)@,
            old(fb).width() as int,
            placements@,
            final(cache)@,
        ),
{
    let ghost data0 = fb@;
    let ghost wi = old(fb).width() as int;
    let mut i: usize = 0;
    while i < placements.len()
        invariant
            i <= placements.len(),
            fb.wf(),
            fb.width() == old(fb).width(),
            fb.height() == old(fb).height(),
            cache.wf(),
            old(cache)@.submap_of(cache@),
            forall|j: int|
                0 <= j < i ==> cache@.dom().contains(#[trigger] key_code(placements@[j].key)),
            fb@ == render_fold(data0, wi, placements@.take(i as int), cache@),
        decreases placements.len() - i,
    {
        let ghost pre = cache@;
        let p = placements[i];
        let bm = cache.get_or_rasterize(ctx, p.key, &p.source);
        let ox = (p.x as i64) + (bm.left() as i64);
        let oy = (p.y as i64) - (bm.top() as i64);
        proof {
            lemma_render_fold_stable(data0, wi, placements@.take(i as int), pre, cache@);
            assert(placements@.take(i as int + 1).drop_last() =~= placements@.take(i as int));
            assert(placements@.take(i as int + 1).last() == placements@[i as int]);
        }
        blend(fb, &bm, ox, oy, color);
        i = i + 1;
    }
    proof {
        assert(placements@.take(placements@.len() as int) =~= placements@);
    }
}

/// One full redraw pass from a clean slate, as the frame renderer runs
/// it: fill the framebuffer with `background`, then composite every
/// placement in order with `color`'s grayscale model.
pub fn render(
    fb: &mut Framebuffer,
    cache: &mut GlyphRasterCache,
    ctx: &mut FontContext,
    placements: &Vec<GlyphPlacement>,
    background: u32,
    color: Color,
)
    requires
        old(fb).wf(),
        old(cache).wf(),
    ensures
        final(fb).wf(),
        final(fb).width() == old(fb).width(),
        final(fb).height() == old(fb).height(),
        final(cache).wf(),
        old(cache)@.submap_of(final(cache)@),
        forall|j: int|
            0 <= j < placements@.len() ==> final(cache)@.dom().contains(
                #[trigger] key_code(placements@[j].key),
            ),
        final(fb)@ == render_fold(
            Seq::new(old(fb)@.len(), |i: int| background),
            old(fb).width() as int,
            placements@,
            final(cache)@,
        ),
{
    fb.fill(background);
    proof {
        assert(fb@ =~= Seq::new(old(fb)@.len(), |i: int| background));
    }
    render_placements(fb, cache, ctx, placements, color);
}

/// Order sensitivity: where the second of two placements covers an
/// in-bounds pixel, the folded framebuffer holds the value contributed
/// by that later placement, whatever the first wrote there.
pub proof fn lemma_order_sensitivity(
    data: Seq<u32>,
    w: int,
    h: int,
    first: GlyphPlacement,
    second: GlyphPlacement,
    m: Map<u64, BitmapView>,
    x: int,
    y: int,
)
    requires
        data.len() == w * h,
        0 <= x < w,
        0 <= y < h,
        m.dom().contains(key_code(first.key)),
        m.dom().contains(key_code(second.key)),
        covers(m[key_code(second.key)], dest_x(second, m[key_code(second.key)]), dest_y(
            second,
            m[key_code(second.key)],
        ), x, y),
    ensures
        render_fold(data, w, seq![first, second], m)[y * w + x] == pack_coverage(
            m[key_code(second.key)].cov(
                x - dest_x(second, m[key_code(second.key)]),
                y - dest_y(second, m[key_code(second.key)]),
            ),
        ),
{
    let ps = seq![first, second];
    let b1 = m[key_code(first.key)];
    let b2 = m[key_code(second.key)];
    let single = seq![first];
    assert(ps.last() == second);
    assert(ps.drop_last() =~= single);
    assert(single.last() == first);
    assert(single.drop_last() =~= Seq::<GlyphPlacement>::empty());
    assert(render_fold(data, w, single.drop_last(), m) == data);
    assert(render_fold(data, w, single, m) == composite(data, w, b1, dest_x(first, b1), dest_y(first, b1)));
    let prev = render_fold(data, w, ps.drop_last(), m);
    assert(prev.len() == data.len());
    crate::compositor::lemma_blend_last_write_wins(
        prev,
        w,
        h,
        b2,
        dest_x(second, b2),
        dest_y(second, b2),
        x,
        y,
    );
}

} // verus!

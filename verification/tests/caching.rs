use cosmic_text::fontdb;
use cosmic_text::{CacheKey, CacheKeyFlags, FontSystem, SubpixelBin, SwashCache};
use glyph_raster::bitmap::CoverageBitmap;
use glyph_raster::cache::GlyphRasterCache;
use glyph_raster::compositor::blend;
use glyph_raster::framebuffer::Framebuffer;
use glyph_raster::glyph::{encode_key, Color, GlyphKey};
use glyph_raster::shaping::FontContext;

fn context() -> FontContext {
    FontContext::new(FontSystem::new(), SwashCache::new())
}

fn key(glyph_id: u16) -> GlyphKey {
    GlyphKey { glyph_id, font: 0, font_size: 24, x_bin: 0, y_bin: 0 }
}

fn dangling_cache_key(glyph_id: u16) -> CacheKey {
    CacheKey {
        font_id: fontdb::ID::dummy(),
        glyph_id,
        font_size_bits: 24.0f32.to_bits(),
        x_bin: SubpixelBin::Zero,
        y_bin: SubpixelBin::Zero,
        font_weight: fontdb::Weight::NORMAL,
        flags: CacheKeyFlags::empty(),
    }
}

#[test]
fn repeated_lookups_rasterize_once() {
    let mut ctx = context();
    let mut cache = GlyphRasterCache::new();
    let key = key(5);
    assert_eq!(cache.len(), 0);
    assert!(!cache.contains(key));

    let b1 = cache.get_or_rasterize(&mut ctx, key, &None);
    let b2 = cache.get_or_rasterize(&mut ctx, key, &None);
    let b3 = cache.get_or_rasterize(&mut ctx, key, &None);

    assert_eq!(cache.len(), 1);
    assert!(cache.contains(key));
    for b in [&b1, &b2, &b3] {
        assert_eq!(b.width(), b1.width());
        assert_eq!(b.height(), b1.height());
        assert_eq!(b.left(), b1.left());
        assert_eq!(b.top(), b1.top());
    }
}

#[test]
fn distinct_keys_get_distinct_entries() {
    let mut ctx = context();
    let mut cache = GlyphRasterCache::new();
    let a = key(5);
    let same_glyph_other_font = GlyphKey { font: 1, ..a };
    let same_glyph_other_size = GlyphKey { font_size: 25, ..a };
    let same_glyph_other_bin = GlyphKey { x_bin: 1, ..a };
    let other_glyph = key(6);
    cache.get_or_rasterize(&mut ctx, a, &None);
    cache.get_or_rasterize(&mut ctx, same_glyph_other_font, &None);
    cache.get_or_rasterize(&mut ctx, same_glyph_other_size, &None);
    cache.get_or_rasterize(&mut ctx, same_glyph_other_bin, &None);
    cache.get_or_rasterize(&mut ctx, other_glyph, &None);
    cache.get_or_rasterize(&mut ctx, a, &None);
    assert_eq!(cache.len(), 5);
    assert!(cache.contains(a) && cache.contains(same_glyph_other_font));
    assert!(cache.contains(same_glyph_other_size) && cache.contains(same_glyph_other_bin));
    assert!(cache.contains(other_glyph));
}

#[test]
fn key_packing_is_injective_on_samples() {
    let base = GlyphKey { glyph_id: 1, font: 1, font_size: 1, x_bin: 1, y_bin: 1 };
    let samples = [
        base,
        GlyphKey { glyph_id: 2, ..base },
        GlyphKey { font: 2, ..base },
        GlyphKey { font_size: 2, ..base },
        GlyphKey { x_bin: 2, ..base },
        GlyphKey { y_bin: 2, ..base },
        GlyphKey { glyph_id: 0, font: 0, font_size: 0, x_bin: 0, y_bin: 0 },
        GlyphKey { glyph_id: u16::MAX, font: u16::MAX, font_size: u16::MAX, x_bin: u8::MAX, y_bin: u8::MAX },
    ];
    for (i, x) in samples.iter().enumerate() {
        for (j, y) in samples.iter().enumerate() {
            assert_eq!(encode_key(*x) == encode_key(*y), i == j);
        }
    }
    let picked = GlyphKey { glyph_id: 3, font: 1, font_size: 24, x_bin: 2, y_bin: 1 };
    assert_eq!(
        encode_key(picked),
        0x1_0000_0000_0000 + 24 * 0x1_0000_0000 + 3 * 0x1_0000 + 2 * 0x100 + 1
    );
}

#[test]
fn rasterizer_outcomes_resolve_per_case() {
    let good = CoverageBitmap::from_rasterized(Some((vec![1, 2, 3, 4, 5, 6], 3, 2, 7, -4)));
    assert_eq!(good.width(), 3);
    assert_eq!(good.height(), 2);
    assert_eq!(good.left(), 7);
    assert_eq!(good.top(), -4);
    assert_eq!(good.sample(2, 1), 6);

    let malformed = CoverageBitmap::from_rasterized(Some((vec![1, 2, 3], 3, 2, 0, 0)));
    assert_eq!(malformed.width(), 0);
    assert_eq!(malformed.height(), 0);

    let missing = CoverageBitmap::from_rasterized(None);
    assert_eq!(missing.width(), 0);
    assert_eq!(missing.height(), 0);
}

#[test]
fn unresolvable_glyph_yields_empty_bitmap() {
    let mut ctx = context();
    let mut cache = GlyphRasterCache::new();

    let missing = cache.get_or_rasterize(&mut ctx, key(42), &None);
    assert_eq!(missing.width(), 0);
    assert_eq!(missing.height(), 0);

    let source = Some(dangling_cache_key(43));
    let missing_too = cache.get_or_rasterize(&mut ctx, key(43), &source);
    assert_eq!(missing_too.width(), 0);
    assert_eq!(missing_too.height(), 0);
    assert_eq!(cache.len(), 2);
}

#[test]
fn missing_glyph_composite_leaves_framebuffer_unchanged() {
    let mut ctx = context();
    let mut cache = GlyphRasterCache::new();
    let bitmap: CoverageBitmap = cache.get_or_rasterize(&mut ctx, key(7), &None);

    let mut fb = Framebuffer::new(6, 6, 8).unwrap();
    blend(&mut fb, &bitmap, 2, 2, Color { r: 255, g: 255, b: 255 });
    for y in 0..6usize {
        for x in 0..6usize {
            assert_eq!(fb.pixel(x, y), 8);
        }
    }
}

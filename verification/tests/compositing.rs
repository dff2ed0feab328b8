use glyph_raster::bitmap::CoverageBitmap;
use glyph_raster::compositor::{blend, pack_pixel};
use glyph_raster::framebuffer::Framebuffer;
use glyph_raster::glyph::Color;

fn white() -> Color {
    Color { r: 0xFF, g: 0xFF, b: 0xFF }
}

fn opaque_bitmap(w: u32, h: u32) -> CoverageBitmap {
    CoverageBitmap::new(w, h, 0, 0, vec![0xFF; (w * h) as usize]).unwrap()
}

fn uniform_bitmap(w: u32, h: u32, coverage: u8) -> CoverageBitmap {
    CoverageBitmap::new(w, h, 0, 0, vec![coverage; (w * h) as usize]).unwrap()
}

#[test]
fn packs_coverage_into_all_channels() {
    assert_eq!(pack_pixel(0x00), 0x0000_0000);
    assert_eq!(pack_pixel(0xAB), 0x00AB_ABAB);
    assert_eq!(pack_pixel(0xFF), 0x00FF_FFFF);
}

#[test]
fn blend_writes_packed_grayscale() {
    let mut fb = Framebuffer::new(4, 4, 7).unwrap();
    let bm = uniform_bitmap(1, 1, 0xAB);
    blend(&mut fb, &bm, 2, 1, white());
    for y in 0..4usize {
        for x in 0..4usize {
            let expected = if (x, y) == (2, 1) { 0x00AB_ABAB } else { 7 };
            assert_eq!(fb.pixel(x, y), expected);
        }
    }
}

#[test]
fn blend_clips_partially_outside_bitmap() {
    let mut fb = Framebuffer::new(4, 4, 1).unwrap();
    let bm = opaque_bitmap(3, 3);
    blend(&mut fb, &bm, -1, -1, white());
    for y in 0..4usize {
        for x in 0..4usize {
            let expected = if x < 2 && y < 2 { 0x00FF_FFFF } else { 1 };
            assert_eq!(fb.pixel(x, y), expected);
        }
    }
}

#[test]
fn blend_fully_outside_changes_nothing() {
    let mut fb = Framebuffer::new(4, 4, 9).unwrap();
    let bm = opaque_bitmap(3, 3);
    blend(&mut fb, &bm, 10, 10, white());
    blend(&mut fb, &bm, -3, 0, white());
    blend(&mut fb, &bm, 0, -3, white());
    blend(&mut fb, &bm, 1 << 61, 0, white());
    blend(&mut fb, &bm, 0, -(1 << 61), white());
    for y in 0..4usize {
        for x in 0..4usize {
            assert_eq!(fb.pixel(x, y), 9);
        }
    }
}

#[test]
fn blend_empty_bitmap_changes_nothing() {
    let mut fb = Framebuffer::new(3, 3, 5).unwrap();
    let bm = CoverageBitmap::empty();
    blend(&mut fb, &bm, 0, 0, white());
    blend(&mut fb, &bm, 1, 1, white());
    for y in 0..3usize {
        for x in 0..3usize {
            assert_eq!(fb.pixel(x, y), 5);
        }
    }
}

#[test]
fn overlap_takes_the_later_blend() {
    let mut fb = Framebuffer::new(4, 4, 0).unwrap();
    let first = uniform_bitmap(2, 2, 100);
    let second = uniform_bitmap(2, 2, 200);
    blend(&mut fb, &first, 0, 0, white());
    blend(&mut fb, &second, 1, 1, white());
    assert_eq!(fb.pixel(1, 1), pack_pixel(200));
    assert_eq!(fb.pixel(0, 0), pack_pixel(100));
    assert_eq!(fb.pixel(2, 2), pack_pixel(200));

    let mut fb2 = Framebuffer::new(4, 4, 0).unwrap();
    blend(&mut fb2, &second, 1, 1, white());
    blend(&mut fb2, &first, 0, 0, white());
    assert_eq!(fb2.pixel(1, 1), pack_pixel(100));
}

#[test]
fn two_glyph_scenario_paints_exactly_the_two_rectangles() {
    let background = 3;
    let mut fb = Framebuffer::new(20, 20, background).unwrap();
    let a = opaque_bitmap(8, 8);
    let b = opaque_bitmap(8, 8);
    blend(&mut fb, &a, 0, 0, white());
    blend(&mut fb, &b, 10, 0, white());
    for y in 0..20usize {
        for x in 0..20usize {
            let in_a = x < 8 && y < 8;
            let in_b = (10..18).contains(&x) && y < 8;
            let expected = if in_a || in_b { 0x00FF_FFFF } else { background };
            assert_eq!(fb.pixel(x, y), expected);
        }
    }
}

#[test]
fn bitmap_constructor_rejects_mismatched_sample_count() {
    assert!(CoverageBitmap::new(2, 2, 0, 0, vec![0; 3]).is_none());
    assert!(CoverageBitmap::new(2, 2, 0, 0, vec![0; 4]).is_some());
    assert!(CoverageBitmap::new(0, 5, 1, 2, vec![]).is_some());
}

#[test]
fn framebuffer_construction_and_fill() {
    assert!(Framebuffer::new(usize::MAX, 2, 0).is_none());
    let mut fb = Framebuffer::new(3, 2, 4).unwrap();
    assert_eq!(fb.dimensions(), (3, 2));
    assert_eq!(fb.as_pixels().len(), 6);
    assert!(fb.as_pixels().iter().all(|&p| p == 4));
    fb.fill(11);
    assert!(fb.as_pixels().iter().all(|&p| p == 11));
}

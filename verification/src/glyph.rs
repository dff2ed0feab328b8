use vstd::prelude::*;
use vstd::arithmetic::div_mod::lemma_fundamental_div_mod_converse;

verus! {

/// Identity of one cache entry: one glyph of one font at one rendered
/// size and subpixel bucket. Two keys are equal iff all fields are
/// equal. A glyph id identifies a glyph only within one font, so the
/// caller assigns each distinct font (and rendering variant) its own
/// discriminant; an index over the fonts seen is enough.
#[derive(Clone, Copy, PartialEq, Eq, Hash, Structural, Debug)]
pub struct GlyphKey {
    /// Identifier of the glyph within its font, as the shaping
    /// collaborator selected it.
    pub glyph_id: u16,
    /// Discriminant of the font (and rendering variant) the glyph
    /// comes from, assigned by the caller.
    pub font: u16,
    /// Rendered size in whole pixels.
    pub font_size: u16,
    /// Subpixel bucket of the horizontal fractional offset.
    pub x_bin: u8,
    /// Subpixel bucket of the vertical fractional offset.
    pub y_bin: u8,
}

/// The key packed into one integer, so that the cache can be keyed by a
/// plain `u64`: each field takes its own digit range.
pub open spec fn key_code(k: GlyphKey) -> u64 {
    (k.font * 0x1_0000_0000_0000 + k.font_size * 0x1_0000_0000 + k.glyph_id * 0x1_0000
        + k.x_bin * 0x100 + k.y_bin) as u64
}

/// Packs a key for use as a hash-map key.
pub fn encode_key(k: GlyphKey) -> (code: u64)
    ensures
        code == key_code(k),
{
    (k.font as u64) * 0x1_0000_0000_0000 + (k.font_size as u64) * 0x1_0000_0000 + (k.glyph_id
        as u64) * 0x1_0000 + (k.x_bin as u64) * 0x100 + (k.y_bin as u64)
}

/// Each field stands in its own digit range of the code, so it can be
/// read back by division and remainder.
proof fn lemma_key_code_digits(k: GlyphKey)
    ensures
        key_code(k) as int % 0x100 == k.y_bin,
        (key_code(k) as int / 0x100) % 0x100 == k.x_bin,
        (key_code(k) as int / 0x1_0000) % 0x1_0000 == k.glyph_id,
        (key_code(k) as int / 0x1_0000_0000) % 0x1_0000 == k.font_size,
        key_code(k) as int / 0x1_0000_0000_0000 == k.font,
{
    let c = key_code(k) as int;
    let q1: int = k.font * 0x100_0000_0000 + k.font_size * 0x100_0000 + k.glyph_id * 0x100
        + k.x_bin;
    let q2: int = k.font * 0x1_0000_0000 + k.font_size * 0x1_0000 + k.glyph_id;
    let q3: int = k.font * 0x1_0000 + k.font_size;
    lemma_fundamental_div_mod_converse(c, 0x100, q1, k.y_bin as int);
    lemma_fundamental_div_mod_converse(q1, 0x100, q2, k.x_bin as int);
    lemma_fundamental_div_mod_converse(c, 0x1_0000, q2, k.x_bin * 0x100 + k.y_bin);
    lemma_fundamental_div_mod_converse(q2, 0x1_0000, q3, k.glyph_id as int);
    lemma_fundamental_div_mod_converse(
        c,
        0x1_0000_0000,
        q3,
        k.glyph_id * 0x1_0000 + k.x_bin * 0x100 + k.y_bin,
    );
    lemma_fundamental_div_mod_converse(q3, 0x1_0000, k.font as int, k.font_size as int);
    lemma_fundamental_div_mod_converse(
        c,
        0x1_0000_0000_0000,
        k.font as int,
        k.font_size * 0x1_0000_0000 + k.glyph_id * 0x1_0000 + k.x_bin * 0x100 + k.y_bin,
    );
}

/// Distinct keys get distinct codes: the `u64` packing loses nothing,
/// so keying the cache by codes caches per key exactly.
pub proof fn lemma_key_code_injective(a: GlyphKey, b: GlyphKey)
    ensures
        key_code(a) == key_code(b) ==> a == b,
{
    if key_code(a) == key_code(b) {
        lemma_key_code_digits(a);
        lemma_key_code_digits(b);
    }
}

/// An RGB triple, applied uniformly to all glyphs of one redraw.
#[derive(Clone, Copy, PartialEq, Eq, Structural, Debug)]
pub struct Color {
    /// Red channel.
    pub r: u8,
    /// Green channel.
    pub g: u8,
    /// Blue channel.
    pub b: u8,
}

/// One glyph to draw during one redraw pass: produced per redraw by the
/// layout adapter and discarded afterwards.
#[derive(Clone, Copy)]
pub struct GlyphPlacement {
    /// Cache identity of the glyph.
    pub key: GlyphKey,
    /// Handle the rasterization collaborator needs to locate the glyph's
    /// outline; `None` stands for a glyph with no resolvable outline.
    pub source: Option<cosmic_text::CacheKey>,
    /// Destination x of the glyph origin, in framebuffer pixels.
    pub x: i32,
    /// Destination y of the glyph origin, in framebuffer pixels.
    pub y: i32,
}

} // verus!

use vstd::prelude::*;

verus! {

/// Declaration of the shaping collaborator's font database and metrics
/// state, opaque to the library.
#[verifier::external_type_specification]
#[verifier::external_body]
pub struct ExFontSystem(cosmic_text::FontSystem);

/// Declaration of the rasterization collaborator's scaler state,
/// opaque to the library.
#[verifier::external_type_specification]
#[verifier::external_body]
pub struct ExSwashCache(cosmic_text::SwashCache);

/// Declaration of the collaborator's glyph handle, carried through the
/// library unread.
#[verifier::external_type_specification]
#[verifier::external_body]
pub struct ExCacheKey(cosmic_text::CacheKey);

/// The process-wide font state: the system font database and the scaler
/// that rasterizes glyph outlines. Constructed once at startup and
/// passed by reference into every component that rasterizes.
pub struct FontContext {
    font_system: cosmic_text::FontSystem,
    scaler: cosmic_text::SwashCache,
}

impl FontContext {
    /// Bundles the collaborator's font database and scaler into the one
    /// context object the process owns for its lifetime.
    pub fn new(font_system: cosmic_text::FontSystem, scaler: cosmic_text::SwashCache) -> (r:
        FontContext)
    {
        FontContext { font_system, scaler }
    }
}

/// Relies on `cosmic_text::SwashCache::get_image`: asks the
/// rasterization collaborator for the glyph's coverage image. Hands back
/// the raw parts of an alpha-mask image (samples, width, height, left,
/// top), or `None` when the glyph has no resolvable mask outline. A
/// glyph with no handle at all is never asked for. Beyond that, nothing
/// is assumed of the outcome: what the fonts on disk hold decides it,
/// and the verified cache validates the parts before use.
#[verifier::external_body]
pub(crate) fn rasterize(ctx: &mut FontContext, source: &Option<cosmic_text::CacheKey>) -> (r:
    Option<(Vec<u8>, u32, u32, i32, i32)>)
    ensures
        source is None ==> r is None,
{
    let key = (*source)?;
    match ctx.scaler.get_image(&mut ctx.font_system, key) {
        Some(img) if matches!(img.content, cosmic_text::SwashContent::Mask) => Some((
            img.data.clone(),
            img.placement.width,
            img.placement.height,
            img.placement.left,
            img.placement.top,
        )),
        _ => None,
    }
}

} // verus!

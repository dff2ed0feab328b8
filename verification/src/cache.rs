use vstd::prelude::*;
use std::collections::HashMap;
use crate::bitmap::{BitmapView, CoverageBitmap};
use crate::glyph::{GlyphKey, key_code, encode_key};
use crate::shaping::{FontContext, rasterize};

verus! {

broadcast use vstd::std_specs::hash::group_hash_axioms;

/// The cache state left by one get-or-rasterize step for `code`: an
/// occupied entry absorbs the step, an empty one takes the bitmap.
pub open spec fn cached(m: Map<u64, BitmapView>, code: u64, b: BitmapView) -> Map<u64, BitmapView> {
    if m.dom().contains(code) {
        m
    } else {
        m.insert(code, b)
    }
}

/// Idempotent caching: once a key's entry exists, any later
/// get-or-rasterize step with that key leaves the cache as it stands,
/// whatever bitmap a second rasterization would have produced. Only the
/// first step per key can rasterize.
pub proof fn lemma_cache_idempotent(m: Map<u64, BitmapView>, code: u64, b1: BitmapView, b2: BitmapView)
    ensures
        cached(cached(m, code, b1), code, b2) == cached(m, code, b1),
{
}

/// Owns every rasterized coverage bitmap, keyed by glyph identity and
/// size. Entries are created lazily on first miss and never evicted, so
/// the entry count equals the number of rasterizer invocations so far.
/// Its view maps each packed key code to the stored bitmap's value.
pub struct GlyphRasterCache {
    map: HashMap<u64, CoverageBitmap>,
}

impl View for GlyphRasterCache {
    type V = Map<u64, BitmapView>;

    closed spec fn view(&self) -> Map<u64, BitmapView> {
        Map::new(|c: u64| self.map@.dom().contains(c), |c: u64| self.map@[c]@)
    }
}

impl GlyphRasterCache {
    /// Every stored bitmap is well formed.
    pub open spec fn wf(&self) -> bool {
        forall|c: u64| self@.dom().contains(c) ==> (#[trigger] self@[c]).wf()
    }

    /// An empty cache.
    pub fn new() -> (r: GlyphRasterCache)
        ensures
            r.wf(),
            r@ == Map::<u64, BitmapView>::empty(),
    {
        let r = GlyphRasterCache { map: HashMap::new() };
        proof {
            assert(r@ =~= Map::<u64, BitmapView>::empty());
        }
        r
    }

    /// How many distinct keys have been rasterized so far: the cache
    /// never evicts, so this counts rasterizer invocations for the
    /// process lifetime.
    pub fn len(&self) -> (n: usize)
        ensures
            n == self@.dom().len(),
    {
        proof {
            assert(self@.dom() =~= self.map@.dom());
        }
        self.map.len()
    }

    /// Whether `key` already has an entry.
    pub fn contains(&self, key: GlyphKey) -> (r: bool)
        ensures
            r == self@.dom().contains(key_code(key)),
    {
        let code = encode_key(key);
        self.map.contains_key(&code)
    }

    /// The coverage bitmap for `key`. On a hit the stored bitmap is
    /// handed back with no recomputation and no state change; on a miss
    /// the rasterization collaborator is invoked exactly once for the
    /// key, a glyph it cannot resolve or a malformed image becoming the
    /// empty bitmap, and the result is stored before it is returned.
    /// Repeated calls with one key therefore rasterize once and return
    /// bitmaps of one identical value.
    pub fn get_or_rasterize(
        &mut self,
        ctx: &mut FontContext,
        key: GlyphKey,
        source: &Option<cosmic_text::CacheKey>,
    ) -> (r: CoverageBitmap)
        requires
            old(self).wf(),
        ensures
            final(self).wf(),
            r@.wf(),
            final(self)@ == cached(old(self)@, key_code(key), r@),
            final(self)@.dom().contains(key_code(key)),
            r@ == final(self)@[key_code(key)],
            old(self)@.dom().contains(key_code(key)) ==> final(self)@ == old(self)@,
            !old(self)@.dom().contains(key_code(key)) ==> final(self)@ == old(self)@.insert(
                key_code(key),
                r@,
            ),
            !old(self)@.dom().contains(key_code(key)) && source is None ==> r@
                == crate::bitmap::empty_bitmap(),
    {
        let code = encode_key(key);
        if self.map.contains_key(&code) {
            let stored = self.map.get(&code).unwrap();
            proof {
                assert(self@.dom().contains(code));
                assert(stored@ == self@[code]);
            }
            stored.duplicate()
        } else {
            let bitmap = CoverageBitmap::from_rasterized(rasterize(ctx, source));
            let r = bitmap.duplicate();
            self.map.insert(code, bitmap);
            proof {
                assert(self@ =~= old(self)@.insert(code, r@));
            }
            r
        }
    }
}

} // verus!

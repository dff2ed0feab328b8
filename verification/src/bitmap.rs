use vstd::prelude::*;

verus! {

/// Mathematical value of a coverage bitmap: a grid of 8-bit coverage
/// samples in row-major order, plus the offset of the grid's top-left
/// corner from the glyph origin.
pub ghost struct BitmapView {
    /// Columns of the grid.
    pub width: nat,
    /// Rows of the grid.
    pub height: nat,
    /// Offset of the grid's left edge, to the right of the glyph origin.
    pub left: int,
    /// Offset of the grid's top edge, above the glyph origin.
    pub top: int,
    /// The samples, row by row.
    pub data: Seq<u8>,
}

impl BitmapView {
    /// The sample grid matches the declared dimensions.
    pub open spec fn wf(self) -> bool {
        self.data.len() == self.width * self.height
    }

    /// Coverage sample at column `sx`, row `sy` of the grid.
    pub open spec fn cov(self, sx: int, sy: int) -> u8 {
        self.data[sy * self.width + sx]
    }
}

/// The value of the zero-coverage bitmap: no samples, no offset.
pub open spec fn empty_bitmap() -> BitmapView {
    BitmapView { width: 0, height: 0, left: 0, top: 0, data: Seq::empty() }
}

/// A rasterized glyph: produced once on the first cache miss for its
/// key, immutable from then on, shared read-only by every later
/// composite of the same glyph.
pub struct CoverageBitmap {
    width: u32,
    height: u32,
    left: i32,
    top: i32,
    data: Vec<u8>,
}

impl View for CoverageBitmap {
    type V = BitmapView;

    closed spec fn view(&self) -> BitmapView {
        BitmapView {
            width: self.width as nat,
            height: self.height as nat,
            left: self.left as int,
            top: self.top as int,
            data: self.data@,
        }
    }
}

impl CoverageBitmap {
    /// Builds a bitmap from raw parts. `None` exactly when the sample
    /// count does not match the declared dimensions.
    pub fn new(width: u32, height: u32, left: i32, top: i32, data: Vec<u8>) -> (r: Option<
        CoverageBitmap,
    >)
        ensures
            match r {
                Some(b) => b@ == (BitmapView {
                    width: width as nat,
                    height: height as nat,
                    left: left as int,
                    top: top as int,
                    data: data@,
                }) && b@.wf(),
                None => data@.len() != width * height,
            },
    {
        proof {
            assert((width as int) * (height as int) < 0x1_0000_0000_0000_0000) by (nonlinear_arith)
                requires
                    width as int <= 0xffff_ffff,
                    height as int <= 0xffff_ffff,
            ;
        }
        if (data.len() as u64) == (width as u64) * (height as u64) {
            Some(CoverageBitmap { width, height, left, top, data })
        } else {
            None
        }
    }

    /// The zero-coverage bitmap that a missing glyph resolves to: its
    /// composite touches nothing.
    pub fn empty() -> (r: CoverageBitmap)
        ensures
            r@ == empty_bitmap(),
            r@.wf(),
    {
        CoverageBitmap { width: 0, height: 0, left: 0, top: 0, data: Vec::new() }
    }

    /// Resolves one rasterizer outcome into the bitmap the cache
    /// stores: a well-formed image (sample count matching the declared
    /// dimensions) becomes its bitmap; an unresolvable glyph (`None`)
    /// or a malformed image becomes the empty bitmap, so a missing
    /// glyph never aborts rendering.
    pub fn from_rasterized(outcome: Option<(Vec<u8>, u32, u32, i32, i32)>) -> (r: CoverageBitmap)
        ensures
            r@.wf(),
            match outcome {
                Some((data, width, height, left, top)) => r@ == (if data@.len() == width * height {
                    (BitmapView {
                        width: width as nat,
                        height: height as nat,
                        left: left as int,
                        top: top as int,
                        data: data@,
                    })
                } else {
                    empty_bitmap()
                }),
                None => r@ == empty_bitmap(),
            },
    {
        match outcome {
            Some((data, width, height, left, top)) => {
                match CoverageBitmap::new(width, height, left, top, data) {
                    Some(b) => b,
                    None => CoverageBitmap::empty(),
                }
            },
            None => CoverageBitmap::empty(),
        }
    }

    /// Columns of the sample grid.
    pub fn width(&self) -> (r: u32)
        ensures
            r == self@.width,
    {
        self.width
    }

    /// Rows of the sample grid.
    pub fn height(&self) -> (r: u32)
        ensures
            r == self@.height,
    {
        self.height
    }

    /// Offset of the grid's left edge from the glyph origin.
    pub fn left(&self) -> (r: i32)
        ensures
            r == self@.left,
    {
        self.left
    }

    /// Offset of the grid's top edge above the glyph origin.
    pub fn top(&self) -> (r: i32)
        ensures
            r == self@.top,
    {
        self.top
    }

    /// Coverage sample at column `sx`, row `sy`.
    pub fn sample(&self, sx: u32, sy: u32) -> (r: u8)
        requires
            self@.wf(),
            sx < self@.width,
            sy < self@.height,
        ensures
            r == self@.cov(sx as int, sy as int),
    {
        proof {
            lemma_row_major_index_in_range(
                self@.width as int,
                self@.height as int,
                sx as int,
                sy as int,
            );
            assert(self.data@.len() == self.data.len());
        }
        self.data[(sy as usize) * (self.width as usize) + (sx as usize)]
    }

    /// An owned copy with the same mathematical value.
    pub fn duplicate(&self) -> (r: CoverageBitmap)
        ensures
            r@ == self@,
    {
        let mut data: Vec<u8> = Vec::new();
        let mut i: usize = 0;
        while i < self.data.len()
            invariant
                i <= self.data.len(),
                data@ == self.data@.take(i as int),
            decreases self.data.len() - i,
    {
            data.push(self.data[i]);
            i = i + 1;
            proof {
                assert(data@ =~= self.data@.take(i as int));
            }
        }
        proof {
            assert(data@ =~= self.data@);
        }
        CoverageBitmap {
            width: self.width,
            height: self.height,
            left: self.left,
            top: self.top,
            data,
        }
    }
}

/// A row-major index stays inside the grid: with `sx < w` and `sy < h`,
/// `sy * w + sx` lies below `w * h`.
pub proof fn lemma_row_major_index_in_range(w: int, h: int, sx: int, sy: int)
    requires
        0 <= sx < w,
        0 <= sy < h,
    ensures
        0 <= sy * w + sx < w * h,
        sy * w <= (h - 1) * w,
{
    assert(0 <= sy * w + sx < w * h && sy * w <= (h - 1) * w) by (nonlinear_arith)
        requires
            0 <= sx < w,
            0 <= sy < h,
    ;
}

} // verus!

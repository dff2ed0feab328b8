use vstd::prelude::*;
use vstd::pervasive::VecAdditionalExecFns;
use crate::bitmap::lemma_row_major_index_in_range;

verus! {

/// The fixed-size packed-RGB pixel target: created once at startup,
/// never resized, mutated in place only by the compositor during a
/// redraw pass. Its view is the pixel sequence in row-major order.
pub struct Framebuffer {
    width: usize,
    height: usize,
    pixels: Vec<u32>,
}

impl View for Framebuffer {
    type V = Seq<u32>;

    closed spec fn view(&self) -> Seq<u32> {
        self.pixels@
    }
}

impl Framebuffer {
    /// Columns of the buffer.
    pub closed spec fn width(&self) -> nat {
        self.width as nat
    }

    /// Rows of the buffer.
    pub closed spec fn height(&self) -> nat {
        self.height as nat
    }

    /// The pixel count matches the fixed dimensions, for the lifetime
    /// of the buffer.
    pub open spec fn wf(&self) -> bool {
        self@.len() == self.width() * self.height()
    }

    /// A `width x height` buffer with every pixel set to `background`.
    /// `None` exactly when `width * height` overflows `usize`.
    pub fn new(width: usize, height: usize, background: u32) -> (r: Option<Framebuffer>)
        ensures
            match r {
                Some(fb) => fb.wf() && fb.width() == width && fb.height() == height && forall|
                    i: int,
                |
                    0 <= i < fb@.len() ==> fb@[i] == background,
                None => width * height > usize::MAX,
            },
    {
        match width.checked_mul(height) {
            Some(count) => {
                let mut pixels: Vec<u32> = Vec::new();
                let mut i: usize = 0;
                while i < count
                    invariant
                        i <= count,
                        pixels@.len() == i,
                        forall|j: int| 0 <= j < i ==> pixels@[j] == background,
                    decreases count - i,
                {
                    pixels.push(background);
                    i = i + 1;
                }
                Some(Framebuffer { width, height, pixels })
            },
            None => None,
        }
    }

    /// The fixed dimensions, columns then rows.
    pub fn dimensions(&self) -> (r: (usize, usize))
        ensures
            r.0 == self.width(),
            r.1 == self.height(),
    {
        (self.width, self.height)
    }

    /// The packed pixel at column `x`, row `y`.
    pub fn pixel(&self, x: usize, y: usize) -> (r: u32)
        requires
            self.wf(),
            x < self.width(),
            y < self.height(),
        ensures
            r == self@[y * self.width() + x],
    {
        proof {
            lemma_row_major_index_in_range(
                self.width() as int,
                self.height() as int,
                x as int,
                y as int,
            );
            assert(self.pixels@.len() == self.pixels.len());
        }
        self.pixels[y * self.width + x]
    }

    /// Overwrites the pixel at column `x`, row `y`, touching nothing
    /// else.
    pub(crate) fn set_pixel(&mut self, x: usize, y: usize, value: u32)
        requires
            old(self).wf(),
            x < old(self).width(),
            y < old(self).height(),
        ensures
            final(self).wf(),
            final(self).width() == old(self).width(),
            final(self).height() == old(self).height(),
            final(self)@ == old(self)@.update((y * old(self).width() + x) as int, value),
    {
        proof {
            lemma_row_major_index_in_range(
                self.width() as int,
                self.height() as int,
                x as int,
                y as int,
            );
            assert(self.pixels@.len() == self.pixels.len());
        }
        self.pixels.set(y * self.width + x, value);
    }

    /// Sets every pixel to `value`: the prepare step of a redraw pass.
    pub fn fill(&mut self, value: u32)
        requires
            old(self).wf(),
        ensures
            final(self).wf(),
            final(self).width() == old(self).width(),
            final(self).height() == old(self).height(),
            final(self)@.len() == old(self)@.len(),
            forall|i: int| 0 <= i < final(self)@.len() ==> final(self)@[i] == value,
    {
        let count = self.pixels.len();
        let mut i: usize = 0;
        while i < count
            invariant
                i <= count,
                self.width == old(self).width,
                self.height == old(self).height,
                self.pixels@.len() == count,
                old(self)@.len() == count,
                forall|j: int| 0 <= j < i ==> self.pixels@[j] == value,
            decreases count - i,
        {
            self.pixels.set(i, value);
            i = i + 1;
        }
    }

    /// Read-only access to the packed pixels, for handing the buffer to
    /// a display sink.
    pub fn as_pixels(&self) -> (r: &Vec<u32>)
        ensures
            r@ == self@,
    {
        &self.pixels
    }
}

} // verus!

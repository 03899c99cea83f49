use glam::DVec3;
use vstd::prelude::*;

verus! {

/// glam's double-precision 3-vector; a pixel's linear RGB color. The grid only
/// stores and hands out such values.
#[verifier::external_type_specification]
#[verifier::external_body]
pub struct ExDVec3(DVec3);

/// Relies on `glam::DVec3::ZERO`: the vector (0, 0, 0), black as a color.
#[verifier::external_body]
fn black() -> (r: DVec3) {
    DVec3::ZERO
}

/// A `width` x `height` grid of colors, stored row by row from the top.
pub struct Image {
    width: usize,
    height: usize,
    data: Vec<DVec3>,
}

impl Image {
    /// The grid holds exactly `width * height` pixels.
    pub closed spec fn wf(&self) -> bool {
        &&& self.width * self.height <= usize::MAX
        &&& self.data@.len() == self.width * self.height
    }

    pub closed spec fn spec_width(&self) -> nat {
        self.width as nat
    }

    pub closed spec fn spec_height(&self) -> nat {
        self.height as nat
    }

    /// The pixels, row by row from the top.
    pub closed spec fn pixels(&self) -> Seq<DVec3> {
        self.data@
    }

    /// A black image of the given size.
    pub fn new(width: usize, height: usize) -> (r: Image)
        requires
            width * height <= usize::MAX,
        ensures
            r.wf(),
            r.spec_width() == width,
            r.spec_height() == height,
            r.pixels().len() == width * height,
            forall|i: int| 0 <= i < r.pixels().len() ==> #[trigger] r.pixels()[i] == r.pixels()[0],
    {
        let n: usize = width * height;
        let fill = black();
        let mut data: Vec<DVec3> = Vec::with_capacity(n);
        let mut i: usize = 0;
        while i < n
            invariant
                i <= n,
                data@.len() == i,
                forall|j: int| 0 <= j < i ==> #[trigger] data@[j] == fill,
            decreases n - i,
        {
            data.push(fill);
            i = i + 1;
        }
        Image { width, height, data }
    }

    /// An image whose pixel at column `x` of row `y` is `f(x, y)`; the pixels
    /// are computed row by row from the top, left to right.
    pub fn from_fn<F>(width: usize, height: usize, f: F) -> (r: Image)
        where
            F: Fn(usize, usize) -> DVec3,
        requires
            width * height <= usize::MAX,
            forall|x: usize, y: usize| x < width && y < height ==> #[trigger] f.requires((x, y)),
        ensures
            r.wf(),
            r.spec_width() == width,
            r.spec_height() == height,
            forall|x: usize, y: usize|
                x < width && y < height ==> #[trigger] f.ensures(
                    (x, y),
                    r.pixels()[y * width + x],
                ),
    {
        let mut data: Vec<DVec3> = Vec::with_capacity(width * height);
        let mut y: usize = 0;
        while y < height
            invariant
                y <= height,
                width * height <= usize::MAX,
                forall|x: usize, y: usize| x < width && y < height ==> #[trigger] f.requires((x, y)),
                data@.len() == y * width,
                forall|px: usize, py: usize|
                    px < width && py < y ==> #[trigger] f.ensures((px, py), data@[py * width + px]),
            decreases height - y,
        {
            let ghost row_start = data@;
            proof {
                lemma_row_fits(y as int, width as int, height as int);
            }
            let mut x: usize = 0;
            while x < width
                invariant
                    x <= width,
                    y < height,
                    width * height <= usize::MAX,
                    (y + 1) * width <= width * height,
                    forall|x: usize, y: usize| x < width && y < height ==> #[trigger] f.requires((x, y)),
                    data@.len() == y * width + x,
                    data@.subrange(0, y * width as int) == row_start,
                    forall|px: usize, py: usize|
                        px < width && py < y ==> #[trigger] f.ensures((px, py), row_start[py * width + px]),
                    forall|px: usize|
                        px < x ==> #[trigger] f.ensures((px, y), data@[y * width + px]),
                decreases width - x,
            {
                let c = f(x, y);
                let ghost before = data@;
                data.push(c);
                assert(data@.subrange(0, y * width as int) =~= before.subrange(0, y * width as int));
                x = x + 1;
            }
            proof {
                assert forall|px: usize, py: usize|
                    px < width && py < y + 1 implies #[trigger] f.ensures(
                    (px, py),
                    data@[py * width + px],
                ) by {
                    if py < y {
                        lemma_index_in_grid(px as int, py as int, width as int, y as int);
                        assert(data@[py * width + px] == data@.subrange(0, y * width as int)[py * width + px]);
                    }
                }
                assert((y + 1) * width == y * width + width) by (nonlinear_arith);
            }
            y = y + 1;
        }
        proof {
            assert(height * width == width * height) by (nonlinear_arith);
        }
        Image { width, height, data }
    }

    pub fn width(&self) -> (r: usize)
        ensures
            r == self.spec_width(),
    {
        self.width
    }

    pub fn height(&self) -> (r: usize)
        ensures
            r == self.spec_height(),
    {
        self.height
    }

    /// Stores `color` at column `x` of row `y`.
    pub fn set_pixel(&mut self, x: usize, y: usize, color: DVec3)
        requires
            old(self).wf(),
            x < old(self).spec_width(),
            y < old(self).spec_height(),
        ensures
            final(self).wf(),
            final(self).spec_width() == old(self).spec_width(),
            final(self).spec_height() == old(self).spec_height(),
            final(self).pixels() == old(self).pixels().update(
                y * old(self).spec_width() + x,
                color,
            ),
    {
        proof {
            lemma_index_in_grid(x as int, y as int, self.width as int, self.height as int);
        }
        let i = y * self.width + x;
        self.data.set(i, color);
    }

    /// The color at column `x` of row `y`.
    pub fn get_pixel(&self, x: usize, y: usize) -> (r: DVec3)
        requires
            self.wf(),
            x < self.spec_width(),
            y < self.spec_height(),
        ensures
            r == self.pixels()[y * self.spec_width() + x],
    {
        proof {
            lemma_index_in_grid(x as int, y as int, self.width as int, self.height as int);
        }
        self.data[y * self.width + x]
    }
}

proof fn lemma_row_fits(y: int, w: int, h: int)
    requires
        0 <= y < h,
        0 <= w,
    ensures
        (y + 1) * w <= w * h,
        y * w + w == (y + 1) * w,
{
    assert((y + 1) * w <= w * h) by (nonlinear_arith)
        requires
            0 <= y < h,
            0 <= w,
    ;
    assert(y * w + w == (y + 1) * w) by (nonlinear_arith);
}

proof fn lemma_index_in_grid(x: int, y: int, w: int, h: int)
    requires
        0 <= x < w,
        0 <= y < h,
    ensures
        0 <= y * w + x < w * h,
{
    assert(0 <= y * w) by (nonlinear_arith)
        requires
            0 <= y,
            0 <= w,
    ;
    assert(y * w + x < w * h) by (nonlinear_arith)
        requires
            0 <= x < w,
            0 <= y < h,
    ;
}

} // verus!

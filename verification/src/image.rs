//! A dense, row-major grid of 24-bit colours.

use vstd::prelude::*;
use vstd::arithmetic::div_mod::lemma_fundamental_div_mod_converse;
use vstd::arithmetic::mul::lemma_mul_inequality;
use crate::color::Color;

verus! {

/// A `width` by `height` grid of colours, stored row by row from the top.
pub struct Image {
    pub width: i32,
    pub height: i32,
    pub data: Vec<Color>,
}

/// The position of pixel `(x, y)` in the row-major data of a grid `width` wide.
pub open spec fn offset(width: int, x: int, y: int) -> int {
    x + y * width
}

/// Inside a grid, distinct coordinates have distinct offsets, all below
/// `width * height`.
pub proof fn lemma_offset_bounds(width: int, height: int, x: int, y: int)
    requires
        0 <= x < width,
        0 <= y < height,
    ensures
        0 <= offset(width, x, y) < width * height,
        offset(width, x, y) / width == y,
        offset(width, x, y) % width == x,
{
    lemma_fundamental_div_mod_converse(offset(width, x, y), width, y, x);
    assert(y * width + width == (y + 1) * width) by (nonlinear_arith);
    lemma_mul_inequality(y + 1, height, width);
    assert(height * width == width * height) by (nonlinear_arith);
    assert(0 <= y * width) by (nonlinear_arith)
        requires
            0 <= y,
            0 < width,
    ;
}

impl Image {
    /// The grid is well formed: no negative side, one colour per pixel.
    pub open spec fn wf(&self) -> bool {
        &&& 0 <= self.width
        &&& 0 <= self.height
        &&& self.data@.len() == self.width * self.height
    }

    /// `(x, y)` names a pixel of the grid.
    pub open spec fn in_bounds(&self, x: int, y: int) -> bool {
        0 <= x < self.width && 0 <= y < self.height
    }

    /// The colour read at `(x, y)`: the stored pixel inside the grid, black
    /// everywhere else.
    pub open spec fn pixel(&self, x: int, y: int) -> Color {
        if self.in_bounds(x, y) && offset(self.width as int, x, y) < self.data@.len() {
            self.data@[offset(self.width as int, x, y)]
        } else {
            Color(0, 0, 0)
        }
    }

    /// Byte `i` of the flat export: the pixels in the order they are stored,
    /// each as its red, green and blue channel followed by an opaque alpha
    /// of 255.
    pub open spec fn raw_byte(&self, i: int) -> u8 {
        let c = self.data@[i / 4];
        if i % 4 == 0 {
            c.0
        } else if i % 4 == 1 {
            c.1
        } else if i % 4 == 2 {
            c.2
        } else {
            255u8
        }
    }

    /// The flat four-bytes-per-pixel export of the whole grid.
    pub open spec fn raw_bytes(&self) -> Seq<u8> {
        Seq::new((4 * self.data@.len()) as nat, |i: int| self.raw_byte(i))
    }

    /// A black image of the given size.
    pub fn new(width: i32, height: i32) -> (img: Image)
        requires
            0 <= width,
            0 <= height,
            width * height <= usize::MAX,
        ensures
            img.wf(),
            img.width == width,
            img.height == height,
            forall|i: int| 0 <= i < img.data@.len() ==> img.data@[i] == Color(0, 0, 0),
    {
        let n: usize = (width as usize) * (height as usize);
        let v = vec![Color(0, 0, 0); n];
        Image { width, height, data: v }
    }

    /// Tells whether the grid is well formed.
    pub fn is_well_formed(&self) -> (ok: bool)
        ensures
            ok == self.wf(),
    {
        if self.width < 0 || self.height < 0 {
            return false;
        }
        assert(0 <= self.width * self.height < 0x4000_0000_0000_0000) by (nonlinear_arith)
            requires
                0 <= self.width < 0x8000_0000,
                0 <= self.height < 0x8000_0000,
        ;
        let n: usize = self.data.len();
        n as u64 == (self.width as u64) * (self.height as u64)
    }

    /// Reads the pixel at `(x, y)`; a read outside the grid yields black.
    pub fn pixel_at(&self, x: i32, y: i32) -> (c: Color)
        ensures
            c == self.pixel(x as int, y as int),
    {
        if x < 0 || y < 0 || x >= self.width || y >= self.height {
            return Color(0, 0, 0);
        }
        assert(0 <= y * self.width < 0x4000_0000_0000_0000) by (nonlinear_arith)
            requires
                0 <= y < 0x8000_0000,
                0 <= self.width < 0x8000_0000,
        ;
        let idx: u64 = (x as u64) + (y as u64) * (self.width as u64);
        let n: usize = self.data.len();
        if idx < n as u64 {
            let at: usize = idx as usize;
            self.data[at]
        } else {
            Color(0, 0, 0)
        }
    }

    /// Writes `c` at `(x, y)`, which must name a pixel of the grid.
    pub fn set_pixel(&mut self, x: i32, y: i32, c: Color)
        requires
            old(self).wf(),
            old(self).in_bounds(x as int, y as int),
        ensures
            final(self).wf(),
            final(self).width == old(self).width,
            final(self).height == old(self).height,
            final(self).data@ == old(self).data@.update(
                offset(old(self).width as int, x as int, y as int),
                c,
            ),
            final(self).pixel(x as int, y as int) == c,
            forall|x2: int, y2: int|
                (x2 != x || y2 != y) ==> #[trigger] final(self).pixel(x2, y2) == old(self).pixel(
                    x2,
                    y2,
                ),
    {
        proof {
            lemma_offset_bounds(self.width as int, self.height as int, x as int, y as int);
        }
        assert(0 <= y * self.width) by (nonlinear_arith)
            requires
                0 <= y,
                0 <= self.width,
        ;
        let n: usize = self.data.len();
        let at: usize = (x as usize) + (y as usize) * (self.width as usize);
        self.data[at] = c;
        proof {
            let w = self.width as int;
            let h = self.height as int;
            lemma_offset_bounds(w, h, x as int, y as int);
            assert forall|x2: int, y2: int| (x2 != x || y2 != y) implies #[trigger] self.pixel(
                x2,
                y2,
            ) == old(self).pixel(x2, y2) by {
                if self.in_bounds(x2, y2) {
                    lemma_offset_bounds(w, h, x2, y2);
                }
            }
        }
    }

    /// Exports the grid as a flat byte buffer of four bytes per pixel: red,
    /// green, blue and an alpha of 255, row by row from the top.
    pub fn get_raw_bytes(&self) -> (res: Vec<u8>)
        requires
            4 * self.data@.len() <= usize::MAX,
        ensures
            res@ == self.raw_bytes(),
    {
        let n: usize = self.data.len();
        let mut res: Vec<u8> = Vec::new();
        let mut p: usize = 0;
        while p < n
            invariant
                n == self.data@.len(),
                4 * n <= usize::MAX,
                0 <= p <= n,
                res@.len() == 4 * p,
                forall|i: int| 0 <= i < res@.len() ==> res@[i] == self.raw_byte(i),
            decreases n - p,
        {
            let c = self.data[p];
            let ghost before = res@;
            res.push(c.0);
            res.push(c.1);
            res.push(c.2);
            res.push(255u8);
            proof {
                assert forall|i: int| 0 <= i < res@.len() implies res@[i] == self.raw_byte(i) by {
                    if i < 4 * p {
                        assert(res@[i] == before[i]);
                    } else {
                        assert(i / 4 == p);
                    }
                }
            }
            p += 1;
        }
        proof {
            assert(res@ =~= self.raw_bytes());
        }
        res
    }
}

} // verus!

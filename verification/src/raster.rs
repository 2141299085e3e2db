//! The pixels that a triangle may cover: an integer box, walked row by row.

use vstd::prelude::*;
use vstd::arithmetic::div_mod::lemma_fundamental_div_mod_converse;
use vstd::arithmetic::mul::lemma_mul_inequality;

verus! {

/// The box of the pixels `(x, y)` with `x0 <= x <= x1` and `y0 <= y <= y1`.
/// It is not cut to any image: it may reach outside one.
#[derive(Clone, Copy, Debug, PartialEq, Eq, Structural)]
pub struct BoundingBox {
    pub x0: i32,
    pub y0: i32,
    pub x1: i32,
    pub y1: i32,
}

impl BoundingBox {
    /// The box holds the pixel `(x, y)`.
    pub open spec fn contains(&self, x: int, y: int) -> bool {
        self.x0 <= x <= self.x1 && self.y0 <= y <= self.y1
    }

    /// The box holds no pixel.
    pub open spec fn is_empty(&self) -> bool {
        self.x0 > self.x1 || self.y0 > self.y1
    }

    /// The number of pixels in a row of the box.
    pub open spec fn columns(&self) -> int {
        self.x1 - self.x0 + 1
    }

    /// The number of pixels in the box.
    pub open spec fn area(&self) -> int {
        if self.is_empty() {
            0
        } else {
            self.columns() * (self.y1 - self.y0 + 1)
        }
    }

    /// The place of `(x, y)` in the walk through the box: rows from `y0` to
    /// `y1`, each from `x0` to `x1`.
    pub open spec fn rank(&self, x: int, y: int) -> int {
        (y - self.y0) * self.columns() + (x - self.x0)
    }

    /// The pixel that follows `(x, y)` in the walk, if one does.
    pub open spec fn successor(&self, x: int, y: int) -> Option<(int, int)> {
        if x < self.x1 {
            Some((x + 1, y))
        } else if y < self.y1 {
            Some((self.x0 as int, y + 1))
        } else {
            None
        }
    }

    /// The box of the given corners.
    pub fn new(x0: i32, y0: i32, x1: i32, y1: i32) -> (b: Self)
        ensures
            b == (BoundingBox { x0, y0, x1, y1 }),
    {
        BoundingBox { x0, y0, x1, y1 }
    }

    /// The pixel the walk starts with; none if the box is empty.
    pub fn first(&self) -> (p: Option<(i32, i32)>)
        ensures
            p == if self.is_empty() {
                None
            } else {
                Some((self.x0, self.y0))
            },
    {
        if self.x0 > self.x1 || self.y0 > self.y1 {
            None
        } else {
            Some((self.x0, self.y0))
        }
    }

    /// The pixel the walk goes to after `(x, y)`; none after the last one.
    pub fn next(&self, x: i32, y: i32) -> (p: Option<(i32, i32)>)
        requires
            self.contains(x as int, y as int),
        ensures
            match p {
                Some(q) => self.successor(x as int, y as int) == Some((q.0 as int, q.1 as int)),
                None => self.successor(x as int, y as int) is None,
            },
    {
        if x < self.x1 {
            Some((x + 1, y))
        } else if y < self.y1 {
            Some((self.x0, y + 1))
        } else {
            None
        }
    }
}

/// The walk numbers the pixels of the box from zero to the area less one.
pub proof fn lemma_rank_bounds(b: BoundingBox, x: int, y: int)
    requires
        b.contains(x, y),
    ensures
        0 <= b.rank(x, y) < b.area(),
        b.rank(x, y) / b.columns() == y - b.y0,
        b.rank(x, y) % b.columns() == x - b.x0,
{
    let c = b.columns();
    lemma_fundamental_div_mod_converse(b.rank(x, y), c, y - b.y0, x - b.x0);
    assert((y - b.y0) * c + c == (y - b.y0 + 1) * c) by (nonlinear_arith);
    lemma_mul_inequality(y - b.y0 + 1, b.y1 - b.y0 + 1, c);
    assert((b.y1 - b.y0 + 1) * c == c * (b.y1 - b.y0 + 1)) by (nonlinear_arith);
    assert(0 <= (y - b.y0) * c) by (nonlinear_arith)
        requires
            0 <= y - b.y0,
            0 < c,
    ;
}

/// No two pixels of the box have the same number.
pub proof fn lemma_rank_injective(b: BoundingBox, x: int, y: int, x2: int, y2: int)
    requires
        b.contains(x, y),
        b.contains(x2, y2),
        b.rank(x, y) == b.rank(x2, y2),
    ensures
        x == x2,
        y == y2,
{
    lemma_rank_bounds(b, x, y);
    lemma_rank_bounds(b, x2, y2);
}

/// The walk starts at number zero, goes from each pixel to the one with the
/// next number, and ends at the last number: it visits every pixel of the
/// box once and no other pixel.
pub proof fn lemma_walk_in_order(b: BoundingBox, x: int, y: int)
    requires
        b.contains(x, y),
    ensures
        b.rank(b.x0 as int, b.y0 as int) == 0,
        match b.successor(x, y) {
            Some(q) => b.contains(q.0, q.1) && b.rank(q.0, q.1) == b.rank(x, y) + 1,
            None => b.rank(x, y) == b.area() - 1,
        },
{
    let c = b.columns();
    assert(0 * c == 0);
    if x < b.x1 {
    } else if y < b.y1 {
        assert((y + 1 - b.y0) * c == (y - b.y0) * c + c) by (nonlinear_arith);
    } else {
        assert((b.y1 - b.y0) * c + c == c * (b.y1 - b.y0 + 1)) by (nonlinear_arith);
    }
}

} // verus!

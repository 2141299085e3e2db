//! The ambient-occlusion pass over the filled depth buffer.
//!
//! From every pixel eight rays leave in screen space, one towards each
//! neighbour. A ray is sampled `STEPS` times, `STRIDE` pixels apart; it
//! reaches the sky when none of its samples is nearer than the pixel itself.
//! Samples outside the buffers lie at the farthest depth and hide nothing.
//! The share of rays that reach the sky is the pixel's light, from 0 (none)
//! to 255 (all eight). The pass has two steps: the light of each pixel goes
//! to the light buffer, then the colour buffer is dimmed by the light buffer.

use vstd::prelude::*;
use crate::color::Color;
use crate::image::lemma_offset_bounds;
use crate::image::offset;
use crate::shader::Buffers;
use crate::shader::Framebuffers;

verus! {

/// The number of rays that leave a pixel.
pub const DIRECTIONS: u8 = 8;

/// The distance in pixels between two samples of a ray.
pub const STRIDE: i64 = 5;

/// The number of samples on a ray.
pub const STEPS: i64 = 4;

/// The step in x of ray `d`: the rays are numbered from the one to the right
/// round to the one to the right and down.
pub open spec fn step_x(d: int) -> int {
    if d == 0 || d == 1 || d == 7 {
        1
    } else if d == 3 || d == 4 || d == 5 {
        -1
    } else {
        0
    }
}

/// The step in y of ray `d`.
pub open spec fn step_y(d: int) -> int {
    if 1 <= d <= 3 {
        1
    } else if 5 <= d <= 7 {
        -1
    } else {
        0
    }
}

/// A colour dimmed to `level` parts of 255, each channel rounded down.
pub open spec fn attenuated(c: Color, level: u8) -> Color {
    Color((c.0 * level / 255) as u8, (c.1 * level / 255) as u8, (c.2 * level / 255) as u8)
}

impl Buffers {
    /// The depth at sample `k` of ray `d` from `(x, y)`.
    pub open spec fn sample_depth(self, x: int, y: int, d: int, k: int) -> int {
        self.depth_at(x + k * STRIDE * step_x(d), y + k * STRIDE * step_y(d))
    }

    /// Ray `d` from `(x, y)` reaches the sky: none of its samples is nearer
    /// than the pixel.
    pub open spec fn reaches_sky(self, x: int, y: int, d: int) -> bool {
        forall|k: int| 1 <= k <= STEPS ==> #[trigger] self.sample_depth(x, y, d, k) <= self.depth_at(x, y)
    }

    /// How many of the first `n` rays from `(x, y)` reach the sky.
    pub open spec fn open_rays(self, x: int, y: int, n: nat) -> nat
        decreases n,
    {
        if n == 0 {
            0
        } else {
            self.open_rays(x, y, (n - 1) as nat) + if self.reaches_sky(x, y, n - 1) {
                1nat
            } else {
                0nat
            }
        }
    }

    /// The light of the pixel `(x, y)`: 255 times the share of its rays that
    /// reach the sky, rounded down.
    pub open spec fn light_level(self, x: int, y: int) -> int {
        (255 * self.open_rays(x, y, DIRECTIONS as nat)) as int / (DIRECTIONS as int)
    }

    /// The buffers with the light of the pixel `(x, y)` written to the light
    /// buffer, as a gray.
    pub open spec fn lit(self, x: int, y: int) -> Buffers {
        let l = self.light_level(x, y) as u8;
        Buffers { light: self.light.update(offset(self.width, x, y), Color(l, l, l)), ..self }
    }

    /// The buffers with every pixel of the colour buffer dimmed by the first
    /// channel of the light buffer at that pixel.
    pub open spec fn composited(self) -> Buffers {
        Buffers {
            color: Seq::new(self.color.len(), |i: int| attenuated(self.color[i], self.light[i].0)),
            ..self
        }
    }
}

/// Of `n` rays no more than `n` reach the sky.
pub proof fn lemma_open_rays_bound(b: Buffers, x: int, y: int, n: nat)
    ensures
        b.open_rays(x, y, n) <= n,
    decreases n,
{
    if n > 0 {
        lemma_open_rays_bound(b, x, y, (n - 1) as nat);
    }
}

/// A pixel all of whose rays reach the sky has the full light, and one none
/// of whose rays does has none.
pub proof fn lemma_light_extremes(b: Buffers, x: int, y: int)
    ensures
        0 <= b.light_level(x, y) <= 255,
        (forall|d: int| 0 <= d < DIRECTIONS ==> b.reaches_sky(x, y, d)) ==> b.light_level(x, y)
            == 255,
        (forall|d: int| 0 <= d < DIRECTIONS ==> !b.reaches_sky(x, y, d)) ==> b.light_level(x, y)
            == 0,
{
    lemma_open_rays_bound(b, x, y, 8);
    if forall|d: int| 0 <= d < DIRECTIONS ==> b.reaches_sky(x, y, d) {
        lemma_open_rays_all(b, x, y, 8);
    }
    if forall|d: int| 0 <= d < DIRECTIONS ==> !b.reaches_sky(x, y, d) {
        lemma_open_rays_none(b, x, y, 8);
    }
}

proof fn lemma_open_rays_all(b: Buffers, x: int, y: int, n: nat)
    requires
        forall|d: int| 0 <= d < n ==> b.reaches_sky(x, y, d),
    ensures
        b.open_rays(x, y, n) == n,
    decreases n,
{
    if n > 0 {
        lemma_open_rays_all(b, x, y, (n - 1) as nat);
    }
}

proof fn lemma_open_rays_none(b: Buffers, x: int, y: int, n: nat)
    requires
        forall|d: int| 0 <= d < n ==> !b.reaches_sky(x, y, d),
    ensures
        b.open_rays(x, y, n) == 0,
    decreases n,
{
    if n > 0 {
        lemma_open_rays_none(b, x, y, (n - 1) as nat);
    }
}

/// Full light leaves a colour as it is, no light makes it black, and no
/// light makes a channel brighter.
pub proof fn lemma_attenuated(c: Color, level: u8)
    ensures
        attenuated(c, 255) == c,
        attenuated(c, 0) == Color(0, 0, 0),
        attenuated(c, level).0 <= c.0,
        attenuated(c, level).1 <= c.1,
        attenuated(c, level).2 <= c.2,
{
    lemma_channel(c.0, level);
    lemma_channel(c.1, level);
    lemma_channel(c.2, level);
}

proof fn lemma_channel(c: u8, level: u8)
    ensures
        0 <= c * level / 255 <= c,
        c * 255 / 255 == c,
        c * 0 / 255 == 0,
{
    assert(0 <= c * level <= c * 255) by (nonlinear_arith)
        requires
            0 <= c,
            0 <= level <= 255,
    ;
}

/// The step of ray `d`.
fn direction(d: u8) -> (s: (i64, i64))
    requires
        d < DIRECTIONS,
    ensures
        s.0 == step_x(d as int),
        s.1 == step_y(d as int),
{
    let sx: i64 = if d == 0 || d == 1 || d == 7 {
        1
    } else if d == 3 || d == 4 || d == 5 {
        -1
    } else {
        0
    };
    let sy: i64 = if 1 <= d && d <= 3 {
        1
    } else if 5 <= d && d <= 7 {
        -1
    } else {
        0
    };
    (sx, sy)
}

/// A colour dimmed to `level` parts of 255.
pub fn attenuate(c: Color, level: u8) -> (r: Color)
    ensures
        r == attenuated(c, level),
{
    proof {
        lemma_channel(c.0, level);
        lemma_channel(c.1, level);
        lemma_channel(c.2, level);
    }
    Color(
        (c.0 as u32 * level as u32 / 255) as u8,
        (c.1 as u32 * level as u32 / 255) as u8,
        (c.2 as u32 * level as u32 / 255) as u8,
    )
}

impl Framebuffers {
    /// The depth held at `(x, y)`; 0 outside the buffers.
    fn depth_at(&self, x: i64, y: i64) -> (z: u8)
        requires
            self.wf(),
        ensures
            z == self@.depth_at(x as int, y as int),
    {
        if 0 <= x && x < self.depth.width as i64 && 0 <= y && y < self.depth.height as i64 {
            proof {
                lemma_offset_bounds(self@.width, self@.height, x as int, y as int);
            }
            self.depth.pixel_at(x as i32, y as i32).0
        } else {
            0
        }
    }

    /// Tells whether ray `d` from the pixel `(x, y)` reaches the sky.
    fn ray_reaches_sky(&self, x: i32, y: i32, d: u8) -> (open: bool)
        requires
            self.wf(),
            d < DIRECTIONS,
        ensures
            open == self@.reaches_sky(x as int, y as int, d as int),
    {
        let here = self.depth_at(x as i64, y as i64);
        let (sx, sy) = direction(d);
        let mut k: i64 = 1;
        while k <= STEPS
            invariant
                self.wf(),
                1 <= k <= STEPS + 1,
                sx == step_x(d as int),
                sy == step_y(d as int),
                here == self@.depth_at(x as int, y as int),
                forall|j: int|
                    1 <= j < k ==> #[trigger] self@.sample_depth(x as int, y as int, d as int, j)
                        <= here,
            decreases STEPS + 1 - k,
        {
            assert(k * STRIDE * sx == k * STRIDE * step_x(d as int));
            assert(-20 <= k * 5 * sx <= 20 && -20 <= k * 5 * sy <= 20) by (nonlinear_arith)
                requires
                    1 <= k <= 4,
                    -1 <= sx <= 1,
                    -1 <= sy <= 1,
            ;
            let there = self.depth_at(x as i64 + k * STRIDE * sx, y as i64 + k * STRIDE * sy);
            if there > here {
                assert(self@.sample_depth(x as int, y as int, d as int, k as int) > here);
                return false;
            }
            k += 1;
        }
        true
    }

    /// The light of the pixel `(x, y)`: 255 times the share of its eight rays
    /// that reach the sky.
    pub fn light_at(&self, x: i32, y: i32) -> (level: u8)
        requires
            self.wf(),
        ensures
            level == self@.light_level(x as int, y as int),
    {
        let mut open: u32 = 0;
        let mut d: u8 = 0;
        while d < DIRECTIONS
            invariant
                self.wf(),
                0 <= d <= DIRECTIONS,
                open == self@.open_rays(x as int, y as int, d as nat),
                open <= d,
            decreases DIRECTIONS - d,
        {
            if self.ray_reaches_sky(x, y, d) {
                open += 1;
            }
            d += 1;
        }
        (255 * open / 8) as u8
    }

    /// Writes the light of the pixel `(x, y)` to the light buffer. Outside
    /// the buffers nothing is written.
    pub fn shade_occlusion(&mut self, x: i32, y: i32)
        requires
            old(self).wf(),
        ensures
            final(self).wf(),
            final(self)@ == if old(self)@.in_bounds(x as int, y as int) {
                old(self)@.lit(x as int, y as int)
            } else {
                old(self)@
            },
    {
        if 0 <= x && x < self.light.width && 0 <= y && y < self.light.height {
            let level = self.light_at(x, y);
            self.light.set_pixel(x, y, Color(level, level, level));
        }
    }

    /// Dims every pixel of the colour buffer by the light buffer.
    pub fn composite(&mut self)
        requires
            old(self).wf(),
        ensures
            final(self).wf(),
            final(self)@ == old(self)@.composited(),
    {
        let n: usize = self.color.data.len();
        let mut i: usize = 0;
        while i < n
            invariant
                self.wf(),
                0 <= i <= n,
                n == self.color.data@.len(),
                self@.width == old(self)@.width,
                self@.height == old(self)@.height,
                self@.depth == old(self)@.depth,
                self@.light == old(self)@.light,
                self@.color.len() == old(self)@.color.len(),
                forall|j: int|
                    0 <= j < i ==> self@.color[j] == attenuated(
                        old(self)@.color[j],
                        old(self)@.light[j].0,
                    ),
                forall|j: int| i <= j < n ==> self@.color[j] == old(self)@.color[j],
            decreases n - i,
        {
            let c = attenuate(self.color.data[i], self.light.data[i].0);
            self.color.data[i] = c;
            i += 1;
        }
        proof {
            assert(self@.color =~= old(self)@.composited().color);
        }
    }
}

} // verus!

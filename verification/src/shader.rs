//! Shading configuration, and the output stage of a fragment: the depth
//! test, and the write to the colour and depth buffers.
//!
//! Depth runs from 0 to 255 and higher is nearer. A fragment gets through
//! only where it is strictly nearer than what the depth buffer holds, so of
//! two fragments at the same depth the first one stays.

use vstd::prelude::*;
use crate::color::Color;
use crate::image::lemma_offset_bounds;
use crate::image::offset;
use crate::image::Image;

verus! {

/// The toggles that decide how a fragment's colour is put together.
#[derive(Clone, Copy, Debug, PartialEq, Eq, Structural)]
pub struct ShaderConf {
    /// Include the diffuse term.
    pub diff_light: bool,
    /// Include the specular term.
    pub spec_light: bool,
    /// Sample the diffuse texture; otherwise shade a fixed gray.
    pub texture: bool,
    /// Sample the normal map; otherwise use the face normal.
    pub normals: bool,
    /// Run the ambient-occlusion pass.
    pub occlusion: bool,
}

impl ShaderConf {
    /// Lighting, texture and normal map on; the occlusion pass off.
    pub fn new() -> (conf: Self)
        ensures
            conf == (ShaderConf {
                diff_light: true,
                spec_light: true,
                texture: true,
                normals: true,
                occlusion: false,
            }),
    {
        ShaderConf {
            diff_light: true,
            spec_light: true,
            texture: true,
            normals: true,
            occlusion: false,
        }
    }
}

/// A fragment on its way to the buffers: a pixel, a depth and a colour.
#[derive(Clone, Copy, Debug, PartialEq, Eq, Structural)]
pub struct Fragment {
    pub x: i32,
    pub y: i32,
    pub z: u8,
    pub color: Color,
}

/// The three buffers of a frame, all of one size.
pub struct Framebuffers {
    pub color: Image,
    pub depth: Image,
    pub light: Image,
}

/// What the buffers hold: their common size and their pixels row by row.
pub struct Buffers {
    pub width: int,
    pub height: int,
    pub color: Seq<Color>,
    pub depth: Seq<Color>,
    pub light: Seq<Color>,
}

impl Buffers {
    /// `(x, y)` names a pixel of the buffers.
    pub open spec fn in_bounds(self, x: int, y: int) -> bool {
        0 <= x < self.width && 0 <= y < self.height
    }

    /// The depth held at `(x, y)`; 0, the farthest, outside the buffers.
    pub open spec fn depth_at(self, x: int, y: int) -> int {
        if self.in_bounds(x, y) {
            self.depth[offset(self.width, x, y)].0 as int
        } else {
            0
        }
    }

    /// The colour held at `(x, y)`; black outside the buffers.
    pub open spec fn color_at(self, x: int, y: int) -> Color {
        if self.in_bounds(x, y) {
            self.color[offset(self.width, x, y)]
        } else {
            Color(0, 0, 0)
        }
    }

    /// A fragment at `(x, y)` with depth `z` gets through: it lies inside
    /// the buffers and is strictly nearer than what the depth buffer holds.
    pub open spec fn visible(self, x: int, y: int, z: int) -> bool {
        self.in_bounds(x, y) && z > self.depth_at(x, y)
    }

    /// The buffers with the fragment written: its colour in the colour
    /// buffer, its depth in all three channels of the depth buffer.
    pub open spec fn written(self, f: Fragment) -> Buffers {
        let at = offset(self.width, f.x as int, f.y as int);
        Buffers {
            color: self.color.update(at, f.color),
            depth: self.depth.update(at, Color(f.z, f.z, f.z)),
            ..self
        }
    }

    /// The buffers after the fragment has gone through the depth test:
    /// written where it is visible, unchanged where it is not.
    pub open spec fn submitted(self, f: Fragment) -> Buffers {
        if self.visible(f.x as int, f.y as int, f.z as int) {
            self.written(f)
        } else {
            self
        }
    }

    /// The buffers after the fragments have gone through the depth test one
    /// after the other.
    pub open spec fn after(self, fragments: Seq<Fragment>) -> Buffers
        decreases fragments.len(),
    {
        if fragments.len() == 0 {
            self
        } else {
            self.after(fragments.drop_last()).submitted(fragments.last())
        }
    }

    /// The buffers are of one size, one colour per pixel each.
    pub open spec fn wf(self) -> bool {
        &&& 0 <= self.width
        &&& 0 <= self.height
        &&& self.color.len() == self.width * self.height
        &&& self.depth.len() == self.width * self.height
        &&& self.light.len() == self.width * self.height
    }
}

impl View for Framebuffers {
    type V = Buffers;

    open spec fn view(&self) -> Buffers {
        Buffers {
            width: self.color.width as int,
            height: self.color.height as int,
            color: self.color.data@,
            depth: self.depth.data@,
            light: self.light.data@,
        }
    }
}

impl Framebuffers {
    /// The three images are well formed and of one size.
    pub open spec fn wf(&self) -> bool {
        &&& self.color.wf()
        &&& self.depth.wf()
        &&& self.light.wf()
        &&& self.depth.width == self.color.width
        &&& self.depth.height == self.color.height
        &&& self.light.width == self.color.width
        &&& self.light.height == self.color.height
    }

    /// Tells whether the three images are well formed and of one size.
    pub fn is_well_formed(&self) -> (ok: bool)
        ensures
            ok == self.wf(),
    {
        self.color.is_well_formed() && self.depth.is_well_formed() && self.light.is_well_formed()
            && self.depth.width == self.color.width && self.depth.height == self.color.height
            && self.light.width == self.color.width && self.light.height == self.color.height
    }

    /// Three black buffers of the given size: no colour, no light, and
    /// everything at the farthest depth.
    pub fn new(width: i32, height: i32) -> (fb: Self)
        requires
            0 <= width,
            0 <= height,
            width * height <= usize::MAX,
        ensures
            fb.wf(),
            fb@.width == width,
            fb@.height == height,
            forall|i: int| 0 <= i < width * height ==> fb@.color[i] == Color(0, 0, 0),
            forall|i: int| 0 <= i < width * height ==> fb@.depth[i] == Color(0, 0, 0),
            forall|i: int| 0 <= i < width * height ==> fb@.light[i] == Color(0, 0, 0),
    {
        Framebuffers {
            color: Image::new(width, height),
            depth: Image::new(width, height),
            light: Image::new(width, height),
        }
    }

    /// The depth test: tells whether a fragment at `(x, y)` with depth `z`
    /// lies inside the buffers and is strictly nearer than what is there.
    pub fn accepts(&self, x: i32, y: i32, z: u8) -> (b: bool)
        requires
            self.wf(),
        ensures
            b == self@.visible(x as int, y as int, z as int),
    {
        proof {
            if self@.in_bounds(x as int, y as int) {
                lemma_offset_bounds(self@.width, self@.height, x as int, y as int);
            }
        }
        !(z <= self.depth.pixel_at(x, y).0 || x < 0 || x >= self.color.width || y < 0 || y
            >= self.color.height)
    }

    /// Writes a fragment that has passed the depth test.
    pub fn write(&mut self, f: Fragment)
        requires
            old(self).wf(),
            old(self)@.visible(f.x as int, f.y as int, f.z as int),
        ensures
            final(self).wf(),
            final(self)@ == old(self)@.written(f),
    {
        self.color.set_pixel(f.x, f.y, f.color);
        self.depth.set_pixel(f.x, f.y, Color(f.z, f.z, f.z));
    }

    /// Puts a fragment through the depth test and writes it if it passes.
    /// Tells whether it did.
    pub fn submit(&mut self, f: Fragment) -> (shown: bool)
        requires
            old(self).wf(),
        ensures
            final(self).wf(),
            shown == old(self)@.visible(f.x as int, f.y as int, f.z as int),
            final(self)@ == old(self)@.submitted(f),
    {
        if self.accepts(f.x, f.y, f.z) {
            self.write(f);
            true
        } else {
            false
        }
    }

    /// The image to show as a flat byte buffer: the depth buffer if
    /// `show_zbuffer` is set, else the colour buffer.
    pub fn emit(&self, show_zbuffer: bool) -> (bytes: Vec<u8>)
        requires
            self.wf(),
            4 * self.color.width * self.color.height <= usize::MAX,
        ensures
            bytes@ == if show_zbuffer {
                self.depth.raw_bytes()
            } else {
                self.color.raw_bytes()
            },
    {
        assert(4 * (self.color.width * self.color.height) == 4 * self.color.width
            * self.color.height) by (nonlinear_arith);
        if show_zbuffer {
            self.depth.get_raw_bytes()
        } else {
            self.color.get_raw_bytes()
        }
    }
}

/// Going through the depth test keeps the buffers well formed and their
/// size.
pub proof fn lemma_after_wf(b: Buffers, fragments: Seq<Fragment>)
    requires
        b.wf(),
    ensures
        b.after(fragments).wf(),
        b.after(fragments).width == b.width,
        b.after(fragments).height == b.height,
        b.after(fragments).light == b.light,
    decreases fragments.len(),
{
    if fragments.len() > 0 {
        let rest = fragments.drop_last();
        let f = fragments.last();
        lemma_after_wf(b, rest);
        if b.after(rest).in_bounds(f.x as int, f.y as int) {
            lemma_offset_bounds(b.width, b.height, f.x as int, f.y as int);
        }
    }
}

/// One fragment never lowers the depth held at any pixel, and leaves at its
/// own pixel, if that is one of the buffers, a depth no lower than its own.
pub proof fn lemma_submitted_depth(b: Buffers, f: Fragment, x: int, y: int)
    requires
        b.wf(),
    ensures
        b.submitted(f).depth_at(x, y) >= b.depth_at(x, y),
        b.in_bounds(f.x as int, f.y as int) ==> b.submitted(f).depth_at(f.x as int, f.y as int)
            >= f.z,
        b.submitted(f).depth_at(x, y) == if x == f.x && y == f.y && b.visible(
            x,
            y,
            f.z as int,
        ) {
            f.z as int
        } else {
            b.depth_at(x, y)
        },
{
    if b.in_bounds(f.x as int, f.y as int) {
        lemma_offset_bounds(b.width, b.height, f.x as int, f.y as int);
    }
    if b.in_bounds(x, y) {
        lemma_offset_bounds(b.width, b.height, x, y);
    }
}

/// Depth only rises: after any fragments, every pixel holds a depth no lower
/// than before.
pub proof fn lemma_depth_never_falls(b: Buffers, fragments: Seq<Fragment>, x: int, y: int)
    requires
        b.wf(),
    ensures
        b.after(fragments).depth_at(x, y) >= b.depth_at(x, y),
    decreases fragments.len(),
{
    if fragments.len() > 0 {
        let rest = fragments.drop_last();
        lemma_depth_never_falls(b, rest, x, y);
        lemma_after_wf(b, rest);
        lemma_submitted_depth(b.after(rest), fragments.last(), x, y);
    }
}

/// After any fragments have gone through the depth test, the depth held at
/// a pixel of the buffers is no lower than the depth of any of the fragments
/// at that pixel.
pub proof fn lemma_depth_covers_fragments(b: Buffers, fragments: Seq<Fragment>, i: int)
    requires
        b.wf(),
        0 <= i < fragments.len(),
        b.in_bounds(fragments[i].x as int, fragments[i].y as int),
    ensures
        b.after(fragments).depth_at(fragments[i].x as int, fragments[i].y as int)
            >= fragments[i].z,
    decreases fragments.len(),
{
    let rest = fragments.drop_last();
    let f = fragments[i];
    lemma_after_wf(b, rest);
    lemma_submitted_depth(b.after(rest), fragments.last(), f.x as int, f.y as int);
    if i < fragments.len() - 1 {
        lemma_depth_covers_fragments(b, rest, i);
    }
}

} // verus!

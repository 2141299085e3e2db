//! A mesh together with its two textures.

use vstd::prelude::*;
use crate::color::Color;
use crate::image::Image;
use crate::la::Vec3;
use crate::wf::corner_in_range;
use crate::wf::Wavefront;

verus! {

/// A mesh, its tangent-space normal map and its diffuse texture.
pub struct Model<S> {
    pub model: Wavefront<S>,
    pub normal_map: Image,
    pub texture: Image,
}

impl<S: Copy> Model<S> {
    /// Corner `nvert` of face `iface` names a vertex and a texture coordinate
    /// of the mesh.
    pub open spec fn has_corner(&self, iface: int, nvert: int) -> bool {
        &&& 0 <= iface < self.model.faces@.len()
        &&& 0 <= nvert < 3
        &&& corner_in_range(
            self.model.faces@[iface],
            nvert,
            self.model.vertices@.len() as int,
            self.model.texture_coord@.len() as int,
        )
    }

    /// A model of the given mesh, normal map and texture.
    pub fn new(wf: Wavefront<S>, nm: Image, txt: Image) -> (m: Self)
        ensures
            m.model == wf,
            m.normal_map == nm,
            m.texture == txt,
    {
        Model { model: wf, normal_map: nm, texture: txt }
    }

    /// The number of faces of the mesh.
    pub fn num_faces(&self) -> (n: usize)
        ensures
            n == self.model.faces@.len(),
    {
        self.model.faces.len()
    }

    /// Tells whether corner `nvert` of face `iface` names a vertex and a
    /// texture coordinate of the mesh.
    pub fn holds_corner(&self, iface: usize, nvert: usize) -> (b: bool)
        ensures
            b == self.has_corner(iface as int, nvert as int),
    {
        if iface >= self.model.faces.len() || nvert >= 3 {
            return false;
        }
        let f = &self.model.faces[iface];
        let v: i32 = f.0[nvert];
        let t: i32 = f.1[nvert];
        let nv: usize = self.model.vertices.len();
        let nt: usize = self.model.texture_coord.len();
        v >= 0 && t >= 0 && (v as u64) < nv as u64 && (t as u64) < nt as u64
    }

    /// The position of corner `nvert` of face `iface`.
    pub fn vertex(&self, iface: usize, nvert: usize) -> (v: Vec3<S>)
        requires
            self.has_corner(iface as int, nvert as int),
        ensures
            v == self.model.vertices@[self.model.faces@[iface as int].0[nvert as int] as int],
    {
        let f = &self.model.faces[iface];
        let at: i32 = f.0[nvert];
        self.model.vertices[at as usize]
    }

    /// The texture coordinate of corner `nvert` of face `iface`.
    pub fn texture_coords(&self, iface: usize, nvert: usize) -> (t: [S; 2])
        requires
            self.has_corner(iface as int, nvert as int),
        ensures
            t == self.model.texture_coord@[self.model.faces@[iface as int].1[nvert as int] as int],
    {
        let f = &self.model.faces[iface];
        let at: i32 = f.1[nvert];
        self.model.texture_coord[at as usize]
    }

    /// The texel of the diffuse texture at `(x, y)`; black outside it.
    pub fn texture(&self, x: i32, y: i32) -> (c: Color)
        ensures
            c == self.texture.pixel(x as int, y as int),
    {
        self.texture.pixel_at(x, y)
    }

    /// The texel of the normal map at `(x, y)` as the three components of a
    /// vector: the first stored channel is x, the second y, the third z.
    pub fn normal(&self, x: i32, y: i32) -> (n: Vec3<u8>)
        ensures
            n.0 == self.normal_map.pixel(x as int, y as int).0,
            n.1 == self.normal_map.pixel(x as int, y as int).1,
            n.2 == self.normal_map.pixel(x as int, y as int).2,
    {
        let c = self.normal_map.pixel_at(x, y);
        Vec3(c.0, c.1, c.2)
    }
}

} // verus!

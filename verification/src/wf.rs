//! Triangle meshes and their line-oriented text format.

use vstd::prelude::*;
use crate::la::Vec3;
use crate::text::after_word;
use crate::text::chars_of;
use crate::text::copy_range;
use crate::text::decimal;
use crate::text::field;
use crate::text::first_field;
use crate::text::first_word;
use crate::text::has_prefix;
use crate::text::is_float;
use crate::text::is_float_at;
use crate::text::lemma_span_all;
use crate::text::parse_decimal;
use crate::text::scan;
use crate::text::span;
use crate::text::starts_with;
use crate::text::trim;
use crate::text::trim_range;
use crate::text::word;
use crate::text::Class;

verus! {

/// One triangular face: for each of its three corners the index of a vertex
/// and the index of a texture coordinate, both counted from zero.
pub type Face = ([i32; 3], [i32; 3]);

/// A triangle mesh over scalars of type `S`.
#[derive(Clone, Debug)]
pub struct Wavefront<S> {
    pub vertices: Vec<Vec3<S>>,
    pub texture_coord: Vec<[S; 2]>,
    pub normals: Vec<Vec3<S>>,
    pub faces: Vec<Face>,
}

/// Corner `k` of `f` names one of `n_vertices` vertices and one of `n_coords`
/// texture coordinates.
pub open spec fn corner_in_range(f: Face, k: int, n_vertices: int, n_coords: int) -> bool {
    0 <= f.0[k] < n_vertices && 0 <= f.1[k] < n_coords
}

/// Each of the three corners of `f` is in range.
pub open spec fn face_in_range(f: Face, n_vertices: int, n_coords: int) -> bool {
    forall|k: int| 0 <= k < 3 ==> corner_in_range(f, k, n_vertices, n_coords)
}

/// `f` may turn the three scalars of `v` into those of `w`.
pub open spec fn turns3<S, T, F: Fn(&S) -> Option<T>>(f: F, v: Vec3<S>, w: Vec3<T>) -> bool {
    &&& f.ensures((&v.0,), Some(w.0))
    &&& f.ensures((&v.1,), Some(w.1))
    &&& f.ensures((&v.2,), Some(w.2))
}

/// `f` may turn the two scalars of `c` into those of `d`.
pub open spec fn turns2<S, T, F: Fn(&S) -> Option<T>>(f: F, c: [S; 2], d: [T; 2]) -> bool {
    &&& f.ensures((&c[0],), Some(d[0]))
    &&& f.ensures((&c[1],), Some(d[1]))
}

/// `f` may refuse one of the scalars of `v`.
pub open spec fn refuses3<S, T, F: Fn(&S) -> Option<T>>(f: F, v: Vec3<S>) -> bool {
    ||| f.ensures((&v.0,), None::<T>)
    ||| f.ensures((&v.1,), None::<T>)
    ||| f.ensures((&v.2,), None::<T>)
}

/// `f` may refuse one of the scalars of `c`.
pub open spec fn refuses2<S, T, F: Fn(&S) -> Option<T>>(f: F, c: [S; 2]) -> bool {
    ||| f.ensures((&c[0],), None::<T>)
    ||| f.ensures((&c[1],), None::<T>)
}

/// Turns a list of vectors scalar by scalar; nothing if `f` refuses a scalar.
fn convert3<S, T, F: Fn(&S) -> Option<T>>(list: &Vec<Vec3<S>>, f: &F) -> (r: Option<Vec<Vec3<T>>>)
    requires
        forall|s: &S| f.requires((s,)),
    ensures
        match r {
            Some(out) => out@.len() == list@.len() && forall|i: int|
                0 <= i < list@.len() ==> turns3(*f, list@[i], #[trigger] out@[i]),
            None => exists|i: int| 0 <= i < list@.len() && refuses3::<S, T, F>(*f, list@[i]),
        },
{
    let mut out: Vec<Vec3<T>> = Vec::new();
    let mut i: usize = 0;
    while i < list.len()
        invariant
            0 <= i <= list@.len(),
            out@.len() == i,
            forall|s: &S| f.requires((s,)),
            forall|j: int| 0 <= j < i ==> turns3(*f, list@[j], #[trigger] out@[j]),
        decreases list@.len() - i,
    {
        let v = &list[i];
        let x = f(&v.0);
        let y = f(&v.1);
        let z = f(&v.2);
        match (x, y, z) {
            (Some(x), Some(y), Some(z)) => {
                out.push(Vec3(x, y, z));
            },
            _ => {
                assert(refuses3::<S, T, F>(*f, list@[i as int]));
                return None;
            },
        }
        i += 1;
    }
    Some(out)
}

/// Turns a list of pairs scalar by scalar; nothing if `f` refuses a scalar.
fn convert2<S, T, F: Fn(&S) -> Option<T>>(list: &Vec<[S; 2]>, f: &F) -> (r: Option<Vec<[T; 2]>>)
    requires
        forall|s: &S| f.requires((s,)),
    ensures
        match r {
            Some(out) => out@.len() == list@.len() && forall|i: int|
                0 <= i < list@.len() ==> turns2(*f, list@[i], #[trigger] out@[i]),
            None => exists|i: int| 0 <= i < list@.len() && refuses2::<S, T, F>(*f, list@[i]),
        },
{
    let mut out: Vec<[T; 2]> = Vec::new();
    let mut i: usize = 0;
    while i < list.len()
        invariant
            0 <= i <= list@.len(),
            out@.len() == i,
            forall|s: &S| f.requires((s,)),
            forall|j: int| 0 <= j < i ==> turns2(*f, list@[j], #[trigger] out@[j]),
        decreases list@.len() - i,
    {
        let c = &list[i];
        let u = f(&c[0]);
        let v = f(&c[1]);
        match (u, v) {
            (Some(u), Some(v)) => {
                out.push([u, v]);
            },
            _ => {
                assert(refuses2::<S, T, F>(*f, list@[i as int]));
                return None;
            },
        }
        i += 1;
    }
    Some(out)
}

impl<S> Wavefront<S> {
    /// `f` may turn this mesh into `other`: the faces are the same, and every
    /// scalar of `other` is what `f` may give for the scalar in its place.
    pub open spec fn turns_into<T, F: Fn(&S) -> Option<T>>(&self, f: F, other: Wavefront<T>) -> bool {
        &&& other.faces@ == self.faces@
        &&& other.vertices@.len() == self.vertices@.len()
        &&& other.normals@.len() == self.normals@.len()
        &&& other.texture_coord@.len() == self.texture_coord@.len()
        &&& forall|i: int|
            0 <= i < self.vertices@.len() ==> turns3(f, self.vertices@[i], #[trigger] other.vertices@[i])
        &&& forall|i: int|
            0 <= i < self.normals@.len() ==> turns3(f, self.normals@[i], #[trigger] other.normals@[i])
        &&& forall|i: int|
            0 <= i < self.texture_coord@.len() ==> turns2(
                f,
                self.texture_coord@[i],
                #[trigger] other.texture_coord@[i],
            )
    }

    /// `f` may refuse one of the scalars of this mesh.
    pub open spec fn has_refused<T, F: Fn(&S) -> Option<T>>(&self, f: F) -> bool {
        ||| exists|i: int| 0 <= i < self.vertices@.len() && refuses3::<S, T, F>(f, self.vertices@[i])
        ||| exists|i: int| 0 <= i < self.normals@.len() && refuses3::<S, T, F>(f, self.normals@[i])
        ||| exists|i: int|
            0 <= i < self.texture_coord@.len() && refuses2::<S, T, F>(f, self.texture_coord@[i])
    }

    /// The mesh with every scalar turned by `f`, the faces as they are;
    /// nothing if `f` refuses a scalar.
    pub fn convert<T, F: Fn(&S) -> Option<T>>(self, f: &F) -> (r: Option<Wavefront<T>>)
        requires
            forall|s: &S| f.requires((s,)),
        ensures
            match r {
                Some(other) => self.turns_into(*f, other),
                None => self.has_refused::<T, F>(*f),
            },
    {
        let vertices = match convert3(&self.vertices, f) {
            Some(v) => v,
            None => {
                return None;
            },
        };
        let normals = match convert3(&self.normals, f) {
            Some(v) => v,
            None => {
                return None;
            },
        };
        let texture_coord = match convert2(&self.texture_coord, f) {
            Some(v) => v,
            None => {
                return None;
            },
        };
        Some(Wavefront { vertices, texture_coord, normals, faces: self.faces })
    }

    /// Every face of the mesh refers to vertices and texture coordinates that
    /// the mesh holds.
    pub open spec fn indices_in_range(&self) -> bool {
        forall|i: int|
            0 <= i < self.faces@.len() ==> face_in_range(
                #[trigger] self.faces@[i],
                self.vertices@.len() as int,
                self.texture_coord@.len() as int,
            )
    }

    /// A mesh of the given parts.
    pub fn new(
        vertices: Vec<Vec3<S>>,
        faces: Vec<Face>,
        normals: Vec<Vec3<S>>,
        texture_coord: Vec<[S; 2]>,
    ) -> (mesh: Self)
        ensures
            mesh.vertices == vertices,
            mesh.faces == faces,
            mesh.normals == normals,
            mesh.texture_coord == texture_coord,
    {
        Wavefront { vertices, texture_coord, normals, faces }
    }

    /// Tells whether every face refers to vertices and texture coordinates
    /// that the mesh holds.
    pub fn check_indices(&self) -> (ok: bool)
        ensures
            ok == self.indices_in_range(),
    {
        let nv: usize = self.vertices.len();
        let nt: usize = self.texture_coord.len();
        let mut i: usize = 0;
        while i < self.faces.len()
            invariant
                0 <= i <= self.faces@.len(),
                nv == self.vertices@.len(),
                nt == self.texture_coord@.len(),
                forall|j: int|
                    0 <= j < i ==> face_in_range(#[trigger] self.faces@[j], nv as int, nt as int),
            decreases self.faces@.len() - i,
        {
            let f = &self.faces[i];
            let mut k: usize = 0;
            while k < 3
                invariant
                    0 <= k <= 3,
                    0 <= i < self.faces@.len(),
                    *f == self.faces@[i as int],
                    nv == self.vertices@.len(),
                    nt == self.texture_coord@.len(),
                    forall|j: int| 0 <= j < k ==> corner_in_range(*f, j, nv as int, nt as int),
                decreases 3 - k,
            {
                let v: i32 = f.0[k];
                let t: i32 = f.1[k];
                if v < 0 || t < 0 || v as u64 >= nv as u64 || t as u64 >= nt as u64 {
                    assert(!corner_in_range(*f, k as int, nv as int, nt as int));
                    return false;
                }
                k += 1;
            }
            i += 1;
        }
        true
    }
}

/// Why a text is no mesh.
#[derive(Clone, Copy, Debug, PartialEq, Eq, Structural)]
pub enum ErrorKind {
    /// A line has fewer words than its kind asks for, or a corner of a face
    /// has no second field.
    MissingField,
    /// An index of a face is no decimal integer, or does not fit.
    BadIndex,
    /// A scalar of a vertex, a normal or a texture coordinate does not write
    /// a floating-point number.
    BadScalar,
}

/// The first line that is wrong, counted from zero, and what is wrong with it.
#[derive(Clone, Copy, Debug, PartialEq, Eq, Structural)]
pub struct ParseError {
    pub line: usize,
    pub kind: ErrorKind,
}

/// What one line of the text adds to the mesh.
pub enum Entry {
    Vertex(Vec3<Seq<char>>),
    Normal(Vec3<Seq<char>>),
    Coord(Seq<char>, Seq<char>),
    Face(Face),
    Nothing,
}

/// A mesh as it is written: every scalar is still the word that stands for
/// it in the text.
pub struct MeshText {
    pub vertices: Seq<Vec3<Seq<char>>>,
    pub texture_coord: Seq<(Seq<char>, Seq<char>)>,
    pub normals: Seq<Vec3<Seq<char>>>,
    pub faces: Seq<Face>,
}

impl MeshText {
    /// The mesh with nothing in it.
    pub open spec fn empty() -> MeshText {
        MeshText { vertices: seq![], texture_coord: seq![], normals: seq![], faces: seq![] }
    }

    /// The mesh with one more entry at the end of the list it belongs to.
    pub open spec fn with(self, e: Entry) -> MeshText {
        match e {
            Entry::Vertex(v) => MeshText { vertices: self.vertices.push(v), ..self },
            Entry::Normal(v) => MeshText { normals: self.normals.push(v), ..self },
            Entry::Coord(u, v) => MeshText {
                texture_coord: self.texture_coord.push((u, v)),
                ..self
            },
            Entry::Face(f) => MeshText { faces: self.faces.push(f), ..self },
            Entry::Nothing => self,
        }
    }
}

/// The lines of `s`: what stands between its line feeds.
pub open spec fn lines(s: Seq<char>) -> Seq<Seq<char>>
    decreases s.len(),
{
    let k = span(s, Class::Not('\n'));
    if k < s.len() {
        seq![s.take(k as int)] + lines(s.skip(k as int + 1))
    } else {
        seq![s]
    }
}

/// The index that `s` writes: a decimal integer counted from one, turned
/// into one counted from zero.
pub open spec fn index(s: Seq<char>) -> Option<i32> {
    match decimal(s) {
        Some(v) => if v - 1 >= -0x8000_0000 {
            Some((v - 1) as i32)
        } else {
            None
        },
        None => None,
    }
}

/// The two indices of a corner written as `vertex/coordinate`, with or
/// without further fields behind a second `/`.
pub open spec fn corner(w: Seq<char>) -> Result<(i32, i32), ErrorKind> {
    match index(field(w, '/', 0)->0) {
        None => Err(ErrorKind::BadIndex),
        Some(v) => match field(w, '/', 1) {
            None => Err(ErrorKind::MissingField),
            Some(f) => match index(f) {
                None => Err(ErrorKind::BadIndex),
                Some(t) => Ok((v, t)),
            },
        },
    }
}

/// The face written by three corners.
pub open spec fn face(a: Seq<char>, b: Seq<char>, c: Seq<char>) -> Result<Face, ErrorKind> {
    match corner(a) {
        Err(k) => Err(k),
        Ok(p) => match corner(b) {
            Err(k) => Err(k),
            Ok(q) => match corner(c) {
                Err(k) => Err(k),
                Ok(r) => Ok(([p.0, q.0, r.0], [p.1, q.1, r.1])),
            },
        },
    }
}

/// The three scalars that follow the first word of a line.
pub open spec fn scalars3(line: Seq<char>) -> Result<Vec3<Seq<char>>, ErrorKind> {
    if word(line, 3).len() == 0 {
        Err(ErrorKind::MissingField)
    } else if is_float(word(line, 1)) && is_float(word(line, 2)) && is_float(word(line, 3)) {
        Ok(Vec3(word(line, 1), word(line, 2), word(line, 3)))
    } else {
        Err(ErrorKind::BadScalar)
    }
}

/// The two scalars that follow the first word of a line.
pub open spec fn scalars2(line: Seq<char>) -> Result<(Seq<char>, Seq<char>), ErrorKind> {
    if word(line, 2).len() == 0 {
        Err(ErrorKind::MissingField)
    } else if is_float(word(line, 1)) && is_float(word(line, 2)) {
        Ok((word(line, 1), word(line, 2)))
    } else {
        Err(ErrorKind::BadScalar)
    }
}

/// What a line without the white space at its ends adds to the mesh.
///
/// The line's first word tells its kind: `v` a vertex and `vn` a normal of
/// three scalars, `vt` a texture coordinate of two, `f` a face of three
/// corners. Words beyond those are not looked at. A line that starts with
/// `#` and any line of another kind adds nothing.
pub open spec fn entry(line: Seq<char>) -> Result<Entry, ErrorKind> {
    if starts_with(line, "#"@) {
        Ok(Entry::Nothing)
    } else if starts_with(line, "v "@) {
        match scalars3(line) {
            Ok(v) => Ok(Entry::Vertex(v)),
            Err(k) => Err(k),
        }
    } else if starts_with(line, "vn "@) {
        match scalars3(line) {
            Ok(v) => Ok(Entry::Normal(v)),
            Err(k) => Err(k),
        }
    } else if starts_with(line, "vt "@) {
        match scalars2(line) {
            Ok(c) => Ok(Entry::Coord(c.0, c.1)),
            Err(k) => Err(k),
        }
    } else if starts_with(line, "f "@) {
        if word(line, 3).len() > 0 {
            match face(word(line, 1), word(line, 2), word(line, 3)) {
                Ok(f) => Ok(Entry::Face(f)),
                Err(k) => Err(k),
            }
        } else {
            Err(ErrorKind::MissingField)
        }
    } else {
        Ok(Entry::Nothing)
    }
}

/// The mesh that the first `n` of the given lines write, or the first error
/// among them.
pub open spec fn parsed(all: Seq<Seq<char>>, n: nat) -> Result<MeshText, ParseError>
    decreases n,
{
    if n == 0 {
        Ok(MeshText::empty())
    } else {
        match parsed(all, (n - 1) as nat) {
            Err(e) => Err(e),
            Ok(m) => match entry(trim(all[n - 1])) {
                Err(kind) => Err(ParseError { line: (n - 1) as usize, kind }),
                Ok(e) => Ok(m.with(e)),
            },
        }
    }
}

/// The mesh that a text writes, or the first error in it.
pub open spec fn parse(s: Seq<char>) -> Result<MeshText, ParseError> {
    parsed(lines(s), lines(s).len())
}

/// An error among the first lines is the error of the whole.
pub proof fn lemma_parsed_error_stays(all: Seq<Seq<char>>, n: nat, m: nat)
    requires
        n <= m,
        parsed(all, n) is Err,
    ensures
        parsed(all, m) == parsed(all, n),
    decreases m,
{
    if n < m {
        lemma_parsed_error_stays(all, n, (m - 1) as nat);
    }
}

impl MeshText {
    /// Every scalar of the mesh writes a floating-point number.
    pub open spec fn all_floats(self) -> bool {
        &&& forall|i: int|
            0 <= i < self.vertices.len() ==> is_float((#[trigger] self.vertices[i]).0) && is_float(
                self.vertices[i].1,
            ) && is_float(self.vertices[i].2)
        &&& forall|i: int|
            0 <= i < self.normals.len() ==> is_float((#[trigger] self.normals[i]).0) && is_float(
                self.normals[i].1,
            ) && is_float(self.normals[i].2)
        &&& forall|i: int|
            0 <= i < self.texture_coord.len() ==> is_float((#[trigger] self.texture_coord[i]).0)
                && is_float(self.texture_coord[i].1)
    }
}

/// In a mesh that was read from a text, every scalar writes a
/// floating-point number.
pub proof fn lemma_read_scalars_are_floats(all: Seq<Seq<char>>, n: nat)
    requires
        parsed(all, n) is Ok,
    ensures
        parsed(all, n)->Ok_0.all_floats(),
    decreases n,
{
    if n > 0 {
        lemma_read_scalars_are_floats(all, (n - 1) as nat);
    }
}

/// The words of a vector of three.
pub open spec fn words3(v: Vec3<Vec<char>>) -> Vec3<Seq<char>> {
    Vec3(v.0@, v.1@, v.2@)
}

/// The words of a pair.
pub open spec fn words2(c: [Vec<char>; 2]) -> (Seq<char>, Seq<char>) {
    (c[0]@, c[1]@)
}

/// What a line adds to the mesh, as the parser holds it.
enum Record {
    Vertex(Vec3<Vec<char>>),
    Normal(Vec3<Vec<char>>),
    Coord([Vec<char>; 2]),
    Face(Face),
    Nothing,
}

impl Record {
    spec fn entry(self) -> Entry {
        match self {
            Record::Vertex(v) => Entry::Vertex(words3(v)),
            Record::Normal(v) => Entry::Normal(words3(v)),
            Record::Coord(c) => Entry::Coord(c[0]@, c[1]@),
            Record::Face(f) => Entry::Face(f),
            Record::Nothing => Entry::Nothing,
        }
    }
}

/// The index written in `text[from..to]`.
fn parse_index(text: &Vec<char>, from: usize, to: usize) -> (r: Option<i32>)
    requires
        from <= to <= text@.len(),
    ensures
        r == index(text@.subrange(from as int, to as int)),
{
    match parse_decimal(text, from, to) {
        Some(v) => if v > i32::MIN {
            Some(v - 1)
        } else {
            None
        },
        None => None,
    }
}

/// The corner written in `text[from..to]`.
fn parse_corner(text: &Vec<char>, from: usize, to: usize) -> (r: Result<(i32, i32), ErrorKind>)
    requires
        from <= to <= text@.len(),
    ensures
        r == corner(text@.subrange(from as int, to as int)),
{
    let ghost w = text@.subrange(from as int, to as int);
    let end = first_field(text, from, to, '/');
    match parse_index(text, from, end) {
        None => Err(ErrorKind::BadIndex),
        Some(v) => {
            if end == to {
                Err(ErrorKind::MissingField)
            } else {
                let end2 = first_field(text, end + 1, to, '/');
                assert(field(w, '/', 1) == field(w.skip(end - from + 1), '/', 0));
                match parse_index(text, end + 1, end2) {
                    None => Err(ErrorKind::BadIndex),
                    Some(t) => Ok((v, t)),
                }
            }
        },
    }
}

/// The bounds of words 1, 2 and 3 of `text[from..to]`.
fn three_words(text: &Vec<char>, from: usize, to: usize) -> (r: [(usize, usize); 3])
    requires
        from <= to <= text@.len(),
    ensures
        forall|k: int|
            0 <= k < 3 ==> from <= (#[trigger] r[k]).0 <= r[k].1 <= to && text@.subrange(
                r[k].0 as int,
                r[k].1 as int,
            ) == word(text@.subrange(from as int, to as int), (k + 1) as nat),
{
    let ghost s = text@.subrange(from as int, to as int);
    let w0 = first_word(text, from, to);
    let w1 = first_word(text, w0.1, to);
    let w2 = first_word(text, w1.1, to);
    let w3 = first_word(text, w2.1, to);
    proof {
        let s1 = after_word(s);
        let s2 = after_word(s1);
        let s3 = after_word(s2);
        assert(word(s, 1) == word(s1, 0));
        assert(word(s, 2) == word(s1, 1));
        assert(word(s1, 1) == word(s2, 0));
        assert(word(s, 3) == word(s1, 2));
        assert(word(s1, 2) == word(s2, 1));
        assert(word(s2, 1) == word(s3, 0));
    }
    [w1, w2, w3]
}

/// What the line `text[from..to]`, which has no white space at its ends,
/// adds to the mesh.
fn parse_entry(text: &Vec<char>, from: usize, to: usize) -> (r: Result<Record, ErrorKind>)
    requires
        from <= to <= text@.len(),
    ensures
        match entry(text@.subrange(from as int, to as int)) {
            Ok(e) => r is Ok && r->Ok_0.entry() == e,
            Err(k) => r is Err && r->Err_0 == k,
        },
{
    if has_prefix(text, from, to, "#") {
        return Ok(Record::Nothing);
    }
    let vertex = has_prefix(text, from, to, "v ");
    let normal = !vertex && has_prefix(text, from, to, "vn ");
    let coord = !vertex && !normal && has_prefix(text, from, to, "vt ");
    let face = !vertex && !normal && !coord && has_prefix(text, from, to, "f ");
    if !(vertex || normal || coord || face) {
        return Ok(Record::Nothing);
    }
    let w = three_words(text, from, to);
    let needed: usize = if coord {
        1
    } else {
        2
    };
    if w[needed].0 == w[needed].1 {
        return Err(ErrorKind::MissingField);
    }
    if !face {
        let fine = is_float_at(text, w[0].0, w[0].1) && is_float_at(text, w[1].0, w[1].1) && (coord
            || is_float_at(text, w[2].0, w[2].1));
        if !fine {
            return Err(ErrorKind::BadScalar);
        }
    }
    if coord {
        let u = copy_range(text, w[0].0, w[0].1);
        let v = copy_range(text, w[1].0, w[1].1);
        Ok(Record::Coord([u, v]))
    } else if face {
        let p = match parse_corner(text, w[0].0, w[0].1) {
            Ok(p) => p,
            Err(k) => {
                return Err(k);
            },
        };
        let q = match parse_corner(text, w[1].0, w[1].1) {
            Ok(q) => q,
            Err(k) => {
                return Err(k);
            },
        };
        let r = match parse_corner(text, w[2].0, w[2].1) {
            Ok(r) => r,
            Err(k) => {
                return Err(k);
            },
        };
        Ok(Record::Face(([p.0, q.0, r.0], [p.1, q.1, r.1])))
    } else {
        let x = copy_range(text, w[0].0, w[0].1);
        let y = copy_range(text, w[1].0, w[1].1);
        let z = copy_range(text, w[2].0, w[2].1);
        if vertex {
            Ok(Record::Vertex(Vec3(x, y, z)))
        } else {
            Ok(Record::Normal(Vec3(x, y, z)))
        }
    }
}

/// The first of the lines that start at `from`: where it ends, and what it
/// adds to the mesh. The lines after it start behind its end.
fn read_line(text: &Vec<char>, from: usize) -> (r: (usize, Result<Record, ErrorKind>))
    requires
        from <= text@.len(),
    ensures
        from <= r.0 <= text@.len(),
        match entry(trim(lines(text@.subrange(from as int, text@.len() as int))[0])) {
            Ok(e) => r.1 is Ok && r.1->Ok_0.entry() == e,
            Err(k) => r.1 is Err && r.1->Err_0 == k,
        },
        r.0 < text@.len() ==> lines(text@.subrange(r.0 + 1, text@.len() as int)) == lines(
            text@.subrange(from as int, text@.len() as int),
        ).skip(1),
        r.0 == text@.len() ==> lines(text@.subrange(from as int, text@.len() as int)).len() == 1,
{
    let n: usize = text.len();
    let end = scan(text, from, n, Class::Not('\n'));
    proof {
        let rest = text@.subrange(from as int, n as int);
        lemma_lines_first(rest);
        assert(rest.take(end - from) =~= text@.subrange(from as int, end as int));
        if end < n {
            assert(rest.skip(end - from + 1) =~= text@.subrange(end + 1, n as int));
        }
    }
    let (a, b) = trim_range(text, from, end);
    (end, parse_entry(text, a, b))
}

/// The first line of a text ends at its first line feed, and the lines
/// after it are the lines of what follows that line feed; a text without
/// line feed is one line.
pub proof fn lemma_lines_first(s: Seq<char>)
    ensures
        lines(s).len() >= 1,
        lines(s)[0] == s.take(span(s, Class::Not('\n')) as int),
        span(s, Class::Not('\n')) < s.len() ==> lines(s).skip(1) == lines(
            s.skip(span(s, Class::Not('\n')) as int + 1),
        ),
        span(s, Class::Not('\n')) >= s.len() ==> lines(s).len() == 1 && lines(s)[0] == s,
{
    let k = span(s, Class::Not('\n'));
    lemma_span_all(s, Class::Not('\n'));
    if k < s.len() {
        assert(lines(s).skip(1) =~= lines(s.skip(k as int + 1)));
    } else {
        assert(s.take(k as int) =~= s);
    }
}

/// One more line adds its entry to the mesh of the lines before it, or is
/// the first wrong line.
pub proof fn lemma_parsed_step(all: Seq<Seq<char>>, line: nat, m: MeshText)
    requires
        parsed(all, line) == Ok::<MeshText, ParseError>(m),
    ensures
        parsed(all, line + 1) == match entry(trim(all[line as int])) {
            Ok(e) => Ok::<MeshText, ParseError>(m.with(e)),
            Err(kind) => Err(ParseError { line: line as usize, kind }),
        },
{
    assert((line + 1 - 1) as nat == line);
}

/// A mesh without entries is the empty mesh.
proof fn lemma_empty_text(mesh: Wavefront<Vec<char>>)
    requires
        mesh.vertices@.len() == 0,
        mesh.normals@.len() == 0,
        mesh.texture_coord@.len() == 0,
        mesh.faces@.len() == 0,
    ensures
        mesh.text() == MeshText::empty(),
{
    assert(mesh.text().vertices =~= MeshText::empty().vertices);
    assert(mesh.text().normals =~= MeshText::empty().normals);
    assert(mesh.text().texture_coord =~= MeshText::empty().texture_coord);
    assert(mesh.text().faces =~= MeshText::empty().faces);
}

impl Wavefront<Vec<char>> {
    /// The mesh as a value of the text it was read from.
    pub open spec fn text(&self) -> MeshText {
        MeshText {
            vertices: self.vertices@.map_values(|v: Vec3<Vec<char>>| words3(v)),
            texture_coord: self.texture_coord@.map_values(|c: [Vec<char>; 2]| words2(c)),
            normals: self.normals@.map_values(|v: Vec3<Vec<char>>| words3(v)),
            faces: self.faces@,
        }
    }

    /// Puts what a line adds at the end of the list it belongs to.
    fn store(&mut self, record: Record)
        ensures
            final(self).text() == old(self).text().with(record.entry()),
    {
        let ghost before = self.text();
        match record {
            Record::Vertex(v) => {
                self.vertices.push(v);
                assert(self.text().vertices =~= before.vertices.push(words3(v)));
            },
            Record::Normal(v) => {
                self.normals.push(v);
                assert(self.text().normals =~= before.normals.push(words3(v)));
            },
            Record::Coord(c) => {
                self.texture_coord.push(c);
                assert(self.text().texture_coord =~= before.texture_coord.push(words2(c)));
            },
            Record::Face(f) => {
                self.faces.push(f);
            },
            Record::Nothing => {},
        }
    }

    /// Reads a mesh from its text. The scalars of vertices, normals and
    /// texture coordinates come out as the words that write them, each one a
    /// floating-point number as far as its letters go; the indices of faces
    /// are read and counted from zero.
    pub fn parse_string(contents: String) -> (res: Result<Self, ParseError>)
        ensures
            match parse(contents@) {
                Ok(m) => res is Ok && res->Ok_0.text() == m,
                Err(e) => res is Err && res->Err_0 == e,
            },
    {
        let text = chars_of(contents.as_str());
        let n: usize = text.len();
        let ghost all = lines(text@);
        let mut mesh: Wavefront<Vec<char>> = Wavefront::new(
            Vec::new(),
            Vec::new(),
            Vec::new(),
            Vec::new(),
        );
        let mut pos: usize = 0;
        let mut line: usize = 0;
        proof {
            assert(text@.subrange(0, n as int) =~= text@);
            assert(all.skip(0) =~= all);
            lemma_lines_first(text@);
            lemma_empty_text(mesh);
        }
        loop
            invariant
                text@ == contents@,
                n == text@.len(),
                all == lines(text@),
                line <= pos <= n,
                line < all.len(),
                lines(text@.subrange(pos as int, n as int)) == all.skip(line as int),
                parsed(all, line as nat) == Ok::<MeshText, ParseError>(mesh.text()),
            decreases n - pos,
        {
            let (end, read) = read_line(&text, pos);
            proof {
                assert(all[line as int] == all.skip(line as int)[0]);
                lemma_parsed_step(all, line as nat, mesh.text());
            }
            match read {
                Err(kind) => {
                    proof {
                        lemma_parsed_error_stays(all, (line + 1) as nat, all.len());
                    }
                    return Err(ParseError { line, kind });
                },
                Ok(record) => {
                    mesh.store(record);
                },
            }
            if end == n {
                return Ok(mesh);
            }
            proof {
                assert(all.skip(line as int).skip(1) =~= all.skip(line + 1));
            }
            pos = end + 1;
            line += 1;
        }
    }
}

} // verus!

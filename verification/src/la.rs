//! Vectors and fixed-shape matrices over an arbitrary scalar, and the
//! operations on them that only move entries.

use vstd::prelude::*;

verus! {

/// A vector of three scalars.
#[derive(Clone, Copy, Debug)]
pub struct Vec3<S>(pub S, pub S, pub S);

impl<S: Copy> Vec3<S> {
    /// The vector as a column of `L` rows: its three components on top, every
    /// further row filled with `i`.
    pub fn embed<const L: usize>(&self, i: S) -> (m: [[S; 1]; L])
        requires
            L > 3,
        ensures
            m[0][0] == self.0,
            m[1][0] == self.1,
            m[2][0] == self.2,
            forall|k: int| 3 <= k < L ==> (#[trigger] m[k])[0] == i,
    {
        let mut v: [[S; 1]; L] = [[i]; L];
        v[0][0] = self.0;
        v[1][0] = self.1;
        v[2][0] = self.2;
        v
    }

    /// The vector as a column of three rows.
    pub fn column(&self) -> (m: [[S; 1]; 3])
        ensures
            m[0][0] == self.0,
            m[1][0] == self.1,
            m[2][0] == self.2,
    {
        [[self.0], [self.1], [self.2]]
    }

    /// The vector made of the first three rows of a column.
    pub fn from_column<const L: usize>(m: &[[S; 1]; L]) -> (v: Vec3<S>)
        requires
            L >= 3,
        ensures
            v.0 == m[0][0],
            v.1 == m[1][0],
            v.2 == m[2][0],
    {
        Vec3(m[0][0], m[1][0], m[2][0])
    }
}

/// A matrix of `Y` rows with `X` entries each, stored row by row.
pub type Matrix<S, const X: usize, const Y: usize> = [[S; X]; Y];

/// The rows of a matrix as a sequence of sequences.
pub open spec fn grid<S, const X: usize, const Y: usize>(m: [[S; X]; Y]) -> Seq<Seq<S>> {
    Seq::new(Y as nat, |y: int| m[y]@)
}

/// Every row of `g` has `cols` entries.
pub open spec fn rectangular<S>(g: Seq<Seq<S>>, cols: nat) -> bool {
    forall|y: int| 0 <= y < g.len() ==> (#[trigger] g[y]).len() == cols
}

/// The transpose of a grid with `cols` columns: entry `(x, y)` of the result
/// is entry `(y, x)` of `g`.
pub open spec fn transposed<S>(g: Seq<Seq<S>>, cols: nat) -> Seq<Seq<S>> {
    Seq::new(cols, |x: int| Seq::new(g.len(), |y: int| g[y][x]))
}

/// Transposing twice gives back the grid one started from, entry for entry.
pub proof fn lemma_transpose_involution<S>(g: Seq<Seq<S>>, cols: nat)
    requires
        rectangular(g, cols),
    ensures
        transposed(transposed(g, cols), g.len()) == g,
{
    let t = transposed(g, cols);
    let u = transposed(t, g.len());
    assert forall|y: int| 0 <= y < g.len() implies u[y] == g[y] by {
        assert(u[y] =~= g[y]);
    }
    assert(u =~= g);
}

/// Two matrices with the same rows are the same matrix.
pub proof fn lemma_grid_injective<S, const X: usize, const Y: usize>(a: [[S; X]; Y], b: [[S; X]; Y])
    requires
        grid(a) == grid(b),
    ensures
        a == b,
{
    assert forall|y: int| 0 <= y < Y implies a[y] == b[y] by {
        assert(grid(a)[y] == grid(b)[y]);
        assert(a[y]@ == b[y]@);
        assert(a[y] =~= b[y]);
    }
    assert(a =~= b);
}

/// A matrix is the transpose of the transpose of itself: whatever has the
/// rows of the transpose of `t`, where `t` has the rows of the transpose of
/// `m`, is `m`.
pub proof fn lemma_transpose_twice<S, const X: usize, const Y: usize>(
    m: [[S; X]; Y],
    t: [[S; Y]; X],
    u: [[S; X]; Y],
)
    requires
        grid(t) == transposed(grid(m), X as nat),
        grid(u) == transposed(grid(t), Y as nat),
    ensures
        u == m,
{
    lemma_transpose_involution(grid(m), X as nat);
    assert(grid(m).len() == Y);
    lemma_grid_injective(u, m);
}

/// Moves entry `(y, x)` of `m` to entry `(x, y)` of the result.
pub fn transpose<S: Copy + Default, const X: usize, const Y: usize>(m: &[[S; X]; Y]) -> (res: [[S; Y]; X])
    ensures
        grid(res) == transposed(grid(*m), X as nat),
{
    let fill: S = S::default();
    let mut res: [[S; Y]; X] = [[fill; Y]; X];
    let mut x: usize = 0;
    while x < X
        invariant
            0 <= x <= X,
            forall|i: int, j: int| 0 <= i < x && 0 <= j < Y ==> res[i][j] == m[j][i],
        decreases X - x,
    {
        let mut y: usize = 0;
        while y < Y
            invariant
                0 <= x < X,
                0 <= y <= Y,
                forall|i: int, j: int| 0 <= i < x && 0 <= j < Y ==> res[i][j] == m[j][i],
                forall|j: int| 0 <= j < y ==> res[x as int][j] == m[j][x as int],
            decreases Y - y,
        {
            res[x][y] = m[y][x];
            y += 1;
        }
        x += 1;
    }
    proof {
        let t = transposed(grid(*m), X as nat);
        assert forall|i: int| 0 <= i < X implies grid(res)[i] == t[i] by {
            assert(grid(res)[i] =~= t[i]);
        }
        assert(grid(res) =~= t);
    }
    res
}

} // verus!

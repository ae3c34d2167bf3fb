//! Triangulation of a rectangular window of a height grid at a decimation stride.
use vstd::prelude::*;
use crate::heightmap::{index_of, Heightmap};

verus! {

/// Largest vertex count addressable by 16-bit indices.
pub const MAX_MESH_VERTICES: usize = 65536;

/// The layout of a generated mesh: for each mesh vertex the grid index it
/// samples, and the triangle list as indices into `vertices`.
#[derive(Clone, Debug, PartialEq, Eq)]
pub struct Geometry {
    pub vertices: Vec<usize>,
    pub indices: Vec<u16>,
}

/// Why a window could not be meshed.
#[derive(Copy, Clone, Debug, PartialEq, Eq)]
pub enum MeshError {
    /// More vertices than 16-bit indices can address.
    TooManyVertices { vertices: usize },
    /// The largest index does not name the last vertex (no triangle could be formed).
    IndexMismatch { vertices: usize, max_index: usize },
}

/// Number of samples `lo, lo + lod, ...` below `hi`.
pub open spec fn sample_count(lo: int, hi: int, lod: int) -> int {
    if hi > lo {
        (hi - lo - 1) / lod + 1
    } else {
        0
    }
}

/// Number of quads in a mesh of `ncols` by `nrows` samples.
pub open spec fn quad_count(ncols: int, nrows: int) -> int {
    if ncols >= 2 && nrows >= 2 {
        (ncols - 1) * (nrows - 1)
    } else {
        0
    }
}

/// The two triangles of the quad whose top-left sample is `(ix, iz)`, as
/// mesh vertex numbers. Even grid rows split along the top-right to bottom-left
/// diagonal and odd grid rows along the other, matching the half-column shift.
pub open spec fn quad_indices(ncols: int, ix: int, iz: int, odd_row: bool) -> Seq<int> {
    let a = iz * ncols + ix;
    let b = iz * ncols + ix + 1;
    let c = (iz + 1) * ncols + ix;
    let d = (iz + 1) * ncols + ix + 1;
    if !odd_row {
        seq![a, c, b, b, c, d]
    } else {
        seq![a, d, b, a, c, d]
    }
}

/// Entry `k` of the index list: quads go row by row, six entries each. The
/// diagonal follows the parity of the undecimated grid row `top + iz * lod`.
pub open spec fn mesh_index(ncols: int, top: int, lod: int, k: int) -> int {
    let q = k / 6;
    let ix = q % (ncols - 1);
    let iz = q / (ncols - 1);
    quad_indices(ncols, ix, iz, (top + iz * lod) % 2 == 1)[k % 6]
}

/// Grid index sampled by mesh vertex `k`.
pub open spec fn mesh_vertex(width: int, ncols: int, left: int, top: int, lod: int, k: int) -> int {
    index_of(width, left + (k % ncols) * lod, top + (k / ncols) * lod)
}

/// The largest index of a list is `n - 1`: every entry is below `n` and one equals it.
pub open spec fn max_index_is_last(indices: Seq<u16>, n: int) -> bool {
    &&& forall|i: int| 0 <= i < indices.len() ==> indices[i] < n
    &&& exists|i: int| 0 <= i < indices.len() && indices[i] == n - 1
}

proof fn lemma_div_mod_pair(k: int, n: int, q: int, r: int)
    requires
        n > 0,
        0 <= r < n,
        k == q * n + r,
    ensures
        k / n == q,
        k % n == r,
{
    vstd::arithmetic::div_mod::lemma_fundamental_div_mod_converse(k, n, q, r);
}

proof fn lemma_sample_bound(lo: int, hi: int, lod: int, i: int)
    requires
        lod > 0,
        0 <= i < sample_count(lo, hi, lod),
    ensures
        lo + i * lod < hi,
{
    let m = (hi - lo - 1) / lod;
    assert(i <= m);
    assert(m * lod <= hi - lo - 1) by (nonlinear_arith)
        requires lod > 0, m == (hi - lo - 1) / lod, hi - lo - 1 >= 0;
    assert(i * lod <= m * lod) by (nonlinear_arith)
        requires 0 <= i <= m, lod > 0;
}

proof fn lemma_sample_count_bound(lo: int, hi: int, lod: int)
    requires
        lod > 0,
    ensures
        0 <= sample_count(lo, hi, lod),
        hi > lo ==> sample_count(lo, hi, lod) <= hi - lo,
        hi <= lo ==> sample_count(lo, hi, lod) == 0,
{
    if hi > lo {
        assert((hi - lo - 1) / lod <= hi - lo - 1) by (nonlinear_arith)
            requires lod > 0, hi - lo - 1 >= 0;
    }
}

proof fn lemma_quad_in_range(ncols: int, nrows: int, top: int, lod: int, k: int)
    requires
        ncols >= 2,
        nrows >= 2,
        0 <= k < 6 * quad_count(ncols, nrows),
    ensures
        0 <= mesh_index(ncols, top, lod, k) < ncols * nrows,
        k == 6 * quad_count(ncols, nrows) - 1 ==> mesh_index(ncols, top, lod, k) == ncols * nrows - 1,
{
    let q = k / 6;
    let nq = quad_count(ncols, nrows);
    assert(0 <= q < nq);
    let ix = q % (ncols - 1);
    let iz = q / (ncols - 1);
    assert(0 <= iz < nrows - 1) by (nonlinear_arith)
        requires 0 <= q < (ncols - 1) * (nrows - 1), iz == q / (ncols - 1), ncols >= 2;
    assert(0 <= ix < ncols - 1);
    assert((iz + 1) * ncols + ix + 1 <= ncols * nrows - 1) by (nonlinear_arith)
        requires 0 <= iz < nrows - 1, 0 <= ix < ncols - 1;
    assert(0 <= iz * ncols + ix) by (nonlinear_arith)
        requires 0 <= iz, 0 <= ix, ncols >= 2;
    assert(iz * ncols + ix + 1 <= (iz + 1) * ncols + ix + 1) by (nonlinear_arith)
        requires ncols >= 2;
    assert((iz + 1) * ncols + ix <= (iz + 1) * ncols + ix + 1);
    if k == 6 * nq - 1 {
        lemma_div_mod_pair(k, 6, nq - 1, 5);
        assert(nq - 1 == (nrows - 2) * (ncols - 1) + (ncols - 2)) by (nonlinear_arith)
            requires nq == (ncols - 1) * (nrows - 1);
        lemma_div_mod_pair(nq - 1, ncols - 1, nrows - 2, ncols - 2);
        assert((nrows - 2 + 1) * ncols + (ncols - 2) + 1 == ncols * nrows - 1) by (nonlinear_arith);
    }
}

impl<H: Copy> Heightmap<H> {
    /// Mesh the window `[left_x, right_x) x [top_z, bottom_z)` (clamped to the
    /// grid), sampling every `lod`-th vertex in each direction.
    ///
    /// Mesh vertex `iz * ncols + ix` samples column `left_x + ix * lod` of row
    /// `top_z + iz * lod`; each quad of four neighbouring samples becomes two
    /// triangles. Fails when the vertex count exceeds what 16-bit indices can
    /// address, or when the largest index is not the last vertex.
    pub fn as_geometry(
        &self,
        lod: usize,
        left_x: usize,
        top_z: usize,
        right_x: usize,
        bottom_z: usize,
    ) -> (r: Result<Geometry, MeshError>)
        requires
            self.wf(),
            lod > 0,
        ensures
            ({
                let w = self.spec_width();
                let h = self.spec_rows();
                let l = if left_x < w { left_x as int } else { w };
                let t = if top_z < h { top_z as int } else { h };
                let rx = if right_x < w { right_x as int } else { w };
                let b = if bottom_z < h { bottom_z as int } else { h };
                let ncols = sample_count(l, rx, lod as int);
                let nrows = sample_count(t, b, lod as int);
                let n = ncols * nrows;
                &&& n > MAX_MESH_VERTICES ==> r == Err::<Geometry, MeshError>(
                    MeshError::TooManyVertices { vertices: n as usize },
                )
                &&& n <= MAX_MESH_VERTICES && quad_count(ncols, nrows) == 0 && n != 1 ==> r
                    == Err::<Geometry, MeshError>(
                    MeshError::IndexMismatch { vertices: n as usize, max_index: 0 },
                )
                &&& r is Ok <==> n <= MAX_MESH_VERTICES && (quad_count(ncols, nrows) > 0 || n == 1)
                &&& r matches Ok(g) ==> {
                    &&& g.vertices@.len() == n
                    &&& forall|k: int|
                        0 <= k < n ==> g.vertices@[k] == #[trigger] mesh_vertex(
                            w,
                            ncols,
                            l,
                            t,
                            lod as int,
                            k,
                        )
                    &&& g.indices@.len() == 6 * quad_count(ncols, nrows)
                    &&& forall|k: int|
                        0 <= k < g.indices@.len() ==> g.indices@[k] == #[trigger] mesh_index(
                            ncols,
                            t,
                            lod as int,
                            k,
                        )
                    &&& g.indices@.len() > 0 ==> max_index_is_last(g.indices@, n)
                }
            }),
    {
        let w = self.width();
        let h = self.height();
        let left = if left_x < w { left_x } else { w };
        let top = if top_z < h { top_z } else { h };
        let right = if right_x < w { right_x } else { w };
        let bottom = if bottom_z < h { bottom_z } else { h };
        let ncols: usize = if right > left { (right - left - 1) / lod + 1 } else { 0 };
        let nrows: usize = if bottom > top { (bottom - top - 1) / lod + 1 } else { 0 };
        proof {
            lemma_sample_count_bound(left as int, right as int, lod as int);
            lemma_sample_count_bound(top as int, bottom as int, lod as int);
            assert(ncols * nrows <= w * h) by (nonlinear_arith)
                requires ncols <= w, nrows <= h;
        }
        let n = ncols * nrows;
        if n > MAX_MESH_VERTICES {
            return Err(MeshError::TooManyVertices { vertices: n });
        }
        if !(ncols >= 2 && nrows >= 2) && n != 1 {
            return Err(MeshError::IndexMismatch { vertices: n, max_index: 0 });
        }
        proof {
            if n == 1 {
                assert(ncols == 1 && nrows == 1) by (nonlinear_arith)
                    requires ncols * nrows == 1;
            }
        }
        // Vertices, row by row.
        let mut vertices: Vec<usize> = Vec::with_capacity(n);
        let mut iz: usize = 0;
        while iz < nrows
            invariant
                self.wf(),
                w == self.spec_width(),
                h == self.spec_rows(),
                0 <= iz <= nrows,
                ncols * nrows == n,
                n <= MAX_MESH_VERTICES,
                left <= right <= w,
                top <= bottom <= h,
                lod > 0,
                ncols == sample_count(left as int, right as int, lod as int),
                nrows == sample_count(top as int, bottom as int, lod as int),
                vertices@.len() == iz * ncols,
                forall|k: int|
                    0 <= k < vertices@.len() ==> vertices@[k] == #[trigger] mesh_vertex(
                        w as int,
                        ncols as int,
                        left as int,
                        top as int,
                        lod as int,
                        k,
                    ),
            decreases nrows - iz,
        {
            proof {
                lemma_sample_bound(top as int, bottom as int, lod as int, iz as int);
            }
            let z = top + iz * lod;
            let mut ix: usize = 0;
            while ix < ncols
                invariant
                    self.wf(),
                    w == self.spec_width(),
                    h == self.spec_rows(),
                    0 <= iz < nrows,
                    0 <= ix <= ncols,
                    ncols * nrows == n,
                    n <= MAX_MESH_VERTICES,
                    left <= right <= w,
                    top <= bottom <= h,
                    lod > 0,
                    z == top + iz * lod,
                    z < h,
                    ncols == sample_count(left as int, right as int, lod as int),
                    nrows == sample_count(top as int, bottom as int, lod as int),
                    vertices@.len() == iz * ncols + ix,
                    forall|k: int|
                        0 <= k < vertices@.len() ==> vertices@[k] == #[trigger] mesh_vertex(
                            w as int,
                            ncols as int,
                            left as int,
                            top as int,
                            lod as int,
                            k,
                        ),
                decreases ncols - ix,
            {
                proof {
                    lemma_sample_bound(left as int, right as int, lod as int, ix as int);
                    lemma_div_mod_pair((iz * ncols + ix) as int, ncols as int, iz as int, ix as int);
                    assert(iz * ncols + ix < n) by (nonlinear_arith)
                        requires iz < nrows, ix < ncols, n == ncols * nrows;
                }
                let x = left + ix * lod;
                let index = self.get_index(x, z);
                vertices.push(index);
                ix += 1;
            }
            proof {
                assert(iz * ncols + ncols == (iz + 1) * ncols) by (nonlinear_arith);
            }
            iz += 1;
        }
        assert(vertices@.len() == n) by {
            assert(nrows * ncols == ncols * nrows) by (nonlinear_arith);
        }
        // Triangles, quad by quad.
        let mut indices: Vec<u16> = Vec::new();
        if ncols >= 2 && nrows >= 2 {
            let mut iz: usize = 0;
            while iz < nrows - 1
                invariant
                    2 <= ncols,
                    2 <= nrows,
                    ncols * nrows == n,
                    n <= MAX_MESH_VERTICES,
                    lod > 0,
                    top <= bottom <= h,
                    nrows == sample_count(top as int, bottom as int, lod as int),
                    0 <= iz <= nrows - 1,
                    indices@.len() == 6 * (iz * (ncols - 1)),
                    forall|k: int|
                        0 <= k < indices@.len() ==> indices@[k] == #[trigger] mesh_index(
                            ncols as int,
                            top as int,
                            lod as int,
                            k,
                        ),
                decreases nrows - 1 - iz,
            {
                let mut ix: usize = 0;
                proof {
                    lemma_sample_bound(top as int, bottom as int, lod as int, iz as int);
                }
                let odd = (top + iz * lod) % 2 == 1;
                while ix < ncols - 1
                    invariant
                        2 <= ncols,
                        2 <= nrows,
                        ncols * nrows == n,
                        n <= MAX_MESH_VERTICES,
                        0 <= iz < nrows - 1,
                        0 <= ix <= ncols - 1,
                        odd == ((top + iz * lod) % 2 == 1),
                        indices@.len() == 6 * (iz * (ncols - 1) + ix),
                        forall|k: int|
                            0 <= k < indices@.len() ==> indices@[k] == #[trigger] mesh_index(
                                ncols as int,
                                top as int,
                                lod as int,
                                k,
                            ),
                    decreases ncols - 1 - ix,
                {
                    let ghost q = iz * (ncols - 1) + ix;
                    proof {
                        lemma_div_mod_pair(q as int, (ncols - 1) as int, iz as int, ix as int);
                        assert((iz + 1) * ncols + ix + 1 <= n - 1) by (nonlinear_arith)
                            requires iz < nrows - 1, ix < ncols - 1, n == ncols * nrows;
                        assert(iz * ncols <= (iz + 1) * ncols) by (nonlinear_arith)
                            requires ncols >= 2;
                        assert((iz + 1) * ncols == iz * ncols + ncols) by (nonlinear_arith);
                    }
                    let a = (iz * ncols + ix) as u16;
                    let b = (iz * ncols + ix + 1) as u16;
                    let c = ((iz + 1) * ncols + ix) as u16;
                    let d = ((iz + 1) * ncols + ix + 1) as u16;
                    let ghost before = indices@;
                    if !odd {
                        indices.push(a);
                        indices.push(c);
                        indices.push(b);
                        indices.push(b);
                        indices.push(c);
                        indices.push(d);
                    } else {
                        indices.push(a);
                        indices.push(d);
                        indices.push(b);
                        indices.push(a);
                        indices.push(c);
                        indices.push(d);
                    }
                    proof {
                        assert forall|k: int| 0 <= k < indices@.len() implies indices@[k]
                            == #[trigger] mesh_index(ncols as int, top as int, lod as int, k) by {
                            if k >= before.len() {
                                lemma_div_mod_pair(k, 6, q, k - 6 * q);
                            }
                        }
                    }
                    ix += 1;
                }
                proof {
                    assert(6 * (iz * (ncols - 1) + (ncols - 1)) == 6 * ((iz + 1) * (ncols - 1)))
                        by (nonlinear_arith);
                }
                iz += 1;
            }
        }
        proof {
            if ncols >= 2 && nrows >= 2 {
                let nq = quad_count(ncols as int, nrows as int);
                assert((nrows - 1) * (ncols - 1) == nq) by (nonlinear_arith)
                    requires nq == (ncols - 1) * (nrows - 1);
                assert(indices@.len() == 6 * nq);
                assert(nq >= 1) by (nonlinear_arith)
                    requires nq == (ncols - 1) * (nrows - 1), ncols >= 2, nrows >= 2;
                assert forall|i: int| 0 <= i < indices@.len() implies indices@[i] < n by {
                    lemma_quad_in_range(ncols as int, nrows as int, top as int, lod as int, i);
                }
                lemma_quad_in_range(ncols as int, nrows as int, top as int, lod as int, 6 * nq - 1);
                assert(indices@[6 * nq - 1] == n - 1);
            }
        }
        Ok(Geometry { vertices, indices })
    }
}

} // verus!

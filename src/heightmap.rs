//! A rectangular grid of height samples laid out as staggered rows of
//! equilateral triangles: every odd row is shifted half a column to the right.
use vstd::prelude::*;

verus! {

/// Fixed-point steps per lattice unit in `GridPos`.
pub const SUBDIVISION: i64 = 1024;

/// Largest number of samples a grid may hold.
pub const MAX_SAMPLES: usize = 0x3FFF_FFFF;

/// A point of the terrain plane in the grid's own frame, in fixed point.
///
/// `x` counts `1 / SUBDIVISION` of half a column from the first vertex of row
/// zero; `z` counts `1 / SUBDIVISION` of a row. World coordinates map to this
/// frame by subtracting the grid's offset, dividing by its resolution (and, on
/// the z axis, by the row spacing `tan(pi / 3) / 2`), then scaling: the frame
/// is an affine image of the world plane with positive scale on both axes.
#[derive(Copy, Clone, Debug, PartialEq, Eq)]
pub struct GridPos {
    pub x: i64,
    pub z: i64,
}

impl GridPos {
    /// A point from its fixed-point coordinates.
    pub fn new(x: i64, z: i64) -> (r: GridPos)
        ensures
            r.x == x,
            r.z == z,
    {
        GridPos { x, z }
    }
}

/// Parity of row `z`: 1 for the shifted (odd) rows.
pub open spec fn row_parity(z: int) -> int {
    z % 2
}

/// Lattice x of the vertex in column `x` of row `z`.
pub open spec fn lattice_x(x: int, z: int) -> int {
    (2 * x + row_parity(z)) * SUBDIVISION
}

/// Lattice z of the vertices of row `z`.
pub open spec fn lattice_z(z: int) -> int {
    z * SUBDIVISION
}

/// Row of the nearest vertex north of `p` (floor).
pub open spec fn row_of(p: GridPos) -> int {
    p.z as int / SUBDIVISION as int
}

/// Column of the nearest vertex north-west of `p` (floor), within row `row_of(p)`.
pub open spec fn col_of(p: GridPos) -> int {
    (p.x as int / SUBDIVISION as int - row_parity(row_of(p))) / 2
}

/// Row-major index of column `x`, row `z`.
pub open spec fn index_of(width: int, x: int, z: int) -> int {
    x + z * width
}

/// Lattice position of the vertex with index `i` in a grid `width` samples wide.
pub open spec fn vertex_pos(width: int, i: int) -> GridPos {
    GridPos {
        x: lattice_x(i % width, i / width) as i64,
        z: lattice_z(i / width) as i64,
    }
}

/// Column `x`, row `z` is a vertex of a grid `width` by `rows`.
pub open spec fn in_grid(width: int, rows: int, c: (int, int)) -> bool {
    0 <= c.0 < width && 0 <= c.1 < rows
}

/// Candidate neighbour `k` (of six) of column `x`, row `z`: the two above,
/// the two below, then left and right. Even rows reach down-left and up-left,
/// odd rows down-right and up-right, following the half-column shift.
pub open spec fn neighbor_candidate(x: int, z: int, k: int) -> (int, int) {
    let dz = if k < 2 { -1int } else if k < 4 { 1int } else { 0int };
    let dx = if k == 4 {
        -1int
    } else if k == 5 {
        1int
    } else if row_parity(z) == 0 {
        if k % 2 == 0 { -1int } else { 0int }
    } else {
        if k % 2 == 0 { 0int } else { 1int }
    };
    (x + dx, z + dz)
}

/// `s` followed by `c` when `c` lies in the grid.
pub open spec fn push_in_grid(width: int, rows: int, s: Seq<(int, int)>, c: (int, int)) -> Seq<(int, int)> {
    if in_grid(width, rows, c) {
        s.push(c)
    } else {
        s
    }
}

/// The first `k` candidates around column `x`, row `z` that lie in the grid.
pub open spec fn adjacent_prefix(width: int, rows: int, x: int, z: int, k: nat) -> Seq<(int, int)>
    decreases k,
{
    if k == 0 {
        Seq::empty()
    } else {
        push_in_grid(
            width,
            rows,
            adjacent_prefix(width, rows, x, z, (k - 1) as nat),
            neighbor_candidate(x, z, k - 1),
        )
    }
}

/// Neighbours of column `x`, row `z`, in emission order: the candidates that
/// lie in the grid.
pub open spec fn adjacent_coords(width: int, rows: int, x: int, z: int) -> Seq<(int, int)> {
    adjacent_prefix(width, rows, x, z, 6)
}

/// Two vertices share an edge of the staggered triangulation.
pub open spec fn is_adjacent(x1: int, z1: int, x2: int, z2: int) -> bool {
    ||| z1 == z2 && (x2 == x1 - 1 || x2 == x1 + 1)
    ||| (z2 == z1 - 1 || z2 == z1 + 1) && (if row_parity(z1) == 0 {
        x2 == x1 - 1 || x2 == x1
    } else {
        x2 == x1 || x2 == x1 + 1
    })
}

/// The triangle under `p`, as vertex indices in a grid `width` by `rows`.
///
/// With A the nearest vertex north-west of `p`, B the next vertex of its row,
/// D the vertex below A towards B, C the vertex left of D and E the vertex right
/// of D, the quad splits into three triangles:
///
/// ```text
///    A-----B
///   /|\ 2 /|\
///  / |1\ /3| \
/// C--k--D--l--E
/// ```
///
/// In lattice units D lies one half column right of A and one row down, so the
/// line A-D has slope 1 and the line B-D slope -1. Triangle 1 (A, D, C) takes
/// the points strictly below A-D; triangle 2 (A, B, D) the rest strictly above
/// B-D; triangle 3 (B, E, D) what remains. `None` when a vertex of that
/// triangle lies outside the grid.
pub open spec fn tri_at(width: int, rows: int, p: GridPos) -> Option<(int, int, int)> {
    let r = row_of(p);
    let c = col_of(p);
    let dc = c + row_parity(r);
    let du = p.x - lattice_x(c, r);
    let dv = p.z - lattice_z(r);
    let a = index_of(width, c, r);
    let d = index_of(width, dc, r + 1);
    if !(0 <= r && r + 1 < rows && 0 <= c && dc < width) {
        None
    } else if dv > du {
        if dc >= 1 {
            Some((a, d, d - 1))
        } else {
            None
        }
    } else if dv < 2 * SUBDIVISION - du {
        if c + 1 < width {
            Some((a, a + 1, d))
        } else {
            None
        }
    } else if dc + 1 < width {
        Some((a + 1, d + 1, d))
    } else {
        None
    }
}

/// Twice the signed area of the triangle `a`, `b`, `p` in lattice units:
/// positive when `p` lies to one side of the line from `a` to `b`, negative on
/// the other, zero on it.
pub open spec fn orient(a: GridPos, b: GridPos, p: GridPos) -> int {
    (b.x - a.x) * (p.z - a.z) - (b.z - a.z) * (p.x - a.x)
}

/// `p` lies in the closed triangle `a`, `b`, `c`.
pub open spec fn in_triangle(p: GridPos, a: GridPos, b: GridPos, c: GridPos) -> bool {
    ||| orient(a, b, p) >= 0 && orient(b, c, p) >= 0 && orient(c, a, p) >= 0
    ||| orient(a, b, p) <= 0 && orient(b, c, p) <= 0 && orient(c, a, p) <= 0
}

/// Height level of a raster cell: the sum of its first three channels.
pub open spec fn cell_level(c: (u8, u8, u8, u8)) -> int {
    c.0 as int + c.1 as int + c.2 as int
}

/// A raster whose rows all have the length of the first.
pub open spec fn raster_is_rectangular(map: Seq<Vec<(u8, u8, u8, u8)>>) -> bool {
    forall|i: int| 0 <= i < map.len() ==> (#[trigger] map[i])@.len() == map[0]@.len()
}

/// A grid of height samples of type `H`, `width` samples to a row.
pub struct Heightmap<H> {
    width: usize,
    heights: Vec<H>,
}

impl<H: Copy> Heightmap<H> {
    /// Samples per row.
    pub closed spec fn spec_width(&self) -> int {
        self.width as int
    }

    /// Number of rows.
    pub closed spec fn spec_rows(&self) -> int {
        self.heights@.len() as int / self.width as int
    }

    /// All samples, row after row.
    pub closed spec fn samples(&self) -> Seq<H> {
        self.heights@
    }

    /// Well-formed: a positive width, whole rows, and a bounded number of samples.
    pub closed spec fn wf(&self) -> bool {
        &&& 0 < self.width <= MAX_SAMPLES
        &&& self.heights@.len() as int % self.width as int == 0
        &&& self.heights@.len() <= MAX_SAMPLES
    }

    /// Size bounds of a well-formed grid.
    pub proof fn lemma_shape(&self)
        requires
            self.wf(),
        ensures
            self.samples().len() == self.spec_width() * self.spec_rows(),
            0 < self.spec_width() <= MAX_SAMPLES,
            0 <= self.spec_rows() <= MAX_SAMPLES,
            self.spec_width() * self.spec_rows() <= MAX_SAMPLES,
    {
        let w = self.width as int;
        let n = self.heights@.len() as int;
        assert(n == w * (n / w) + n % w) by (nonlinear_arith)
            requires w > 0;
        assert(n / w >= 0) by (nonlinear_arith)
            requires w > 0, n >= 0;
        assert(n / w <= n) by (nonlinear_arith)
            requires w > 0, n >= 0;
    }

    /// A grid of `width` by `height` samples, all equal to `fill`.
    pub fn with_size(width: usize, height: usize, fill: H) -> (r: Heightmap<H>)
        requires
            0 < width <= MAX_SAMPLES,
            width * height <= MAX_SAMPLES,
        ensures
            r.wf(),
            r.spec_width() == width,
            r.spec_rows() == height,
            r.samples() == Seq::new((width * height) as nat, |i: int| fill),
    {
        let n = width * height;
        let mut heights: Vec<H> = Vec::with_capacity(n);
        let mut i: usize = 0;
        while i < n
            invariant
                i <= n,
                heights@ == Seq::new(i as nat, |k: int| fill),
            decreases n - i,
        {
            heights.push(fill);
            i += 1;
        }
        assert(heights@ =~= Seq::new(n as nat, |k: int| fill));
        proof {
            let w = width as int;
            let h = height as int;
            vstd::arithmetic::div_mod::lemma_div_multiples_vanish(h, w);
            vstd::arithmetic::div_mod::lemma_mod_multiples_basic(h, w);
            assert(w * h == h * w) by (nonlinear_arith);
        }
        Heightmap { width, heights }
    }

    /// A grid holding `samples` row after row, `width` to a row; `None` when
    /// the samples do not fill whole rows.
    pub fn from_samples(width: usize, samples: Vec<H>) -> (r: Option<Heightmap<H>>)
        ensures
            r.is_some() <==> 0 < width <= MAX_SAMPLES && samples@.len() as int % width as int == 0
                && samples@.len() <= MAX_SAMPLES,
            r matches Some(g) ==> g.wf() && g.spec_width() == width && g.samples() == samples@,
    {
        if width == 0 || width > MAX_SAMPLES || samples.len() % width != 0 || samples.len() > MAX_SAMPLES {
            None
        } else {
            Some(Heightmap { width, heights: samples })
        }
    }

    /// Samples per row.
    pub fn width(&self) -> (r: usize)
        ensures
            r == self.spec_width(),
            self.wf() ==> 0 < r <= MAX_SAMPLES,
    {
        self.width
    }

    /// The height in rows of this grid.
    pub fn height(&self) -> (r: usize)
        requires
            self.wf(),
        ensures
            r == self.spec_rows(),
            self.spec_width() * r <= MAX_SAMPLES,
            self.spec_width() > 0,
    {
        proof {
            self.lemma_shape();
        }
        self.heights.len() / self.width
    }

    /// All samples, row after row.
    pub fn heights(&self) -> (r: &Vec<H>)
        ensures
            r@ == self.samples(),
    {
        &self.heights
    }

    /// Row-major index of column `x`, row `z`.
    pub fn get_index(&self, x: usize, z: usize) -> (r: usize)
        requires
            self.wf(),
            x < self.spec_width(),
            z < self.spec_rows(),
        ensures
            r == index_of(self.spec_width(), x as int, z as int),
            r < self.samples().len(),
    {
        proof {
            self.lemma_shape();
            let w = self.width as int;
            let h = self.spec_rows();
            assert(x + z * w < w * h) by (nonlinear_arith)
                requires 0 <= x < w, 0 <= z < h;
        }
        x + z * self.width
    }

    /// The sample at `index`.
    pub fn height_at(&self, index: usize) -> (r: H)
        requires
            index < self.samples().len(),
        ensures
            r == self.samples()[index as int],
    {
        self.heights[index]
    }

    /// Set the height at column `x`, row `z`.
    pub fn set_height(&mut self, x: usize, z: usize, height: H)
        requires
            old(self).wf(),
            x < old(self).spec_width(),
            z < old(self).spec_rows(),
        ensures
            final(self).wf(),
            final(self).spec_width() == old(self).spec_width(),
            final(self).spec_rows() == old(self).spec_rows(),
            final(self).samples() == old(self).samples().update(
                index_of(old(self).spec_width(), x as int, z as int),
                height,
            ),
    {
        let index = self.get_index(x, z);
        self.heights.set(index, height);
    }

    /// Lattice position of the vertex at `index`: odd rows sit half a column
    /// to the right of even rows.
    pub fn get_position(&self, index: usize) -> (r: GridPos)
        requires
            self.wf(),
            index < self.samples().len(),
        ensures
            r == vertex_pos(self.spec_width(), index as int),
            r.x == lattice_x(index as int % self.spec_width(), index as int / self.spec_width()),
            r.z == lattice_z(index as int / self.spec_width()),
    {
        let w = self.width;
        let row = index / w;
        let col = index % w;
        proof {
            self.lemma_shape();
            let wi = w as int;
            let ii = index as int;
            assert(ii / wi <= ii) by (nonlinear_arith)
                requires wi > 0, ii >= 0;
        }
        let parity = (row % 2) as i64;
        let x = (2 * (col as i64) + parity) * SUBDIVISION;
        let z = (row as i64) * SUBDIVISION;
        GridPos { x, z }
    }

    /// Index of the nearest vertex north-west of `pos`: the row is the floor
    /// of its z, the column the floor of its x less the row's half-column shift.
    pub fn get_index_from_position(&self, pos: &GridPos) -> (r: usize)
        requires
            self.wf(),
            0 <= row_of(*pos) < self.spec_rows(),
            0 <= col_of(*pos) < self.spec_width(),
        ensures
            r == index_of(self.spec_width(), col_of(*pos), row_of(*pos)),
    {
        proof {
            self.lemma_shape();
            let zi = pos.z as int;
            let xi = pos.x as int;
            if zi < 0 {
                assert(zi / 1024 < 0) by (nonlinear_arith)
                    requires zi < 0;
            }
            if xi < 0 {
                assert(xi / 1024 < 0) by (nonlinear_arith)
                    requires xi < 0;
            }
        }
        let row_wide = pos.z as u64 / SUBDIVISION as u64;
        let half_wide = pos.x as u64 / SUBDIVISION as u64;
        assert(row_wide as int == row_of(*pos));
        assert(half_wide as int - row_parity(row_of(*pos)) >= 0);
        assert(half_wide <= 2 * MAX_SAMPLES + 2);
        let row = row_wide as usize;
        let half = half_wide as usize;
        let col = (half - row % 2) / 2;
        self.get_index(col, row)
    }

    /// Indices of the vertices adjacent to column `x`, row `z`: above, below,
    /// then left and right, leaving out those beyond the grid's edges.
    pub fn get_adjacent_vertices(&self, x: usize, z: usize) -> (r: Vec<usize>)
        requires
            self.wf(),
            x < self.spec_width(),
            z < self.spec_rows(),
        ensures
            r@.len() == adjacent_coords(self.spec_width(), self.spec_rows(), x as int, z as int).len(),
            forall|k: int|
                0 <= k < r@.len() ==> {
                    let c = #[trigger] adjacent_coords(
                        self.spec_width(),
                        self.spec_rows(),
                        x as int,
                        z as int,
                    )[k];
                    r@[k] == index_of(self.spec_width(), c.0, c.1)
                },
    {
        let ghost w = self.spec_width();
        let ghost h = self.spec_rows();
        let ghost xi = x as int;
        let ghost zi = z as int;
        let mut adjacents: Vec<usize> = Vec::with_capacity(6);
        let ghost mut g = Seq::<(int, int)>::empty();
        let rows = self.height();
        let odd = z % 2 == 1;
        let mut k: usize = 0;
        while k < 6
            invariant
                self.wf(),
                w == self.spec_width(),
                h == self.spec_rows(),
                rows == h,
                xi == x,
                zi == z,
                x < w,
                z < h,
                odd == (row_parity(zi) == 1),
                0 <= k <= 6,
                adjacents@.len() == g.len(),
                forall|j: int|
                    0 <= j < g.len() ==> adjacents@[j] == index_of(w, (#[trigger] g[j]).0, g[j].1),
                forall|j: int| 0 <= j < g.len() ==> in_grid(w, h, #[trigger] g[j]),
                g == adjacent_prefix(w, h, xi, zi, k as nat),
            decreases 6 - k,
        {
            // Row offset: the first two candidates lie above, the next two below.
            let row_ok = if k < 2 {
                z >= 1
            } else if k < 4 {
                z + 1 < rows
            } else {
                true
            };
            // Column offset, which depends on the row's parity above and below.
            let step_left = k == 4 || (k < 4 && !odd && k % 2 == 0);
            let step_right = k == 5 || (k < 4 && odd && k % 2 == 1);
            let col_ok = if step_left {
                x >= 1
            } else if step_right {
                x + 1 < self.width
            } else {
                true
            };
            let ghost cand = neighbor_candidate(xi, zi, k as int);
            if row_ok && col_ok {
                let cz = if k < 2 {
                    z - 1
                } else if k < 4 {
                    z + 1
                } else {
                    z
                };
                let cx = if step_left {
                    x - 1
                } else if step_right {
                    x + 1
                } else {
                    x
                };
                assert(cand == (cx as int, cz as int));
                let index = self.get_index(cx, cz);
                adjacents.push(index);
                proof {
                    g = g.push(cand);
                }
            } else {
                assert(!in_grid(w, h, cand));
            }
            k += 1;
        }
        adjacents
    }

    /// The three vertex indices of the triangle under `pos` (see `tri_at`), or
    /// `None` where that triangle would leave the grid.
    pub fn get_tri_from_position(&self, pos: &GridPos) -> (r: Option<[usize; 3]>)
        requires
            self.wf(),
        ensures
            r.is_some() == tri_at(self.spec_width(), self.spec_rows(), *pos).is_some(),
            r matches Some(t) ==> (t[0] as int, t[1] as int, t[2] as int) == tri_at(
                self.spec_width(),
                self.spec_rows(),
                *pos,
            ).unwrap(),
    {
        let ghost w = self.spec_width();
        let ghost h = self.spec_rows();
        proof {
            self.lemma_shape();
            let zi = pos.z as int;
            let xi = pos.x as int;
            if zi < 0 {
                assert(zi / 1024 < 0) by (nonlinear_arith)
                    requires zi < 0;
            }
            if xi < 0 {
                assert(xi / 1024 < 0) by (nonlinear_arith)
                    requires xi < 0;
            }
        }
        if pos.z < 0 || pos.x < 0 {
            return None;
        }
        let rows = self.height();
        let width = self.width;
        let row_wide = pos.z as u64 / SUBDIVISION as u64;
        let half_wide = pos.x as u64 / SUBDIVISION as u64;
        assert(row_wide as int == row_of(*pos));
        if row_wide + 1 >= rows as u64 || half_wide < row_wide % 2 {
            return None;
        }
        let col_wide = (half_wide - row_wide % 2) / 2;
        assert(col_wide as int == col_of(*pos));
        let d_col_wide = col_wide + row_wide % 2;
        if d_col_wide >= width as u64 {
            return None;
        }
        let row = row_wide as usize;
        let col = col_wide as usize;
        let d_col = d_col_wide as usize;
        proof {
            assert(w * h <= MAX_SAMPLES);
            assert((row + 1) * w <= w * h) by (nonlinear_arith)
                requires row + 1 < h, w > 0;
            assert(row * w + w == (row + 1) * w) by (nonlinear_arith);
        }
        let a = self.get_index(col, row);
        let d = self.get_index(d_col, row + 1);
        let du: i64 = pos.x - (2 * (col as i64) + (row % 2) as i64) * SUBDIVISION;
        let dv: i64 = pos.z - (row as i64) * SUBDIVISION;
        if dv > du {
            if d_col >= 1 {
                Some([a, d, d - 1])
            } else {
                None
            }
        } else if dv < 2 * SUBDIVISION - du {
            if col + 1 < width {
                Some([a, a + 1, d])
            } else {
                None
            }
        } else if d_col + 1 < width {
            Some([a + 1, d + 1, d])
        } else {
            None
        }
    }
}

/// What the neighbour list of a vertex holds: exactly the grid vertices that
/// share an edge with it.
pub proof fn lemma_adjacent_contains(width: int, rows: int, x: int, z: int, c: (int, int))
    requires
        in_grid(width, rows, (x, z)),
    ensures
        adjacent_coords(width, rows, x, z).contains(c) <==> in_grid(width, rows, c) && is_adjacent(
            x,
            z,
            c.0,
            c.1,
        ),
{
    broadcast use vstd::seq_lib::lemma_seq_contains_after_push, vstd::seq_lib::lemma_seq_empty_contains_nothing;

    let s0 = adjacent_prefix(width, rows, x, z, 0);
    let s1 = adjacent_prefix(width, rows, x, z, 1);
    let s2 = adjacent_prefix(width, rows, x, z, 2);
    let s3 = adjacent_prefix(width, rows, x, z, 3);
    let s4 = adjacent_prefix(width, rows, x, z, 4);
    let s5 = adjacent_prefix(width, rows, x, z, 5);
    let s6 = adjacent_prefix(width, rows, x, z, 6);
    assert(!s0.contains(c));
    assert(s1.contains(c) <==> in_grid(width, rows, c) && c == neighbor_candidate(x, z, 0));
    assert(s2.contains(c) <==> s1.contains(c) || in_grid(width, rows, c) && c == neighbor_candidate(x, z, 1));
    assert(s3.contains(c) <==> s2.contains(c) || in_grid(width, rows, c) && c == neighbor_candidate(x, z, 2));
    assert(s4.contains(c) <==> s3.contains(c) || in_grid(width, rows, c) && c == neighbor_candidate(x, z, 3));
    assert(s5.contains(c) <==> s4.contains(c) || in_grid(width, rows, c) && c == neighbor_candidate(x, z, 4));
    assert(s6.contains(c) <==> s5.contains(c) || in_grid(width, rows, c) && c == neighbor_candidate(x, z, 5));
}

/// Adjacency is symmetric: if `(x2, z2)` is among the neighbours of
/// `(x1, z1)`, then `(x1, z1)` is among the neighbours of `(x2, z2)`.
pub proof fn lemma_adjacency_symmetric(width: int, rows: int, x1: int, z1: int, x2: int, z2: int)
    requires
        in_grid(width, rows, (x1, z1)),
        adjacent_coords(width, rows, x1, z1).contains((x2, z2)),
    ensures
        adjacent_coords(width, rows, x2, z2).contains((x1, z1)),
{
    lemma_adjacent_contains(width, rows, x1, z1, (x2, z2));
    lemma_adjacent_contains(width, rows, x2, z2, (x1, z1));
}

/// Round trip between indices and positions: for every vertex index `i` of a
/// well-formed grid, the position of `i` lies in the grid and resolves back to `i`.
pub proof fn lemma_position_round_trip<H: Copy>(g: &Heightmap<H>, i: int)
    requires
        g.wf(),
        0 <= i < g.samples().len(),
    ensures
        0 <= row_of(vertex_pos(g.spec_width(), i)) < g.spec_rows(),
        0 <= col_of(vertex_pos(g.spec_width(), i)) < g.spec_width(),
        index_of(
            g.spec_width(),
            col_of(vertex_pos(g.spec_width(), i)),
            row_of(vertex_pos(g.spec_width(), i)),
        ) == i,
{
    g.lemma_shape();
    let w = g.spec_width();
    let h = g.spec_rows();
    let r = i / w;
    let c = i % w;
    assert(i == c + r * w && 0 <= c < w && 0 <= r < h) by (nonlinear_arith)
        requires w > 0, 0 <= i < w * h, r == i / w, c == i % w;
    assert(r <= i) by (nonlinear_arith)
        requires w > 0, 0 <= i, r == i / w;
    let p = vertex_pos(w, i);
    let par = row_parity(r);
    assert(0 <= par < 2);
    assert(p.z as int == r * 1024);
    assert(p.x as int == (2 * c + par) * 1024);
    assert((r * 1024) / 1024 == r) by (nonlinear_arith);
    assert(((2 * c + par) * 1024) / 1024 == 2 * c + par) by (nonlinear_arith);
    assert((2 * c + par - par) / 2 == c);
}

impl Heightmap<u16> {
    /// Height levels of a raster: `map[x][z]` gives the sample at column `x`,
    /// row `z`, whose level is the sum of its first three channels (0 to 765;
    /// dividing by 768 normalises it below 1). `None` for an empty raster.
    pub fn from_map(map: &Vec<Vec<(u8, u8, u8, u8)>>) -> (r: Option<Heightmap<u16>>)
        requires
            raster_is_rectangular(map@),
            map@.len() > 0 ==> map@.len() <= MAX_SAMPLES && map@.len() * map@[0]@.len() <= MAX_SAMPLES,
        ensures
            r.is_some() <==> map@.len() > 0,
            r matches Some(g) ==> {
                &&& g.wf()
                &&& g.spec_width() == map@.len()
                &&& g.spec_rows() == map@[0]@.len()
                &&& forall|x: int, z: int|
                    0 <= x < g.spec_width() && 0 <= z < g.spec_rows() ==> g.samples()[index_of(
                        g.spec_width(),
                        x,
                        z,
                    )] == cell_level(#[trigger] map@[x]@[z])
            },
    {
        let width = map.len();
        if width == 0 {
            return None;
        }
        let height = map[0].len();
        let mut samples: Vec<u16> = Vec::with_capacity(width * height);
        let mut z: usize = 0;
        while z < height
            invariant
                width == map@.len(),
                height == map@[0]@.len(),
                0 < width <= MAX_SAMPLES,
                width * height <= MAX_SAMPLES,
                raster_is_rectangular(map@),
                0 <= z <= height,
                samples@.len() == z * width,
                forall|k: int|
                    0 <= k < samples@.len() ==> samples@[k] == cell_level(
                        #[trigger] map@[k % width as int]@[k / width as int],
                    ),
            decreases height - z,
        {
            let mut x: usize = 0;
            while x < width
                invariant
                    width == map@.len(),
                    height == map@[0]@.len(),
                    0 < width <= MAX_SAMPLES,
                    width * height <= MAX_SAMPLES,
                    raster_is_rectangular(map@),
                    0 <= z < height,
                    0 <= x <= width,
                    samples@.len() == z * width + x,
                    forall|k: int|
                        0 <= k < samples@.len() ==> samples@[k] == cell_level(
                            #[trigger] map@[k % width as int]@[k / width as int],
                        ),
                decreases width - x,
            {
                assert(map@[x as int]@.len() == height);
                let cell = map[x][z];
                let level = cell.0 as u16 + cell.1 as u16 + cell.2 as u16;
                proof {
                    vstd::arithmetic::div_mod::lemma_fundamental_div_mod_converse(
                        (z * width + x) as int,
                        width as int,
                        z as int,
                        x as int,
                    );
                }
                samples.push(level);
                x += 1;
            }
            proof {
                assert(z * width + width == (z + 1) * width) by (nonlinear_arith);
            }
            z += 1;
        }
        proof {
            assert(height * width == width * height) by (nonlinear_arith);
            vstd::arithmetic::div_mod::lemma_mod_multiples_basic(height as int, width as int);
            vstd::arithmetic::div_mod::lemma_div_multiples_vanish(height as int, width as int);
        }
        let r = Heightmap { width, heights: samples };
        proof {
            assert forall|x: int, z: int|
                0 <= x < r.spec_width() && 0 <= z < r.spec_rows() implies r.samples()[index_of(
                r.spec_width(),
                x,
                z,
            )] == cell_level(#[trigger] map@[x]@[z]) by {
                let k = x + z * width;
                assert(r.spec_rows() == height);
                assert(k < width * height) by (nonlinear_arith)
                    requires 0 <= x < width, 0 <= z < height, k == x + z * width;
                assert(z * width == width * z) by (nonlinear_arith);
                vstd::arithmetic::div_mod::lemma_fundamental_div_mod_converse(k, width as int, z, x);
            }
        }
        Some(r)
    }
}

/// How many neighbours a vertex has: six inside the grid, two at the top-left
/// corner, four along the top edge, and between two and five anywhere on the
/// border of a grid at least two vertices wide and high.
pub proof fn lemma_adjacent_count(width: int, rows: int, x: int, z: int)
    requires
        in_grid(width, rows, (x, z)),
        width >= 2,
        rows >= 2,
    ensures
        0 < x < width - 1 && 0 < z < rows - 1 ==> adjacent_coords(width, rows, x, z).len() == 6,
        x == 0 && z == 0 ==> adjacent_coords(width, rows, x, z).len() == 2,
        0 < x < width - 1 && z == 0 ==> adjacent_coords(width, rows, x, z).len() == 4,
        x == width - 1 && z == rows - 1 && row_parity(z) == 1 ==> adjacent_coords(width, rows, x, z).len() == 2,
        x == 0 && z == rows - 1 && row_parity(z) == 0 ==> adjacent_coords(width, rows, x, z).len() == 2,
        2 <= adjacent_coords(width, rows, x, z).len() <= 6,
        !(0 < x < width - 1 && 0 < z < rows - 1) ==> adjacent_coords(width, rows, x, z).len() <= 5,
{
    reveal_with_fuel(adjacent_prefix, 7);
}

proof fn lemma_vertex_pos_of(width: int, x: int, z: int)
    requires
        0 <= x < width,
        0 <= z,
        lattice_x(x, z) <= i64::MAX,
        lattice_z(z) <= i64::MAX,
    ensures
        vertex_pos(width, index_of(width, x, z)).x == lattice_x(x, z),
        vertex_pos(width, index_of(width, x, z)).z == lattice_z(z),
{
    assert(index_of(width, x, z) == z * width + x);
    vstd::arithmetic::div_mod::lemma_fundamental_div_mod_converse(index_of(width, x, z), width, z, x);
    assert(lattice_x(x, z) >= 0) by (nonlinear_arith)
        requires x >= 0, z >= 0, lattice_x(x, z) == (2 * x + z % 2) * 1024;
    assert(lattice_z(z) >= 0) by (nonlinear_arith)
        requires z >= 0, lattice_z(z) == z * 1024;
}

/// The triangle that the spatial query returns contains the query point:
/// whenever `tri_at` gives vertices `(i, j, k)`, `p` lies in the closed
/// triangle of their lattice positions.
pub proof fn lemma_tri_contains_point(width: int, rows: int, p: GridPos)
    requires
        0 < width,
        0 <= rows,
        width * rows <= MAX_SAMPLES,
        tri_at(width, rows, p) is Some,
    ensures
        ({
            let t = tri_at(width, rows, p).unwrap();
            in_triangle(p, vertex_pos(width, t.0), vertex_pos(width, t.1), vertex_pos(width, t.2))
        }),
{
    let r = row_of(p);
    let c = col_of(p);
    let par = row_parity(r);
    let dc = c + par;
    let s = SUBDIVISION as int;
    assert(0 <= par < 2);
    assert(row_parity(r + 1) == 1 - par);
    // The point lies within the cell that starts at A.
    let h = p.x as int / s;
    assert(r * s <= p.z < r * s + s) by (nonlinear_arith)
        requires r == p.z as int / s, s == 1024;
    assert(h * s <= p.x < h * s + s) by (nonlinear_arith)
        requires h == p.x as int / s, s == 1024;
    assert(c == (h - par) / 2);
    assert(2 * c + par <= h < 2 * c + par + 2);
    assert(2 * c * s + par * s <= h * s) by (nonlinear_arith)
        requires 2 * c + par <= h, s == 1024;
    assert(h * s + s <= 2 * c * s + par * s + 2 * s) by (nonlinear_arith)
        requires h + 1 <= 2 * c + par + 2, s == 1024;
    let ax = lattice_x(c, r);
    let az = lattice_z(r);
    assert(ax == 2 * c * s + par * s) by (nonlinear_arith)
        requires ax == (2 * c + par) * 1024, s == 1024;
    assert(az == r * s);
    let du = p.x - ax;
    let dv = p.z - az;
    assert(0 <= du < 2 * s);
    assert(0 <= dv < s);
    // Bounds that keep every lattice coordinate within i64.
    assert(r + 1 < rows && rows <= MAX_SAMPLES) by (nonlinear_arith)
        requires r + 1 < rows, width >= 1, width * rows <= MAX_SAMPLES;
    assert(width <= MAX_SAMPLES) by (nonlinear_arith)
        requires width >= 1, rows >= 1, width * rows <= MAX_SAMPLES;
    let a = vertex_pos(width, index_of(width, c, r));
    lemma_vertex_pos_of(width, c, r);
    assert(a.x == ax && a.z == az);
    let d = vertex_pos(width, index_of(width, dc, r + 1));
    lemma_vertex_pos_of(width, dc, r + 1);
    assert(d.x == ax + s && d.z == az + s);
    if dv > du {
        let cc = vertex_pos(width, index_of(width, dc - 1, r + 1));
        lemma_vertex_pos_of(width, dc - 1, r + 1);
        assert(index_of(width, dc - 1, r + 1) == index_of(width, dc, r + 1) - 1);
        assert(cc.x == ax - s && cc.z == az + s);
        assert(orient(a, d, p) >= 0 && orient(d, cc, p) >= 0 && orient(cc, a, p) >= 0) by (nonlinear_arith)
            requires
                a.x == ax, a.z == az, d.x == ax + s, d.z == az + s, cc.x == ax - s, cc.z == az + s,
                du == p.x - ax, dv == p.z - az, 0 <= du, du < dv, dv < s, s == 1024;
    } else {
        let b = vertex_pos(width, index_of(width, c + 1, r));
        if dv < 2 * s - du {
            lemma_vertex_pos_of(width, c + 1, r);
            assert(index_of(width, c + 1, r) == index_of(width, c, r) + 1);
            assert(b.x == ax + 2 * s && b.z == az);
            assert(orient(a, b, p) >= 0 && orient(b, d, p) >= 0 && orient(d, a, p) >= 0) by (nonlinear_arith)
                requires
                    a.x == ax, a.z == az, d.x == ax + s, d.z == az + s, b.x == ax + 2 * s, b.z == az,
                    du == p.x - ax, dv == p.z - az, 0 <= dv, dv <= du, dv < 2 * s - du, s == 1024;
        } else {
            lemma_vertex_pos_of(width, c + 1, r);
            assert(index_of(width, c + 1, r) == index_of(width, c, r) + 1);
            assert(b.x == ax + 2 * s && b.z == az);
            let e = vertex_pos(width, index_of(width, dc + 1, r + 1));
            lemma_vertex_pos_of(width, dc + 1, r + 1);
            assert(index_of(width, dc + 1, r + 1) == index_of(width, dc, r + 1) + 1);
            assert(e.x == ax + 3 * s && e.z == az + s);
            assert(orient(b, e, p) >= 0 && orient(e, d, p) >= 0 && orient(d, b, p) >= 0) by (nonlinear_arith)
                requires
                    b.x == ax + 2 * s, b.z == az, e.x == ax + 3 * s, e.z == az + s, d.x == ax + s, d.z == az + s,
                    du == p.x - ax, dv == p.z - az, 0 <= dv, dv < s, du < 2 * s, dv >= 2 * s - du, s == 1024;
        }
    }
}

} // verus!

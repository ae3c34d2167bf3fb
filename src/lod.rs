//! Distance-based level of detail over fixed-size tiles of a height grid.
//!
//! The grid is cut into square tiles of `tile_size` vertices; each tile holds
//! the decimation stride its mesh was last built at. The viewer's position
//! decides a stride per tile; tiles are rebuilt only when their stride
//! changes, and strides are recomputed only when the viewer leaves the
//! current dead band around the place of the last recomputation.
use vstd::prelude::*;
use crate::heightmap::{GridPos, Heightmap, MAX_SAMPLES, SUBDIVISION};

verus! {

/// Tile size used by `SimpleHeightmap::with_size`.
pub const DEFAULT_TILE_SIZE: usize = 256;

/// Largest tile size.
pub const MAX_TILE_SIZE: usize = 0x10_0000;

/// Half of `SUBDIVISION`: lattice steps in half a row.
pub const HALF_SUBDIVISION: i64 = 512;

/// Largest magnitude of a viewer coordinate in lattice steps.
pub const MAX_COORD: i64 = 0x2000_0000_0000_0000;

/// Both coordinates of `p` lie within `MAX_COORD`.
pub open spec fn coord_in_range(p: GridPos) -> bool {
    -MAX_COORD <= p.x <= MAX_COORD && -MAX_COORD <= p.z <= MAX_COORD
}

/// Lattice centre of the `t` by `t` tile whose first vertex is column `x`, row
/// `z`: `t / 2` columns right and `t / 2` rows down.
pub open spec fn tile_center(t: int, x: int, z: int) -> (int, int) {
    ((2 * x + t) * SUBDIVISION, (2 * z + t) * HALF_SUBDIVISION)
}

/// Squared distance from `p` to `c`, scaled to integers: with resolution `res`
/// the world distance squared is `dist_sq * res^2 / (4 * SUBDIVISION^2)`,
/// since a row is `sqrt(3) / 2` of a column high.
pub open spec fn dist_sq(p: GridPos, c: (int, int)) -> int {
    let du = p.x - c.0;
    let dv = p.z - c.1;
    du * du + 3 * dv * dv
}

/// `dist_sq` of the side of a `t` by `t` tile.
pub open spec fn tile_extent_sq(t: int) -> int {
    4 * SUBDIVISION * SUBDIVISION * t * t
}

/// From `p` on, the largest power-of-two multiple `p * 2^k` with
/// `p * 2^k * d <= n` (or `p` itself when `2 * p * d > n`).
pub open spec fn pow2_floor(n: int, d: int, p: int) -> int
    decreases (if d > 0 && p > 0 && 2 * p * d <= n { n - p * d } else { 0 }),
    via pow2_floor_decreases
{
    if d > 0 && p > 0 && 2 * p * d <= n {
        pow2_floor(n, d, 2 * p)
    } else {
        p
    }
}

/// Stride for a tile at scaled squared distance `n`: the greatest power of two
/// not above `n / tile_extent_sq(t)` (at least 1), capped at `t - 1`.
pub open spec fn lod_for(t: int, n: int) -> int {
    let p = pow2_floor(n, tile_extent_sq(t), 1);
    if p < t - 1 {
        p
    } else {
        t - 1
    }
}

/// Stride of the tile at column `x`, row `z` for a viewer at `p`.
pub open spec fn gen_lod_spec(t: int, x: int, z: int, p: GridPos) -> int {
    lod_for(t, dist_sq(p, tile_center(t, x, z)))
}

#[via_fn]
proof fn pow2_floor_decreases(n: int, d: int, p: int) {
    if d > 0 && p > 0 && 2 * p * d <= n {
        lemma_double_step(n, d, p);
    }
}

proof fn lemma_double_step(n: int, d: int, p: int)
    requires
        d > 0,
        p > 0,
        2 * p * d <= n,
    ensures
        0 <= n - 2 * p * d < n - p * d,
        (if d > 0 && 2 * p > 0 && 2 * (2 * p) * d <= n { n - (2 * p) * d } else { 0 }) < n - p * d,
{
    let pd = p * d;
    assert(pd > 0) by (nonlinear_arith)
        requires p > 0, d > 0, pd == p * d;
    assert(2 * p * d == 2 * pd) by (nonlinear_arith)
        requires pd == p * d;
    assert(2 * (2 * p) * d == 4 * pd) by (nonlinear_arith)
        requires pd == p * d;
}

proof fn lemma_pow2_floor_ge(n: int, d: int, p: int)
    requires
        p > 0,
    ensures
        pow2_floor(n, d, p) >= p,
    decreases (if d > 0 && p > 0 && 2 * p * d <= n { n - p * d } else { 0 }),
{
    if d > 0 && p > 0 && 2 * p * d <= n {
        lemma_double_step(n, d, p);
        lemma_pow2_floor_ge(n, d, 2 * p);
    }
}

proof fn lemma_pow2_floor_monotonic(n1: int, n2: int, d: int, p: int)
    requires
        n1 <= n2,
        p > 0,
    ensures
        pow2_floor(n1, d, p) <= pow2_floor(n2, d, p),
    decreases (if d > 0 && p > 0 && 2 * p * d <= n2 { n2 - p * d } else { 0 }),
{
    if d > 0 && 2 * p * d <= n1 {
        lemma_double_step(n2, d, p);
        lemma_pow2_floor_monotonic(n1, n2, d, 2 * p);
    } else {
        lemma_pow2_floor_ge(n2, d, p);
    }
}

/// Level-of-detail selection is monotonic: a viewer at least as far from a
/// tile's centre gets at least as coarse a stride, and every stride lies in
/// `[1, t - 1]`.
pub proof fn lemma_lod_monotonic(t: int, x: int, z: int, near: GridPos, far: GridPos)
    requires
        t >= 2,
        dist_sq(near, tile_center(t, x, z)) <= dist_sq(far, tile_center(t, x, z)),
    ensures
        gen_lod_spec(t, x, z, near) <= gen_lod_spec(t, x, z, far),
        1 <= gen_lod_spec(t, x, z, near) <= t - 1,
        1 <= gen_lod_spec(t, x, z, far) <= t - 1,
{
    let c = tile_center(t, x, z);
    let d = tile_extent_sq(t);
    lemma_pow2_floor_monotonic(dist_sq(near, c), dist_sq(far, c), d, 1);
    lemma_pow2_floor_ge(dist_sq(near, c), d, 1);
    lemma_pow2_floor_ge(dist_sq(far, c), d, 1);
}

/// Stride of the `tile_size` tile whose first vertex is column `x`, row `z`,
/// for a viewer at `pos` (see `lod_for`).
pub fn gen_lod(tile_size: usize, pos: &GridPos, x: usize, z: usize) -> (r: usize)
    requires
        2 <= tile_size <= MAX_TILE_SIZE,
        x <= MAX_SAMPLES,
        z <= MAX_SAMPLES,
        coord_in_range(*pos),
    ensures
        r == gen_lod_spec(tile_size as int, x as int, z as int, *pos),
        1 <= r < tile_size,
{
    let t = tile_size as i64;
    let cx: i64 = (2 * (x as i64) + t) * SUBDIVISION;
    let cz: i64 = (2 * (z as i64) + t) * HALF_SUBDIVISION;
    let du = (pos.x - cx) as i128;
    let dv = (pos.z - cz) as i128;
    proof {
        assert(du * du <= 0x4000_0000_0000_0000 * 0x4000_0000_0000_0000) by (nonlinear_arith)
            requires -0x4000_0000_0000_0000 <= du <= 0x4000_0000_0000_0000;
        assert(dv * dv <= 0x4000_0000_0000_0000 * 0x4000_0000_0000_0000) by (nonlinear_arith)
            requires -0x4000_0000_0000_0000 <= dv <= 0x4000_0000_0000_0000;
        assert(du * du >= 0 && dv * dv >= 0) by (nonlinear_arith);
    }
    let n: i128 = du * du + 3 * (dv * dv);
    assert(n == dist_sq(*pos, tile_center(tile_size as int, x as int, z as int))) by {
        assert(3 * (dv * dv) == 3 * dv * dv) by (nonlinear_arith);
    }
    let ti = tile_size as i128;
    proof {
        assert(ti * ti <= 0x10_0000 * 0x10_0000) by (nonlinear_arith)
            requires 0 <= ti <= 0x10_0000;
        assert(ti * ti >= 4) by (nonlinear_arith)
            requires ti >= 2;
    }
    let tt: i128 = ti * ti;
    // 4194304 is 4 * SUBDIVISION^2.
    let d: i128 = tt * 4194304;
    assert(d == tile_extent_sq(tile_size as int)) by (nonlinear_arith)
        requires d == tt * 4194304, tt == ti * ti, ti == tile_size;
    let mut p: i128 = 1;
    let mut step: i128 = 2 * d;
    while p < ti && step <= n
        invariant
            1 <= p <= 2 * ti,
            2 <= ti <= 0x10_0000,
            0 < d <= 4194304 * 0x100_0000_0000,
            step == 2 * p * d,
            d == tile_extent_sq(tile_size as int),
            n == dist_sq(*pos, tile_center(tile_size as int, x as int, z as int)),
            pow2_floor(n as int, d as int, p as int) == pow2_floor(n as int, d as int, 1),
        decreases 2 * ti - p,
    {
        proof {
            assert(step <= 2 * (2 * 0x10_0000) * (4194304 * 0x100_0000_0000)) by (nonlinear_arith)
                requires 1 <= p <= 2 * 0x10_0000, 0 < d <= 4194304 * 0x100_0000_0000, step == 2 * p * d;
            assert(2 * (2 * p) * d == 2 * step) by (nonlinear_arith)
                requires step == 2 * p * d;
        }
        p = 2 * p;
        step = 2 * step;
    }
    proof {
        lemma_pow2_floor_ge(n as int, d as int, p as int);
    }
    if p < ti - 1 {
        p as usize
    } else {
        tile_size - 1
    }
}

/// The stride a tile's mesh was last built at.
#[derive(Copy, Clone, Debug, PartialEq, Eq)]
pub enum TileLod {
    /// No mesh has been built for the tile yet.
    Unbuilt,
    /// The mesh was built sampling every `n`-th vertex.
    Built(usize),
}

/// A tile whose mesh must be rebuilt: its number, its new stride, and its
/// window of the grid (to be clamped to the grid by `Heightmap::as_geometry`).
#[derive(Copy, Clone, Debug, PartialEq, Eq)]
pub struct TileUpdate {
    pub tile: usize,
    pub lod: usize,
    pub left_x: usize,
    pub top_z: usize,
    pub right_x: usize,
    pub bottom_z: usize,
}

/// Number of tiles of size `t` needed to cover `n` vertices.
pub open spec fn tiles_across(n: int, t: int) -> int {
    (n + t - 1) / t
}

/// The viewer at `p` is inside the dead band around `zone`: at most one tile
/// side (`t` resolutions in world units) away along each axis. Along x a tile
/// side is `2 * t * SUBDIVISION` lattice steps; along z the world distance
/// `|dv| * sqrt(3) / 2` is compared by squares.
pub open spec fn in_zone(t: int, zone: GridPos, p: GridPos) -> bool {
    let du = p.x - zone.x;
    let dv = p.z - zone.z;
    &&& -2 * t * SUBDIVISION <= du <= 2 * t * SUBDIVISION
    &&& 3 * dv * dv <= 4 * t * t * SUBDIVISION * SUBDIVISION
}

/// A dead-band centre lies within `MAX_COORD` plus one tile of the origin.
pub open spec fn zone_in_range(z: GridPos) -> bool {
    &&& -MAX_COORD - MAX_TILE_SIZE * SUBDIVISION <= z.x <= MAX_COORD
    &&& -MAX_COORD - MAX_TILE_SIZE * SUBDIVISION <= z.z <= MAX_COORD
}

/// `v` rounded down to a multiple of `m`.
pub open spec fn snap_down(v: int, m: int) -> int {
    (v / m) * m
}

/// Centre of the dead band set up for a viewer at `p`: `p` rounded down to
/// half a tile along each lattice axis.
pub open spec fn snap_zone(t: int, p: GridPos) -> GridPos {
    GridPos {
        x: snap_down(p.x as int, t * SUBDIVISION) as i64,
        z: snap_down(p.z as int, t * HALF_SUBDIVISION) as i64,
    }
}

/// A tiled heightmap: a grid of samples and, per tile, the stride of its mesh.
///
/// Tiles are numbered column-major: tile `k` covers columns from
/// `(k / tiles_z) * tile_size` and rows from `(k % tiles_z) * tile_size`.
pub struct SimpleHeightmap<H> {
    geometry: Heightmap<H>,
    lods: Vec<TileLod>,
    tile_size: usize,
    lod_zone: Option<GridPos>,
}

impl<H: Copy> SimpleHeightmap<H> {
    /// The height grid.
    pub closed spec fn spec_geometry(&self) -> Heightmap<H> {
        self.geometry
    }

    /// Tile side, in vertices.
    pub closed spec fn spec_tile_size(&self) -> int {
        self.tile_size as int
    }

    /// Strides of the tiles' meshes, by tile number.
    pub closed spec fn spec_lods(&self) -> Seq<TileLod> {
        self.lods@
    }

    /// Centre of the current dead band; `None` before the first update.
    pub closed spec fn spec_zone(&self) -> Option<GridPos> {
        self.lod_zone
    }

    /// Number of tile rows.
    pub open spec fn spec_tiles_z(&self) -> int {
        tiles_across(self.spec_geometry().spec_rows(), self.spec_tile_size())
    }

    /// Number of tiles.
    pub open spec fn spec_tile_count(&self) -> int {
        tiles_across(self.spec_geometry().spec_width(), self.spec_tile_size()) * self.spec_tiles_z()
    }

    /// Stride that tile `k` needs for a viewer at `p`.
    pub open spec fn tile_lod(&self, k: int, p: GridPos) -> int {
        gen_lod_spec(
            self.spec_tile_size(),
            (k / self.spec_tiles_z()) * self.spec_tile_size(),
            (k % self.spec_tiles_z()) * self.spec_tile_size(),
            p,
        )
    }

    /// Tile `k` is stale for a viewer at `p`: not built at the stride it needs.
    pub open spec fn tile_stale(&self, k: int, p: GridPos) -> bool {
        self.spec_lods()[k] != TileLod::Built(self.tile_lod(k, p) as usize)
    }

    /// Numbers of the tiles stale for a viewer at `p`, in increasing order.
    pub open spec fn stale_tiles(&self, p: GridPos) -> Seq<int> {
        Seq::new(self.spec_tile_count() as nat, |k: int| k).filter(|k: int| self.tile_stale(k, p))
    }

    /// `new` is this heightmap after an update for a viewer at `p` that
    /// rebuilt the tiles numbered `tiles`: the grid and tile size stay; the
    /// viewer ends inside the dead band. If it started inside, nothing
    /// changed and nothing was rebuilt; otherwise the dead band moved to
    /// `snap_zone(p)`, every tile took the stride it needs at `p`, and the
    /// rebuilt tiles are exactly the stale ones, in increasing order.
    pub open spec fn lod_update(&self, new: SimpleHeightmap<H>, p: GridPos, tiles: Seq<int>) -> bool {
        let t = self.spec_tile_size();
        &&& new.spec_geometry() == self.spec_geometry()
        &&& new.spec_tile_size() == t
        &&& new.spec_zone() matches Some(z) && in_zone(t, z, p)
        &&& if self.spec_zone() matches Some(z) && in_zone(t, z, p) {
            &&& tiles.len() == 0
            &&& new.spec_lods() == self.spec_lods()
            &&& new.spec_zone() == self.spec_zone()
        } else {
            &&& new.spec_zone() == Some(snap_zone(t, p))
            &&& new.spec_lods().len() == self.spec_lods().len()
            &&& forall|k: int|
                0 <= k < new.spec_lods().len() ==> #[trigger] new.spec_lods()[k] == TileLod::Built(
                    self.tile_lod(k, p) as usize,
                )
            &&& tiles == self.stale_tiles(p)
        }
    }

    /// Well-formed: a well-formed grid, a tile size in range, one stride per
    /// tile, and a dead band centred within reach of the viewer range.
    pub open spec fn wf(&self) -> bool {
        &&& self.spec_geometry().wf()
        &&& 2 <= self.spec_tile_size() <= MAX_TILE_SIZE
        &&& self.spec_lods().len() == self.spec_tile_count()
        &&& self.spec_zone() matches Some(z) ==> zone_in_range(z)
    }

    /// A tiled heightmap over `geometry` with tiles of `tile_size` vertices,
    /// none of them built yet.
    pub fn from_heightmap(geometry: Heightmap<H>, tile_size: usize) -> (r: SimpleHeightmap<H>)
        requires
            geometry.wf(),
            2 <= tile_size <= MAX_TILE_SIZE,
        ensures
            r.wf(),
            r.spec_geometry() == geometry,
            r.spec_tile_size() == tile_size,
            r.spec_zone() is None,
            forall|k: int| 0 <= k < r.spec_lods().len() ==> r.spec_lods()[k] == TileLod::Unbuilt,
    {
        proof {
            geometry.lemma_shape();
        }
        let w = geometry.width();
        let h = geometry.height();
        let tiles_x = (w + tile_size - 1) / tile_size;
        let tiles_z = (h + tile_size - 1) / tile_size;
        proof {
            let t = tile_size as int;
            assert(tiles_x <= w && tiles_z <= h + 1) by (nonlinear_arith)
                requires t >= 2, tiles_x == (w + t - 1) / t, tiles_z == (h + t - 1) / t, w >= 1, h >= 0;
            assert(tiles_x * tiles_z <= w * (h + 1)) by (nonlinear_arith)
                requires tiles_x <= w, tiles_z <= h + 1, tiles_x >= 0, tiles_z >= 0;
            assert(w * (h + 1) == w * h + w) by (nonlinear_arith);
        }
        let count = tiles_x * tiles_z;
        let mut lods: Vec<TileLod> = Vec::with_capacity(count);
        let mut k: usize = 0;
        while k < count
            invariant
                k <= count,
                lods@.len() == k,
                forall|j: int| 0 <= j < k ==> lods@[j] == TileLod::Unbuilt,
            decreases count - k,
        {
            lods.push(TileLod::Unbuilt);
            k += 1;
        }
        SimpleHeightmap { geometry, lods, tile_size, lod_zone: None }
    }

    /// A tiled heightmap of `width` by `height` samples equal to `fill`, with
    /// tiles of `DEFAULT_TILE_SIZE` vertices.
    pub fn with_size(width: usize, height: usize, fill: H) -> (r: SimpleHeightmap<H>)
        requires
            0 < width <= MAX_SAMPLES,
            width * height <= MAX_SAMPLES,
        ensures
            r.wf(),
            r.spec_geometry().spec_width() == width,
            r.spec_geometry().spec_rows() == height,
            r.spec_geometry().samples() == Seq::new((width * height) as nat, |i: int| fill),
            r.spec_tile_size() == DEFAULT_TILE_SIZE,
            r.spec_zone() is None,
            forall|k: int| 0 <= k < r.spec_lods().len() ==> r.spec_lods()[k] == TileLod::Unbuilt,
    {
        SimpleHeightmap::from_heightmap(Heightmap::with_size(width, height, fill), DEFAULT_TILE_SIZE)
    }

    /// The height grid.
    pub fn geometry(&self) -> (r: &Heightmap<H>)
        ensures
            *r == self.spec_geometry(),
    {
        &self.geometry
    }

    /// The three vertex indices of the terrain triangle under `pos`, or `None`
    /// off the terrain (see `Heightmap::get_tri_from_position`).
    pub fn get_tri_from_position(&self, pos: &GridPos) -> (r: Option<[usize; 3]>)
        requires
            self.wf(),
        ensures
            r.is_some() == crate::heightmap::tri_at(
                self.spec_geometry().spec_width(),
                self.spec_geometry().spec_rows(),
                *pos,
            ).is_some(),
            r matches Some(t) ==> (t[0] as int, t[1] as int, t[2] as int) == crate::heightmap::tri_at(
                self.spec_geometry().spec_width(),
                self.spec_geometry().spec_rows(),
                *pos,
            ).unwrap(),
    {
        self.geometry.get_tri_from_position(pos)
    }

    /// Tile side, in vertices.
    pub fn tile_size(&self) -> (r: usize)
        ensures
            r == self.spec_tile_size(),
    {
        self.tile_size
    }

    /// Stride of tile `k`'s mesh.
    pub fn tile_lod_at(&self, k: usize) -> (r: TileLod)
        requires
            k < self.spec_lods().len(),
        ensures
            r == self.spec_lods()[k as int],
    {
        self.lods[k]
    }

    /// Number of tiles.
    pub fn tile_count(&self) -> (r: usize)
        requires
            self.wf(),
        ensures
            r == self.spec_tile_count(),
    {
        self.lods.len()
    }

    /// Bring the tiles' strides up to date for a viewer at `pos`.
    ///
    /// Inside the current dead band nothing changes and no tile is returned.
    /// Otherwise the dead band re-centres on `snap_zone(pos)`, every tile takes
    /// the stride `gen_lod` gives it, and the tiles whose stride changed (or
    /// that were never built) are returned in increasing order, for their
    /// meshes to be rebuilt.
    pub fn update_lod(&mut self, pos: &GridPos) -> (r: Vec<TileUpdate>)
        requires
            old(self).wf(),
            coord_in_range(*pos),
        ensures
            final(self).wf(),
            old(self).lod_update(*final(self), *pos, r@.map_values(|u: TileUpdate| u.tile as int)),
            forall|i: int|
                0 <= i < r@.len() ==> {
                    let u = #[trigger] r@[i];
                    let t = old(self).spec_tile_size();
                    let tz = old(self).spec_tiles_z();
                    &&& u.lod == old(self).tile_lod(u.tile as int, *pos)
                    &&& u.left_x == (u.tile as int / tz) * t
                    &&& u.top_z == (u.tile as int % tz) * t
                    &&& u.right_x == u.left_x + t
                    &&& u.bottom_z == u.top_z + t
                },
    {
        let t = self.tile_size;
        proof {
            lemma_zone_holds(t as int, *pos);
            self.geometry.lemma_shape();
        }
        let inside = match self.lod_zone {
            Some(zone) => zone_contains(t, &zone, pos),
            None => false,
        };
        if inside {
            return Vec::new();
        }
        let new_zone = GridPos {
            x: floor_to_multiple(pos.x, (t as i64) * SUBDIVISION),
            z: floor_to_multiple(pos.z, (t as i64) * HALF_SUBDIVISION),
        };
        let h = self.geometry.height();
        let w = self.geometry.width();
        let tiles_z = (h + t - 1) / t;
        let count = self.lods.len();
        let ghost old_self = *self;
        let mut updates: Vec<TileUpdate> = Vec::new();
        let mut k: usize = 0;
        while k < count
            invariant
                self.wf(),
                old_self.wf(),
                self.geometry == old_self.geometry,
                self.tile_size == old_self.tile_size,
                self.lod_zone == old_self.lod_zone,
                t == self.tile_size,
                tiles_z == old_self.spec_tiles_z(),
                count == old_self.spec_tile_count(),
                count == self.lods@.len(),
                w == old_self.spec_geometry().spec_width(),
                h == old_self.spec_geometry().spec_rows(),
                coord_in_range(*pos),
                0 <= k <= count,
                forall|j: int| k <= j < count ==> self.lods@[j] == old_self.lods@[j],
                forall|j: int|
                    0 <= j < k ==> #[trigger] self.lods@[j] == TileLod::Built(
                        old_self.tile_lod(j, *pos) as usize,
                    ),
                updates@.map_values(|u: TileUpdate| u.tile as int) == Seq::new(k as nat, |j: int| j).filter(
                    |j: int| old_self.tile_stale(j, *pos),
                ),
                forall|i: int|
                    0 <= i < updates@.len() ==> {
                        let u = #[trigger] updates@[i];
                        &&& u.tile < k
                        &&& u.lod == old_self.tile_lod(u.tile as int, *pos)
                        &&& u.left_x == (u.tile as int / tiles_z as int) * t
                        &&& u.top_z == (u.tile as int % tiles_z as int) * t
                        &&& u.right_x == u.left_x + t
                        &&& u.bottom_z == u.top_z + t
                    },
            decreases count - k,
        {
            proof {
                old_self.spec_geometry().lemma_shape();
                lemma_tile_origin(w as int, h as int, t as int, k as int);
            }
            let x = (k / tiles_z) * t;
            let z = (k % tiles_z) * t;
            let lod = gen_lod(t, pos, x, z);
            let stale = match self.lods[k] {
                TileLod::Built(current) => current != lod,
                TileLod::Unbuilt => true,
            };
            let ghost before = updates@;
            if stale {
                updates.push(
                    TileUpdate { tile: k, lod, left_x: x, top_z: z, right_x: x + t, bottom_z: z + t },
                );
                self.lods.set(k, TileLod::Built(lod));
            }
            proof {
                broadcast use vstd::seq::Seq::lemma_filter_push;
                let pred = |j: int| old_self.tile_stale(j, *pos);
                assert(Seq::new((k + 1) as nat, |j: int| j) =~= Seq::new(k as nat, |j: int| j).push(k as int));
                assert(pred(k as int) == stale);
                if stale {
                    assert(updates@.map_values(|u: TileUpdate| u.tile as int) =~= before.map_values(
                        |u: TileUpdate| u.tile as int,
                    ).push(k as int));
                } else {
                    assert(updates@ == before);
                }
            }
            k += 1;
        }
        self.lod_zone = Some(new_zone);
        proof {
            assert(Seq::new(count as nat, |j: int| j) == Seq::new(old_self.spec_tile_count() as nat, |j: int| j));
        }
        updates
    }
}

/// Dead-band stability: of two updates in a row for a viewer at the same
/// position, the second rebuilds no tile and leaves every stride as it was.
pub proof fn lemma_update_twice_is_idle<H: Copy>(
    s0: SimpleHeightmap<H>,
    s1: SimpleHeightmap<H>,
    s2: SimpleHeightmap<H>,
    p: GridPos,
    first: Seq<int>,
    second: Seq<int>,
)
    requires
        s0.lod_update(s1, p, first),
        s1.lod_update(s2, p, second),
    ensures
        second.len() == 0,
        s2.spec_lods() == s1.spec_lods(),
        s2.spec_zone() == s1.spec_zone(),
{
}

/// The dead band centred on the viewer's snapped position contains the
/// viewer: right after an update at `p`, another update at `p` rebuilds nothing.
pub proof fn lemma_zone_holds(t: int, p: GridPos)
    requires
        2 <= t <= MAX_TILE_SIZE,
        coord_in_range(p),
    ensures
        in_zone(t, snap_zone(t, p), p),
        zone_in_range(snap_zone(t, p)),
{
    let mx = t * 1024;
    let mz = t * 512;
    let sx = snap_down(p.x as int, mx);
    let sz = snap_down(p.z as int, mz);
    assert(0 <= p.x - sx < mx) by (nonlinear_arith)
        requires mx > 0, sx == (p.x as int / mx) * mx;
    assert(0 <= p.z - sz < mz) by (nonlinear_arith)
        requires mz > 0, sz == (p.z as int / mz) * mz;
    let dv = p.z - sz;
    assert(3 * dv * dv <= 4 * t * t * 1024 * 1024) by (nonlinear_arith)
        requires 0 <= dv < t * 512, t >= 2;
    assert(mx <= MAX_TILE_SIZE * 1024) by (nonlinear_arith)
        requires mx == t * 1024, t <= MAX_TILE_SIZE;
}

proof fn lemma_tile_origin(w: int, h: int, t: int, k: int)
    requires
        0 < w <= MAX_SAMPLES,
        0 <= h <= MAX_SAMPLES,
        2 <= t <= MAX_TILE_SIZE,
        0 <= k < tiles_across(w, t) * tiles_across(h, t),
    ensures
        tiles_across(h, t) > 0,
        0 <= (k / tiles_across(h, t)) * t < w,
        0 <= (k % tiles_across(h, t)) * t < h,
{
    let tx = tiles_across(w, t);
    let tz = tiles_across(h, t);
    assert(tx >= 0 && tz >= 0);
    assert(tz > 0) by (nonlinear_arith)
        requires k < tx * tz, tx >= 0, tz >= 0, 0 <= k;
    let xi = k / tz;
    let zi = k % tz;
    assert(xi < tx) by (nonlinear_arith)
        requires 0 <= k < tx * tz, tz > 0, xi == k / tz;
    assert(tx * t <= w + t - 1) by (nonlinear_arith)
        requires tx == (w + t - 1) / t, t > 0, w > 0;
    assert(tz * t <= h + t - 1) by (nonlinear_arith)
        requires tz == (h + t - 1) / t, t > 0, h >= 0;
    assert(xi * t <= tx * t - t) by (nonlinear_arith)
        requires 0 <= xi < tx, t > 0;
    assert(zi * t <= tz * t - t) by (nonlinear_arith)
        requires 0 <= zi < tz, t > 0;
    assert(xi * t >= 0 && zi * t >= 0) by (nonlinear_arith)
        requires xi >= 0, zi >= 0, t > 0;
}

/// `v` rounded down to a multiple of `m`.
fn floor_to_multiple(v: i64, m: i64) -> (r: i64)
    requires
        0 < m <= MAX_TILE_SIZE * 1024,
        -MAX_COORD <= v <= MAX_COORD,
    ensures
        r == snap_down(v as int, m as int),
{
    proof {
        assert(snap_down(v as int, m as int) <= v) by (nonlinear_arith)
            requires m > 0, snap_down(v as int, m as int) == (v as int / m as int) * m;
        assert(snap_down(v as int, m as int) > v - m) by (nonlinear_arith)
            requires m > 0, snap_down(v as int, m as int) == (v as int / m as int) * m;
    }
    if v >= 0 {
        let q = (v as u64) / (m as u64);
        assert(q as int == v as int / m as int);
        proof {
            assert(q * m <= v) by (nonlinear_arith)
                requires q == v as int / m as int, m > 0, v >= 0;
        }
        (q as i64) * m
    } else {
        let a = (-(v + 1)) as u64;
        let q = a / (m as u64);
        proof {
            let vi = v as int;
            let mi = m as int;
            assert(vi / mi == -(q + 1)) by (nonlinear_arith)
                requires vi < 0, mi > 0, a as int == -(vi + 1), q as int == a as int / mi;
            assert((q + 1) * mi <= -vi + mi) by (nonlinear_arith)
                requires q as int == a as int / mi, a as int == -(vi + 1), mi > 0;
        }
        -((q as i64) + 1) * m
    }
}

/// Whether the viewer at `p` lies in the dead band around `zone`.
fn zone_contains(t: usize, zone: &GridPos, p: &GridPos) -> (r: bool)
    requires
        2 <= t <= MAX_TILE_SIZE,
        coord_in_range(*p),
        zone_in_range(*zone),
    ensures
        r == in_zone(t as int, *zone, *p),
{
    let du = (p.x as i128) - (zone.x as i128);
    let dv = (p.z as i128) - (zone.z as i128);
    let ti = t as i128;
    let half_x: i128 = 2 * ti * SUBDIVISION as i128;
    if du < -half_x || du > half_x {
        return false;
    }
    proof {
        assert(0 <= dv * dv <= 0x4000_0000_4000_0000 * 0x4000_0000_4000_0000) by (nonlinear_arith)
            requires -0x4000_0000_4000_0000 <= dv <= 0x4000_0000_4000_0000;
        assert(ti * ti <= 0x10_0000 * 0x10_0000) by (nonlinear_arith)
            requires 0 <= ti <= 0x10_0000;
    }
    let lhs = 3 * (dv * dv);
    // 1048576 is SUBDIVISION^2.
    let rhs = 4 * (ti * ti) * 1048576;
    proof {
        assert(lhs == 3 * dv * dv) by (nonlinear_arith)
            requires lhs == 3 * (dv * dv);
        assert(rhs == 4 * ti * ti * 1024 * 1024) by (nonlinear_arith)
            requires rhs == 4 * (ti * ti) * 1048576;
    }
    lhs <= rhs
}

} // verus!

//! The capabilities every heightmap offers: the terrain triangle under a
//! point, for collision, and keeping levels of detail current for a viewer.
use vstd::prelude::*;
use crate::heightmap::{tri_at, GridPos};
use crate::lod::{coord_in_range, SimpleHeightmap, TileUpdate};

verus! {

/// Minimum functionality for a heightmap.
pub trait Heightmap {
    /// The heightmap is well-formed.
    spec fn terrain_wf(&self) -> bool;

    /// Vertex indices of the triangle under `pos` (see `tri_at`).
    spec fn triangle_at(&self, pos: GridPos) -> Option<(int, int, int)>;

    /// Get the mesh triangle under a given position, for collision purposes.
    fn get_tri_from_position(&self, pos: &GridPos) -> (r: Option<[usize; 3]>)
        requires
            self.terrain_wf(),
        ensures
            r.is_some() == self.triangle_at(*pos).is_some(),
            r matches Some(t) ==> (t[0] as int, t[1] as int, t[2] as int) == self.triangle_at(
                *pos,
            ).unwrap(),
    ;

    /// Update levels of detail for a viewer at `pos`; returns the tiles whose
    /// meshes must be rebuilt.
    fn update_lod(&mut self, pos: &GridPos) -> (r: Vec<TileUpdate>)
        requires
            old(self).terrain_wf(),
            coord_in_range(*pos),
        ensures
            final(self).terrain_wf(),
            final(self).triangle_at(*pos) == old(self).triangle_at(*pos),
    ;
}

impl<H: Copy> Heightmap for crate::heightmap::Heightmap<H> {
    open spec fn terrain_wf(&self) -> bool {
        self.wf()
    }

    open spec fn triangle_at(&self, pos: GridPos) -> Option<(int, int, int)> {
        tri_at(self.spec_width(), self.spec_rows(), pos)
    }

    fn get_tri_from_position(&self, pos: &GridPos) -> (r: Option<[usize; 3]>) {
        crate::heightmap::Heightmap::get_tri_from_position(self, pos)
    }

    /// A grid without tiles keeps one mesh at full detail: nothing to update.
    fn update_lod(&mut self, pos: &GridPos) -> (r: Vec<TileUpdate>)
        ensures
            r@.len() == 0,
            *final(self) == *old(self),
    {
        Vec::new()
    }
}

impl<H: Copy> Heightmap for SimpleHeightmap<H> {
    open spec fn terrain_wf(&self) -> bool {
        self.wf()
    }

    open spec fn triangle_at(&self, pos: GridPos) -> Option<(int, int, int)> {
        tri_at(self.spec_geometry().spec_width(), self.spec_geometry().spec_rows(), pos)
    }

    fn get_tri_from_position(&self, pos: &GridPos) -> (r: Option<[usize; 3]>) {
        SimpleHeightmap::get_tri_from_position(self, pos)
    }

    fn update_lod(&mut self, pos: &GridPos) -> (r: Vec<TileUpdate>)
        ensures
            old(self).lod_update(*final(self), *pos, r@.map_values(|u: TileUpdate| u.tile as int)),
    {
        SimpleHeightmap::update_lod(self, pos)
    }
}

} // verus!

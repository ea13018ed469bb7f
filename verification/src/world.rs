//! The world snapshot the resolver reads.
//!
//! Terrain is a set of voxel cells with their block data, entities a list
//! of plain per-entity facts.  Both are immutable during a frame; the
//! resolver and the dispatcher only read them.

use vstd::prelude::*;

verus! {

use crate::math::Vec3;
use crate::math::{in_bounds, within, dir_bounded, point_at_spec, voxel_of_spec};
use crate::math::{point_at, voxel_of, COORD_LIMIT};

/// What a terrain cell holds.
#[derive(Clone, Copy, PartialEq, Eq, Structural, Debug)]
pub struct Block {
    /// The cell is solid: it stops a ray.
    pub solid: bool,
    /// The cell holds something collectible: it also stops a ray, and may
    /// be picked up.
    pub collectible: bool,
}

/// One occupied voxel cell.  Cells not listed are empty.
#[derive(Clone, Copy, PartialEq, Eq, Structural, Debug)]
pub struct VoxelEntry {
    /// Whole-voxel coordinates of the cell.
    pub pos: Vec3,
    pub block: Block,
}

/// The voxel terrain of one frame's snapshot.
#[derive(Debug)]
pub struct Terrain {
    pub voxels: Vec<VoxelEntry>,
}

/// One live entity, reduced to the plain facts the targeting core reads.
#[derive(Clone, Copy, PartialEq, Eq, Structural, Debug)]
pub struct Entity {
    pub id: u64,
    /// Feet position, fixed point.
    pub pos: Vec3,
    /// Scale factor, fixed point (1000 is scale one).
    pub scale: i64,
    /// Body shape radius, fixed point world units.
    pub body_radius: i64,
    /// The entity currently carries a rider or is itself mounted.
    pub mounted: bool,
    /// The entity is a lootable item.
    pub is_item: bool,
}

/// Everything the resolver reads in one frame.
#[derive(Debug)]
pub struct WorldSnapshot {
    pub terrain: Terrain,
    pub entities: Vec<Entity>,
}

/// An entity's fields are small enough for all derived arithmetic to stay
/// exact in machine integers.
pub open spec fn wf_entity(e: Entity) -> bool {
    &&& in_bounds(e.pos)
    &&& 0 <= e.scale <= 10_000
    &&& 0 <= e.body_radius <= 100_000
}

/// All entities of a snapshot are well formed.
pub open spec fn wf_entities(s: Seq<Entity>) -> bool {
    forall|i: int| 0 <= i < s.len() ==> wf_entity(#[trigger] s[i])
}

/// The block at voxel `p`: the first listed entry for that cell, if any.
pub open spec fn block_at_spec(t: Seq<VoxelEntry>, p: Vec3) -> Option<Block>
    decreases t.len(),
{
    if t.len() == 0 {
        None
    } else if t[0].pos == p {
        Some(t[0].block)
    } else {
        block_at_spec(t.drop_first(), p)
    }
}

/// A ray stops at a cell that is solid or collectible.
pub open spec fn stops_ray(b: Option<Block>) -> bool {
    match b {
        Some(b) => b.solid || b.collectible,
        None => false,
    }
}

impl Terrain {
    /// Looks the voxel `p` up in the terrain.
    pub fn block_at(&self, p: Vec3) -> (r: Option<Block>)
        ensures
            r == block_at_spec(self.voxels@, p),
    {
        let n = self.voxels.len();
        let mut i: usize = 0;
        proof {
            assert(self.voxels@.skip(0) =~= self.voxels@);
        }
        while i < n
            invariant
                n == self.voxels@.len(),
                0 <= i <= n,
                block_at_spec(self.voxels@, p) == block_at_spec(self.voxels@.skip(i as int), p),
            decreases n - i,
        {
            let e = self.voxels[i];
            proof {
                let s = self.voxels@.skip(i as int);
                assert(s[0] == self.voxels@[i as int]);
                assert(s.drop_first() =~= self.voxels@.skip(i as int + 1));
            }
            if e.pos == p {
                return Some(e.block);
            }
            i = i + 1;
        }
        proof {
            assert(self.voxels@.skip(n as int).len() == 0);
        }
        None
    }
}

/// The first listed entity with identifier `id`, if any.
pub open spec fn find_entity_spec(s: Seq<Entity>, id: u64) -> Option<Entity>
    decreases s.len(),
{
    if s.len() == 0 {
        None
    } else if s[0].id == id {
        Some(s[0])
    } else {
        find_entity_spec(s.drop_first(), id)
    }
}

impl WorldSnapshot {
    /// Looks an entity up by identifier.
    pub fn find_entity(&self, id: u64) -> (r: Option<Entity>)
        ensures
            r == find_entity_spec(self.entities@, id),
    {
        let n = self.entities.len();
        let mut i: usize = 0;
        proof {
            assert(self.entities@.skip(0) =~= self.entities@);
        }
        while i < n
            invariant
                n == self.entities@.len(),
                0 <= i <= n,
                find_entity_spec(self.entities@, id) == find_entity_spec(
                    self.entities@.skip(i as int),
                    id,
                ),
            decreases n - i,
        {
            let e = self.entities[i];
            proof {
                let s = self.entities@.skip(i as int);
                assert(s[0] == self.entities@[i as int]);
                assert(s.drop_first() =~= self.entities@.skip(i as int + 1));
            }
            if e.id == id {
                return Some(e);
            }
            i = i + 1;
        }
        proof {
            assert(self.entities@.skip(n as int).len() == 0);
        }
        None
    }
}

/// Distance stepped along the ray per sample, fixed point.
pub const RAY_STEP: i64 = 50;

/// Number of ray samples: covers 100 world units.
pub const RAY_STEPS: i64 = 2000;

/// The full ray length, fixed point.
pub const MAX_RAY_DIST: i64 = 100_000;

/// The ray sample `k` steps from `cam` lands in a cell that stops it.
pub open spec fn ray_hits_at(t: Seq<VoxelEntry>, cam: Vec3, dir: Vec3, k: int) -> bool {
    stops_ray(block_at_spec(t, voxel_of_spec(point_at_spec(cam, dir, k * RAY_STEP))))
}

/// The first sample index at or after `k` that stops the ray, if any.
pub open spec fn first_hit_from(t: Seq<VoxelEntry>, cam: Vec3, dir: Vec3, k: int) -> Option<int>
    decreases RAY_STEPS + 1 - k,
{
    if k > RAY_STEPS || k < 0 {
        None
    } else if ray_hits_at(t, cam, dir, k) {
        Some(k)
    } else {
        first_hit_from(t, cam, dir, k + 1)
    }
}

/// The first sample index along the whole ray that stops it, if any.
pub open spec fn first_hit(t: Seq<VoxelEntry>, cam: Vec3, dir: Vec3) -> Option<int> {
    first_hit_from(t, cam, dir, 0)
}

impl Terrain {
    /// Casts a ray from `cam` along `dir`, sampling every [`RAY_STEP`]
    /// fixed-point units up to [`MAX_RAY_DIST`], and stops at the first
    /// sample whose cell is solid or collectible.
    ///
    /// Returns the stopping distance and the hit cell, or the full ray
    /// length and no cell.
    pub fn cast_ray(&self, cam: Vec3, dir: Vec3) -> (r: (i64, Option<Vec3>))
        requires
            in_bounds(cam),
            dir_bounded(dir),
        ensures
            match first_hit(self.voxels@, cam, dir) {
                Some(k) => r.0 == k * RAY_STEP && r.1 == Some(
                    voxel_of_spec(point_at_spec(cam, dir, k * RAY_STEP)),
                ),
                None => r.0 == MAX_RAY_DIST && r.1.is_none(),
            },
            0 <= r.0 <= MAX_RAY_DIST,
    {
        let mut k: i64 = 0;
        while k <= RAY_STEPS
            invariant
                in_bounds(cam),
                dir_bounded(dir),
                0 <= k <= RAY_STEPS + 1,
                first_hit(self.voxels@, cam, dir) == first_hit_from(self.voxels@, cam, dir, k as int),
            decreases RAY_STEPS + 1 - k,
        {
            let p = point_at(cam, dir, k * RAY_STEP);
            let v = voxel_of(p);
            let b = self.block_at(v);
            let stop = match b {
                Some(b) => b.solid || b.collectible,
                None => false,
            };
            if stop {
                return (k * RAY_STEP, Some(v));
            }
            k = k + 1;
        }
        (MAX_RAY_DIST, None)
    }
}

} // verus!

//! The per-frame targeting resolver.
//!
//! From a camera pose and a world snapshot it computes the voxel a block
//! would be placed into, the voxel that would be broken or collected, and
//! the entity under the cursor, under range and occlusion constraints.
//! The result is a pure function of the inputs: `resolve` returns exactly
//! [`resolve_spec`] of its arguments.

use vstd::prelude::*;

verus! {

use crate::math::Vec3;
use crate::math::{
    in_bounds, within, dir_bounded, sq_dist, point_at_spec, voxel_of_spec, sqrt_floor,
    seg_sphere_hit, lemma_square_bound, lemma_mul_bound, POINT_LIMIT,
};
use crate::math::{dist_sqr, point_at, voxel_of, isqrt, seg_sphere_hit_exec, div_floor_milli};
use crate::world::{Entity, VoxelEntry, WorldSnapshot, wf_entity, wf_entities};
use crate::world::{find_entity_spec, first_hit, RAY_STEP};
use vstd::arithmetic::div_mod::lemma_div_is_ordered;

/// Farthest an entity can be targeted, fixed point (300 world units).
pub const MAX_TARGET_RANGE: i64 = 300_000;

/// Squared pickup range, fixed point (distances within 8 world units).
pub const MAX_PICKUP_RANGE_SQR: i64 = 64_000_000;

/// Half-width of the window that separates the build cell from the
/// selected cell around a hit surface (0.01 world units).
pub const RAY_EPSILON: i64 = 10;

/// The per-frame output of the resolver, replaced wholesale each frame.
#[derive(Clone, Copy, PartialEq, Eq, Debug)]
pub struct TargetResolution {
    /// Empty voxel flush against the hit surface, for placing a block.
    pub build_pos: Option<Vec3>,
    /// The hit voxel itself, for removal or collection.
    pub select_pos: Option<Vec3>,
    /// Entity under the cursor and its distance to the player reference
    /// point, fixed point.
    pub target_entity: Option<(u64, i64)>,
}

/// Effective bounding-sphere radius of an entity: scale times body radius
/// times three, in fixed point.
pub open spec fn radius_spec(e: Entity) -> int {
    (e.scale * e.body_radius * 3) / 1000
}

/// The aim point of an entity: its feet position raised by its effective
/// radius.
pub open spec fn aim_pos_spec(e: Entity) -> Vec3 {
    Vec3 { x: e.pos.x, y: e.pos.y, z: (e.pos.z + radius_spec(e)) as i64 }
}

/// The reference point for range checks: the player entity's position
/// raised by two world units, or the camera position if the player has no
/// listed position.
pub open spec fn player_ref_spec(s: Seq<Entity>, player: u64, cam: Vec3) -> Vec3 {
    match find_entity_spec(s, player) {
        Some(e) => Vec3 { x: e.pos.x, y: e.pos.y, z: (e.pos.z + 2000) as i64 },
        None => cam,
    }
}

/// An entity passes the coarse targeting filters: it is not the player,
/// its sphere comes close enough to the camera for the truncated ray
/// (`cast` is the search distance), and the camera is not inside its
/// sphere.
pub open spec fn eligible(e: Entity, cam: Vec3, player: u64, cast: int) -> bool {
    let r = radius_spec(e);
    let d = sq_dist(aim_pos_spec(e), cam);
    e.id != player && d <= (cast + r) * (cast + r) && d > r * r
}

/// Sort key of a candidate: distance from the camera to the sphere
/// surface along the line to its center (integer floor).
pub open spec fn surf_key(e: Entity, cam: Vec3) -> int {
    sqrt_floor(sq_dist(aim_pos_spec(e), cam)) - radius_spec(e)
}

/// The entity's sphere intersects the camera-to-hit-point segment.
pub open spec fn hits_segment(e: Entity, cam: Vec3, seg_end: Vec3) -> bool {
    seg_sphere_hit(cam, seg_end, aim_pos_spec(e), radius_spec(e))
}

/// An entity is a live target candidate.
pub open spec fn candidate(e: Entity, cam: Vec3, seg_end: Vec3, player: u64, cast: int) -> bool {
    eligible(e, cam, player, cast) && hits_segment(e, cam, seg_end)
}

/// Among the first `n` entities, the candidate with the smallest surface
/// key; the earliest listed wins ties.
pub open spec fn best_upto(
    s: Seq<Entity>,
    n: int,
    cam: Vec3,
    seg_end: Vec3,
    player: u64,
    cast: int,
) -> Option<Entity>
    decreases n,
{
    if n <= 0 {
        None
    } else {
        let prev = best_upto(s, n - 1, cam, seg_end, player, cast);
        let e = s[n - 1];
        if candidate(e, cam, seg_end, player, cast) {
            match prev {
                None => Some(e),
                Some(b) => if surf_key(e, cam) < surf_key(b, cam) {
                    Some(e)
                } else {
                    Some(b)
                },
            }
        } else {
            prev
        }
    }
}

/// The candidate the resolver picks among all entities, before the final
/// player-range check.
pub open spec fn entity_choice(
    s: Seq<Entity>,
    cam: Vec3,
    seg_end: Vec3,
    player: u64,
    cast: int,
) -> Option<Entity> {
    best_upto(s, s.len() as int, cam, seg_end, player, cast)
}

/// The resolved entity target: the chosen candidate, accepted only if its
/// sphere surface lies within [`MAX_TARGET_RANGE`] of the player
/// reference point, together with its distance to that point.
pub open spec fn entity_target_spec(
    s: Seq<Entity>,
    cam: Vec3,
    seg_end: Vec3,
    player: u64,
    cast: int,
    player_ref: Vec3,
) -> Option<(u64, i64)> {
    match entity_choice(s, cam, seg_end, player, cast) {
        None => None,
        Some(e) => {
            let dp = sqrt_floor(sq_dist(aim_pos_spec(e), player_ref));
            if dp - radius_spec(e) < MAX_TARGET_RANGE {
                Some((e.id, dp as i64))
            } else {
                None
            }
        },
    }
}

/// The build and select cells for a ray that stopped after `d` fixed-point
/// units: the cells just before and just after the hit surface, present
/// only if the hit point is within pickup range of `player_ref`.
pub open spec fn terrain_targets_spec(
    cam: Vec3,
    dir: Vec3,
    d: int,
    player_ref: Vec3,
) -> (Option<Vec3>, Option<Vec3>) {
    if sq_dist(player_ref, point_at_spec(cam, dir, d)) <= MAX_PICKUP_RANGE_SQR {
        (
            Some(voxel_of_spec(point_at_spec(cam, dir, d - RAY_EPSILON))),
            Some(voxel_of_spec(point_at_spec(cam, dir, d + RAY_EPSILON))),
        )
    } else {
        (None, None)
    }
}

/// The truncated entity-search distance: the terrain hit distance capped
/// at [`MAX_TARGET_RANGE`], or the full range when nothing was hit.
pub open spec fn cast_dist_spec(hit: Option<int>) -> int {
    match hit {
        Some(k) => if k * RAY_STEP < MAX_TARGET_RANGE {
            k * RAY_STEP
        } else {
            MAX_TARGET_RANGE as int
        },
        None => MAX_TARGET_RANGE as int,
    }
}

/// The complete per-frame resolution as a function of the snapshot and
/// the camera pose.
pub open spec fn resolve_spec(
    t: Seq<VoxelEntry>,
    s: Seq<Entity>,
    cam: Vec3,
    dir: Vec3,
    player: u64,
) -> TargetResolution {
    let pref = player_ref_spec(s, player, cam);
    let cast = cast_dist_spec(first_hit(t, cam, dir));
    let seg_end = point_at_spec(cam, dir, cast);
    let te = entity_target_spec(s, cam, seg_end, player, cast, pref);
    match first_hit(t, cam, dir) {
        Some(k) => {
            let bs = terrain_targets_spec(cam, dir, k * RAY_STEP, pref);
            TargetResolution { build_pos: bs.0, select_pos: bs.1, target_entity: te }
        },
        None => TargetResolution { build_pos: None, select_pos: None, target_entity: te },
    }
}

/// Effective bounding-sphere radius, computed exactly.
pub fn radius(e: &Entity) -> (r: i64)
    requires
        wf_entity(*e),
    ensures
        r == radius_spec(*e),
        0 <= r <= 3_000_000,
{
    proof {
        lemma_mul_bound(e.scale as int, e.body_radius as int, 10_000, 100_000);
        lemma_mul_bound(e.scale * e.body_radius, 3, 1_000_000_000, 3);
    }
    let p = e.scale * e.body_radius * 3;
    let r = div_floor_milli(p);
    proof {
        lemma_div_is_ordered(0, p as int, 1000);
        lemma_div_is_ordered(p as int, 3_000_000_000, 1000);
    }
    r
}

proof fn lemma_find_entity_wf(s: Seq<Entity>, id: u64)
    requires
        wf_entities(s),
    ensures
        match find_entity_spec(s, id) {
            Some(e) => wf_entity(e),
            None => true,
        },
    decreases s.len(),
{
    if s.len() > 0 && s[0].id != id {
        assert(forall|i: int| 0 <= i < s.drop_first().len() ==> #[trigger] s.drop_first()[i] == s[i + 1]);
        lemma_find_entity_wf(s.drop_first(), id);
    }
}

/// Resolves one frame: what the cursor points at.
///
/// Casts a ray through the terrain, derives the build and select cells
/// when the hit is within pickup range of the player reference point, and
/// independently picks the entity whose sphere surface is nearest along
/// the (occlusion-truncated) ray.  Deterministic: the result is exactly
/// [`resolve_spec`] of the arguments, so resolving twice with an
/// unchanged snapshot and pose yields identical output.
pub fn resolve(snap: &WorldSnapshot, cam_pos: Vec3, cam_dir: Vec3, player: u64) -> (res:
    TargetResolution)
    requires
        in_bounds(cam_pos),
        dir_bounded(cam_dir),
        wf_entities(snap.entities@),
    ensures
        res == resolve_spec(snap.terrain.voxels@, snap.entities@, cam_pos, cam_dir, player),
{
    let ghost tvox = snap.terrain.voxels@;
    let ghost ents = snap.entities@;

    // Reference point for range checks: player position raised by two
    // world units, falling back to the camera position.
    let player_ref: Vec3 = match snap.find_entity(player) {
        Some(e) => {
            proof {
                lemma_find_entity_wf(ents, player);
            }
            Vec3 { x: e.pos.x, y: e.pos.y, z: e.pos.z + 2000 }
        },
        None => cam_pos,
    };
    assert(player_ref == player_ref_spec(ents, player, cam_pos));
    assert(within(player_ref, POINT_LIMIT));

    let ray = snap.terrain.cast_ray(cam_pos, cam_dir);
    let cam_dist = ray.0;

    // Terrain build/select cells, when hit and in pickup range.
    let (build_pos, select_pos): (Option<Vec3>, Option<Vec3>) = if ray.1.is_some() {
        let hit_point = point_at(cam_pos, cam_dir, cam_dist);
        let ds = dist_sqr(player_ref, hit_point);
        if ds <= MAX_PICKUP_RANGE_SQR {
            (
                Some(voxel_of(point_at(cam_pos, cam_dir, cam_dist - RAY_EPSILON))),
                Some(voxel_of(point_at(cam_pos, cam_dir, cam_dist + RAY_EPSILON))),
            )
        } else {
            (None, None)
        }
    } else {
        (None, None)
    };

    // Occlusion: terrain truncates the entity search distance.
    let cast: i64 = if ray.1.is_some() {
        if cam_dist < MAX_TARGET_RANGE {
            cam_dist
        } else {
            MAX_TARGET_RANGE
        }
    } else {
        MAX_TARGET_RANGE
    };
    assert(cast == cast_dist_spec(first_hit(tvox, cam_pos, cam_dir)));
    let seg_end = point_at(cam_pos, cam_dir, cast);

    // Scan all entities for the candidate with the smallest surface key.
    let n = snap.entities.len();
    let mut best: Option<(Entity, i64)> = None;
    let mut i: usize = 0;
    while i < n
        invariant
            n == ents.len(),
            0 <= i <= n,
            in_bounds(cam_pos),
            dir_bounded(cam_dir),
            wf_entities(ents),
            ents == snap.entities@,
            within(seg_end, POINT_LIMIT),
            seg_end == point_at_spec(cam_pos, cam_dir, cast as int),
            0 <= cast <= MAX_TARGET_RANGE,
            match best {
                None => best_upto(ents, i as int, cam_pos, seg_end, player, cast as int).is_none(),
                Some((b, k)) => best_upto(ents, i as int, cam_pos, seg_end, player, cast as int)
                    == Some(b) && k == surf_key(b, cam_pos) && wf_entity(b),
            },
        decreases n - i,
    {
        let e = snap.entities[i];
        if e.id != player {
            let r = radius(&e);
            let aim = Vec3 { x: e.pos.x, y: e.pos.y, z: e.pos.z + r };
            assert(aim == aim_pos_spec(e));
            let d_sqr = dist_sqr(aim, cam_pos);
            let thr = cast + r;
            proof {
                lemma_square_bound(thr as int, 3_300_000);
                lemma_square_bound(r as int, 3_000_000);
            }
            let elig = d_sqr <= thr * thr && d_sqr > r * r;
            assert(elig == eligible(e, cam_pos, player, cast as int));
            if elig && seg_sphere_hit_exec(cam_pos, seg_end, aim, r) {
                let key = isqrt(d_sqr as u64) as i64 - r;
                assert(key == surf_key(e, cam_pos));
                match best {
                    None => {
                        best = Some((e, key));
                    },
                    Some((_b, bk)) => {
                        if key < bk {
                            best = Some((e, key));
                        }
                    },
                }
            }
        }
        i = i + 1;
    }

    // Final player-range acceptance of the chosen candidate.
    let target_entity: Option<(u64, i64)> = match best {
        None => None,
        Some((e, _key)) => {
            let r = radius(&e);
            let aim = Vec3 { x: e.pos.x, y: e.pos.y, z: e.pos.z + r };
            let dp_sqr = dist_sqr(aim, player_ref);
            let dp = isqrt(dp_sqr as u64) as i64;
            if dp - r < MAX_TARGET_RANGE {
                Some((e.id, dp))
            } else {
                None
            }
        },
    };

    TargetResolution { build_pos, select_pos, target_entity }
}

/// A resolved select cell is kept only when its block may actually be
/// acted on: it is collectible, or the player can build.
pub open spec fn filter_select_spec(
    t: Seq<VoxelEntry>,
    select_pos: Option<Vec3>,
    can_build: bool,
) -> Option<Vec3> {
    match select_pos {
        None => None,
        Some(sp) => match crate::world::block_at_spec(t, sp) {
            Some(b) => if b.collectible || can_build {
                Some(sp)
            } else {
                None
            },
            None => None,
        },
    }
}

/// Keeps a select cell only if it is collectible or the player has build
/// permission: what the dispatcher's collect and remove actions accept.
pub fn filter_select_pos(
    terrain: &crate::world::Terrain,
    select_pos: Option<Vec3>,
    can_build: bool,
) -> (r: Option<Vec3>)
    ensures
        r == filter_select_spec(terrain.voxels@, select_pos, can_build),
{
    match select_pos {
        None => None,
        Some(sp) => match terrain.block_at(sp) {
            Some(b) => if b.collectible || can_build {
                Some(sp)
            } else {
                None
            },
            None => None,
        },
    }
}

proof fn lemma_best_upto_min(
    s: Seq<Entity>,
    n: int,
    cam: Vec3,
    seg_end: Vec3,
    player: u64,
    cast: int,
)
    requires
        0 <= n <= s.len(),
    ensures
        match best_upto(s, n, cam, seg_end, player, cast) {
            Some(b) => (exists|i: int| 0 <= i < n && s[i] == b) && candidate(
                b,
                cam,
                seg_end,
                player,
                cast,
            ) && (forall|j: int|
                0 <= j < n && candidate(#[trigger] s[j], cam, seg_end, player, cast)
                    ==> surf_key(b, cam) <= surf_key(s[j], cam)),
            None => forall|j: int|
                0 <= j < n ==> !candidate(#[trigger] s[j], cam, seg_end, player, cast),
        },
    decreases n,
{
    if n > 0 {
        lemma_best_upto_min(s, n - 1, cam, seg_end, player, cast);
        let prev = best_upto(s, n - 1, cam, seg_end, player, cast);
        let e = s[n - 1];
        if candidate(e, cam, seg_end, player, cast) {
            match prev {
                None => {
                    assert(s[n - 1] == e);
                },
                Some(b) => {
                    if surf_key(e, cam) < surf_key(b, cam) {
                        assert(s[n - 1] == e);
                    }
                },
            }
        }
    }
}

/// No entity is listed, or every non-player entity is coarsely out of the
/// full target range from the camera.
pub open spec fn out_of_target_range(e: Entity, cam: Vec3, player: u64) -> bool {
    let r = radius_spec(e);
    e.id == player || sq_dist(aim_pos_spec(e), cam) > (MAX_TARGET_RANGE + r) * (MAX_TARGET_RANGE
        + r)
}

/// With no voxel hit along the ray and no entity within range, a frame
/// resolves to the empty triple: no build cell, no select cell, no
/// target.
pub proof fn lemma_empty_frame(
    t: Seq<VoxelEntry>,
    s: Seq<Entity>,
    cam: Vec3,
    dir: Vec3,
    player: u64,
)
    requires
        first_hit(t, cam, dir).is_none(),
        forall|i: int| 0 <= i < s.len() ==> out_of_target_range(#[trigger] s[i], cam, player),
    ensures
        resolve_spec(t, s, cam, dir, player) == (TargetResolution {
            build_pos: None,
            select_pos: None,
            target_entity: None,
        }),
{
    let cast = cast_dist_spec(first_hit(t, cam, dir));
    let seg_end = point_at_spec(cam, dir, cast);
    assert(cast == MAX_TARGET_RANGE as int);
    assert forall|j: int| 0 <= j < s.len() implies !candidate(
        #[trigger] s[j],
        cam,
        seg_end,
        player,
        cast,
    ) by {
        assert(out_of_target_range(s[j], cam, player));
    }
    lemma_best_upto_none(s, s.len() as int, cam, seg_end, player, cast);
}

proof fn lemma_best_upto_none(
    s: Seq<Entity>,
    n: int,
    cam: Vec3,
    seg_end: Vec3,
    player: u64,
    cast: int,
)
    requires
        0 <= n <= s.len(),
        forall|j: int| 0 <= j < n ==> !candidate(#[trigger] s[j], cam, seg_end, player, cast),
    ensures
        best_upto(s, n, cam, seg_end, player, cast).is_none(),
    decreases n,
{
    if n > 0 {
        lemma_best_upto_none(s, n - 1, cam, seg_end, player, cast);
    }
}

/// The player's own entity never appears as the resolved target,
/// whatever the pose and snapshot.
pub proof fn lemma_no_self_target(
    t: Seq<VoxelEntry>,
    s: Seq<Entity>,
    cam: Vec3,
    dir: Vec3,
    player: u64,
)
    ensures
        match resolve_spec(t, s, cam, dir, player).target_entity {
            Some(p) => p.0 != player,
            None => true,
        },
{
    let cast = cast_dist_spec(first_hit(t, cam, dir));
    let seg_end = point_at_spec(cam, dir, cast);
    lemma_best_upto_min(s, s.len() as int, cam, seg_end, player, cast);
}

/// Closest-surface tie-break: whenever a target is resolved, the chosen
/// candidate's surface key (camera distance minus radius) is no larger
/// than that of any other candidate whose sphere intersects the ray
/// segment — the nearer surface wins, not the nearer center.
pub proof fn lemma_target_closest_surface(
    t: Seq<VoxelEntry>,
    s: Seq<Entity>,
    cam: Vec3,
    dir: Vec3,
    player: u64,
)
    ensures
        ({
            let cast = cast_dist_spec(first_hit(t, cam, dir));
            let seg_end = point_at_spec(cam, dir, cast);
            match entity_choice(s, cam, seg_end, player, cast) {
                Some(b) => candidate(b, cam, seg_end, player, cast) && (forall|j: int|
                    0 <= j < s.len() && candidate(#[trigger] s[j], cam, seg_end, player, cast)
                        ==> surf_key(b, cam) <= surf_key(s[j], cam)) && (match resolve_spec(
                    t,
                    s,
                    cam,
                    dir,
                    player,
                ).target_entity {
                    Some(p) => p.0 == b.id,
                    None => true,
                }),
                None => resolve_spec(t, s, cam, dir, player).target_entity.is_none(),
            }
        }),
{
    let cast = cast_dist_spec(first_hit(t, cam, dir));
    let seg_end = point_at_spec(cam, dir, cast);
    lemma_best_upto_min(s, s.len() as int, cam, seg_end, player, cast);
}

/// The terrain cells are produced together, and only when the ray hit a
/// voxel whose hit point lies within pickup range of the player
/// reference point.
pub proof fn lemma_cells_need_hit_in_range(
    t: Seq<VoxelEntry>,
    s: Seq<Entity>,
    cam: Vec3,
    dir: Vec3,
    player: u64,
)
    ensures
        ({
            let r = resolve_spec(t, s, cam, dir, player);
            &&& r.build_pos.is_some() == r.select_pos.is_some()
            &&& r.select_pos.is_some() ==> match first_hit(t, cam, dir) {
                Some(k) => sq_dist(
                    player_ref_spec(s, player, cam),
                    point_at_spec(cam, dir, k * RAY_STEP),
                ) <= MAX_PICKUP_RANGE_SQR,
                None => false,
            }
        }),
{
}

proof fn lemma_axis_adjacent(c: int, dc: int, d: int)
    requires
        -1000 <= dc <= 1000,
        0 <= d <= 100_000,
    ensures
        dc >= 0 ==> (c + (dc * (d - 10)) / 1000) / 1000 <= (c + (dc * (d + 10)) / 1000) / 1000
            <= (c + (dc * (d - 10)) / 1000) / 1000 + 1,
        dc <= 0 ==> (c + (dc * (d + 10)) / 1000) / 1000 <= (c + (dc * (d - 10)) / 1000) / 1000
            <= (c + (dc * (d + 10)) / 1000) / 1000 + 1,
{
    let a1 = dc * (d - 10);
    let a2 = dc * (d + 10);
    assert(a2 - a1 == 20 * dc) by (nonlinear_arith)
        requires
            a1 == dc * (d - 10),
            a2 == dc * (d + 10),
    ;
    let p1 = a1 / 1000;
    let p2 = a2 / 1000;
    if dc >= 0 {
        lemma_div_is_ordered(a1, a2, 1000);
        vstd::arithmetic::div_mod::lemma_hoist_over_denominator(a1, 20, 1000nat);
        lemma_div_is_ordered(a2, a1 + 20 * 1000, 1000);
        let x1 = c + p1;
        let x2 = c + p2;
        lemma_div_is_ordered(x1, x2, 1000);
        vstd::arithmetic::div_mod::lemma_hoist_over_denominator(x1, 1, 1000nat);
        lemma_div_is_ordered(x2, x1 + 1 * 1000, 1000);
    } else {
        lemma_div_is_ordered(a2, a1, 1000);
        vstd::arithmetic::div_mod::lemma_hoist_over_denominator(a2, 20, 1000nat);
        lemma_div_is_ordered(a1, a2 + 20 * 1000, 1000);
        let x1 = c + p1;
        let x2 = c + p2;
        lemma_div_is_ordered(x2, x1, 1000);
        vstd::arithmetic::div_mod::lemma_hoist_over_denominator(x2, 1, 1000nat);
        lemma_div_is_ordered(x1, x2 + 1 * 1000, 1000);
    }
}

proof fn lemma_cell_axis_value(c: int, dc: int, t: int)
    requires
        -800_000_000 <= c <= 800_000_000,
        -1000 <= dc <= 1000,
        -2_000_000 <= t <= 2_000_000,
    ensures
        -2_000_000 <= (dc * t) / 1000 <= 2_000_000,
        -810_000_000 <= c + (dc * t) / 1000 <= 810_000_000,
        -810_000 <= (c + (dc * t) / 1000) / 1000 <= 810_000,
{
    lemma_mul_bound(dc, t, 1000, 2_000_000);
    lemma_div_is_ordered(-2_000_000_000, dc * t, 1000);
    lemma_div_is_ordered(dc * t, 2_000_000_000, 1000);
    assert(-2_000_000_000int / 1000 == -2_000_000) by (nonlinear_arith);
    assert(2_000_000_000int / 1000 == 2_000_000) by (nonlinear_arith);
    lemma_div_is_ordered(-810_000_000, c + (dc * t) / 1000, 1000);
    lemma_div_is_ordered(c + (dc * t) / 1000, 810_000_000, 1000);
    assert(-810_000_000int / 1000 == -810_000) by (nonlinear_arith);
    assert(810_000_000int / 1000 == 810_000) by (nonlinear_arith);
}

/// When a voxel hit yields build and select cells, the two cells are
/// adjacent along the ray: on each axis the select cell is at most one
/// voxel step from the build cell, and only in the direction the ray
/// points.  Whenever the ray crosses a voxel boundary between them they
/// therefore differ by exactly one step.
pub proof fn lemma_build_select_adjacent(
    t: Seq<VoxelEntry>,
    s: Seq<Entity>,
    cam: Vec3,
    dir: Vec3,
    player: u64,
)
    requires
        in_bounds(cam),
        dir_bounded(dir),
    ensures
        ({
            let r = resolve_spec(t, s, cam, dir, player);
            match (r.build_pos, r.select_pos) {
                (Some(b), Some(sel)) => {
                    &&& dir.x >= 0 ==> b.x <= sel.x <= b.x + 1
                    &&& dir.x <= 0 ==> sel.x <= b.x <= sel.x + 1
                    &&& dir.y >= 0 ==> b.y <= sel.y <= b.y + 1
                    &&& dir.y <= 0 ==> sel.y <= b.y <= sel.y + 1
                    &&& dir.z >= 0 ==> b.z <= sel.z <= b.z + 1
                    &&& dir.z <= 0 ==> sel.z <= b.z <= sel.z + 1
                },
                (None, None) => true,
                _ => false,
            }
        }),
{
    let r = resolve_spec(t, s, cam, dir, player);
    match first_hit(t, cam, dir) {
        Some(k) => {
            lemma_first_hit_in_range(t, cam, dir, 0);
            let d = k * RAY_STEP;
            assert(0 <= k <= 2000);
            assert(0 <= d <= 100_000) by (nonlinear_arith)
                requires
                    0 <= k <= 2000,
                    d == k * 50,
            ;
            let pref = player_ref_spec(s, player, cam);
            if sq_dist(pref, point_at_spec(cam, dir, d)) <= MAX_PICKUP_RANGE_SQR {
                let t1 = d - 10;
                let t2 = d + 10;
                lemma_cell_axis_value(cam.x as int, dir.x as int, t1);
                lemma_cell_axis_value(cam.y as int, dir.y as int, t1);
                lemma_cell_axis_value(cam.z as int, dir.z as int, t1);
                lemma_cell_axis_value(cam.x as int, dir.x as int, t2);
                lemma_cell_axis_value(cam.y as int, dir.y as int, t2);
                lemma_cell_axis_value(cam.z as int, dir.z as int, t2);
                let p1 = point_at_spec(cam, dir, t1);
                let p2 = point_at_spec(cam, dir, t2);
                assert(p1.x as int == cam.x + (dir.x * t1) / 1000);
                assert(p1.y as int == cam.y + (dir.y * t1) / 1000);
                assert(p1.z as int == cam.z + (dir.z * t1) / 1000);
                assert(p2.x as int == cam.x + (dir.x * t2) / 1000);
                assert(p2.y as int == cam.y + (dir.y * t2) / 1000);
                assert(p2.z as int == cam.z + (dir.z * t2) / 1000);
                let b = voxel_of_spec(p1);
                let sel = voxel_of_spec(p2);
                assert(b.x as int == (cam.x + (dir.x * t1) / 1000) / 1000);
                assert(b.y as int == (cam.y + (dir.y * t1) / 1000) / 1000);
                assert(b.z as int == (cam.z + (dir.z * t1) / 1000) / 1000);
                assert(sel.x as int == (cam.x + (dir.x * t2) / 1000) / 1000);
                assert(sel.y as int == (cam.y + (dir.y * t2) / 1000) / 1000);
                assert(sel.z as int == (cam.z + (dir.z * t2) / 1000) / 1000);
                lemma_axis_adjacent(cam.x as int, dir.x as int, d);
                lemma_axis_adjacent(cam.y as int, dir.y as int, d);
                lemma_axis_adjacent(cam.z as int, dir.z as int, d);
            }
        },
        None => {},
    }
}

proof fn lemma_first_hit_in_range(t: Seq<VoxelEntry>, cam: Vec3, dir: Vec3, k0: int)
    requires
        0 <= k0,
    ensures
        match crate::world::first_hit_from(t, cam, dir, k0) {
            Some(k) => k0 <= k <= crate::world::RAY_STEPS,
            None => true,
        },
    decreases crate::world::RAY_STEPS + 1 - k0,
{
    if k0 <= crate::world::RAY_STEPS && !crate::world::ray_hits_at(t, cam, dir, k0) {
        lemma_first_hit_in_range(t, cam, dir, k0 + 1);
    }
}

} // verus!

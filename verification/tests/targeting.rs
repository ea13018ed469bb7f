//! Resolver scenarios: terrain hits, entity targeting, determinism.

use targeting::{resolve, Block, Entity, Terrain, TargetResolution, Vec3, VoxelEntry, WorldSnapshot};

fn v(x: i64, y: i64, z: i64) -> Vec3 {
    Vec3 { x, y, z }
}

fn solid(x: i64, y: i64, z: i64) -> VoxelEntry {
    VoxelEntry { pos: v(x, y, z), block: Block { solid: true, collectible: false } }
}

fn plain_entity(id: u64, pos: Vec3) -> Entity {
    Entity { id, pos, scale: 1000, body_radius: 200, mounted: false, is_item: false }
}

fn empty_world() -> WorldSnapshot {
    WorldSnapshot { terrain: Terrain { voxels: Vec::new() }, entities: Vec::new() }
}

#[test]
fn empty_world_resolves_to_nothing() {
    let snap = empty_world();
    let res = resolve(&snap, v(0, 0, 0), v(1000, 0, 0), 1);
    assert_eq!(res.build_pos, None);
    assert_eq!(res.select_pos, None);
    assert_eq!(res.target_entity, None);
}

#[test]
fn far_entities_resolve_to_nothing() {
    // One entity far beyond the 300-unit target range, nothing else.
    let snap = WorldSnapshot {
        terrain: Terrain { voxels: Vec::new() },
        entities: vec![plain_entity(2, v(400_000, 0, 0))],
    };
    let res = resolve(&snap, v(0, 0, 0), v(1000, 0, 0), 1);
    assert_eq!(res, TargetResolution { build_pos: None, select_pos: None, target_entity: None });
}

#[test]
fn solid_voxel_straight_ahead() {
    // Player at the origin facing +x, a solid voxel at (5,0,0), pickup
    // range covers 5 units: select the hit voxel, build just before it.
    let snap = WorldSnapshot {
        terrain: Terrain { voxels: vec![solid(5, 0, 0)] },
        entities: vec![plain_entity(1, v(0, 0, 0))],
    };
    let res = resolve(&snap, v(0, 0, 0), v(1000, 0, 0), 1);
    assert_eq!(res.select_pos, Some(v(5, 0, 0)));
    assert_eq!(res.build_pos, Some(v(4, 0, 0)));
    assert_eq!(res.target_entity, None);
}

#[test]
fn voxel_beyond_pickup_range_gives_no_cells() {
    // A solid voxel 20 units out: the ray hits it, but it is beyond the
    // 8-unit pickup range, so neither cell is produced.
    let snap = WorldSnapshot {
        terrain: Terrain { voxels: vec![solid(20, 0, 0)] },
        entities: vec![plain_entity(1, v(0, 0, 0))],
    };
    let res = resolve(&snap, v(0, 0, 0), v(1000, 0, 0), 1);
    assert_eq!(res.build_pos, None);
    assert_eq!(res.select_pos, None);
}

#[test]
fn build_and_select_adjacent_diagonal() {
    // A diagonal ray: whenever both cells exist they differ by at most
    // one step per axis, in the ray's direction.
    let snap = WorldSnapshot {
        terrain: Terrain { voxels: vec![solid(3, 3, 0)] },
        entities: vec![plain_entity(1, v(0, 0, 0))],
    };
    // Direction roughly along the x=y diagonal (components under one unit).
    let res = resolve(&snap, v(500, 500, 500), v(707, 707, 0), 1);
    let b = res.build_pos.expect("build cell");
    let s = res.select_pos.expect("select cell");
    assert!(b.x <= s.x && s.x <= b.x + 1);
    assert!(b.y <= s.y && s.y <= b.y + 1);
    assert_eq!(b.z, s.z);
}

#[test]
fn closest_surface_wins_over_closest_center() {
    // Two spheres overlap the ray: the big one's center is farther but
    // its surface is nearer along the ray, so it wins.
    let near_center = Entity {
        id: 2,
        pos: v(10_000, 0, -500),
        scale: 1000,
        body_radius: 333, // effective radius 999
        mounted: false,
        is_item: false,
    };
    let big_far_center = Entity {
        id: 3,
        pos: v(13_000, 0, -4_500),
        scale: 1000,
        body_radius: 1667, // effective radius 5001
        mounted: false,
        is_item: false,
    };
    let snap = WorldSnapshot {
        terrain: Terrain { voxels: Vec::new() },
        entities: vec![plain_entity(1, v(0, 0, 0)), near_center, big_far_center],
    };
    let res = resolve(&snap, v(0, 0, 0), v(1000, 0, 0), 1);
    let (id, _dist) = res.target_entity.expect("a target");
    assert_eq!(id, 3);
}

#[test]
fn player_is_never_its_own_target() {
    // Only the player intersects the ray: no target may be produced.
    let snap = WorldSnapshot {
        terrain: Terrain { voxels: Vec::new() },
        entities: vec![Entity {
            id: 1,
            pos: v(5_000, 0, -1_000),
            scale: 1000,
            body_radius: 500,
            mounted: false,
            is_item: false,
        }],
    };
    let res = resolve(&snap, v(0, 0, 0), v(1000, 0, 0), 1);
    assert_eq!(res.target_entity, None);
}

#[test]
fn terrain_occludes_entity_behind_wall() {
    // A wall at 3 units hides an entity at 10 units.
    let entity = Entity {
        id: 2,
        pos: v(10_000, 0, -1_000),
        scale: 1000,
        body_radius: 500, // effective radius 1500
        mounted: false,
        is_item: false,
    };
    let mut voxels = Vec::new();
    for y in -2..3 {
        for z in -2..3 {
            voxels.push(solid(3, y, z));
        }
    }
    let snap = WorldSnapshot {
        terrain: Terrain { voxels },
        entities: vec![plain_entity(1, v(0, 0, 0)), entity],
    };
    let res = resolve(&snap, v(0, 0, 0), v(1000, 0, 0), 1);
    assert_eq!(res.select_pos, Some(v(3, 0, 0)));
    assert_eq!(res.target_entity, None);
}

#[test]
fn entity_in_front_of_wall_is_targeted() {
    // Same wall, entity in front of it: the entity is found.
    let entity = Entity {
        id: 2,
        pos: v(2_000, 0, -1_000),
        scale: 1000,
        body_radius: 500, // effective radius 1500
        mounted: false,
        is_item: false,
    };
    let mut voxels = Vec::new();
    for y in -2..3 {
        for z in -2..3 {
            voxels.push(solid(4, y, z));
        }
    }
    let snap = WorldSnapshot {
        terrain: Terrain { voxels },
        entities: vec![plain_entity(1, v(0, 0, 0)), entity],
    };
    let res = resolve(&snap, v(0, 0, 0), v(1000, 0, 0), 1);
    // Aim point (2000,0,500) to player reference (0,0,2000): squared
    // distance 6 250 000, so the reported distance is exactly 2500.
    assert_eq!(res.target_entity, Some((2, 2500)));
}

#[test]
fn resolving_twice_is_bit_identical() {
    let snap = WorldSnapshot {
        terrain: Terrain { voxels: vec![solid(5, 0, 0), solid(6, 1, 0)] },
        entities: vec![
            plain_entity(1, v(0, 0, 0)),
            Entity {
                id: 7,
                pos: v(4_000, 2_000, 0),
                scale: 1500,
                body_radius: 700,
                mounted: false,
                is_item: true,
            },
        ],
    };
    let first = resolve(&snap, v(100, 200, 300), v(990, 100, -50), 1);
    let second = resolve(&snap, v(100, 200, 300), v(990, 100, -50), 1);
    assert_eq!(first, second);
}

#[test]
fn camera_fallback_without_player_position() {
    // No entity carries the player's id: range checks fall back to the
    // camera position, and a voxel 5 units out is still selectable.
    let snap = WorldSnapshot {
        terrain: Terrain { voxels: vec![solid(5, 0, 0)] },
        entities: Vec::new(),
    };
    let res = resolve(&snap, v(0, 0, 0), v(1000, 0, 0), 1);
    assert_eq!(res.select_pos, Some(v(5, 0, 0)));
    assert_eq!(res.build_pos, Some(v(4, 0, 0)));
}

#[test]
fn collectible_voxel_stops_ray() {
    let snap = WorldSnapshot {
        terrain: Terrain {
            voxels: vec![VoxelEntry {
                pos: v(2, 0, 0),
                block: Block { solid: false, collectible: true },
            }],
        },
        entities: vec![plain_entity(1, v(0, 0, 0))],
    };
    let res = resolve(&snap, v(0, 0, 0), v(1000, 0, 0), 1);
    assert_eq!(res.select_pos, Some(v(2, 0, 0)));
}

#[test]
fn negative_direction_flooring() {
    // Looking down -x with the hit sample landing on the cell boundary:
    // voxel (-3,0,0) is selected and the build cell sits one step toward
    // the camera, on the negative axis.
    let snap = WorldSnapshot {
        terrain: Terrain { voxels: vec![solid(-3, 0, 0)] },
        entities: vec![plain_entity(1, v(0, 0, 0))],
    };
    let res = resolve(&snap, v(-1, 500, 500), v(-1000, 0, 0), 1);
    assert_eq!(res.select_pos, Some(v(-3, 0, 0)));
    assert_eq!(res.build_pos, Some(v(-2, 0, 0)));
}

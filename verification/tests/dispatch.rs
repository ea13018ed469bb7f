//! Dispatcher policies: break/attack branching, mount, collect, toggles.

use targeting::{Block, Channel, Controls, Entity, FrameContext, Intent, PressBehavior, Vec3};
use targeting::resolve::filter_select_pos;
use targeting::world::{Terrain, VoxelEntry};

fn v(x: i64, y: i64, z: i64) -> Vec3 {
    Vec3 { x, y, z }
}

fn stone() -> Block {
    Block { solid: true, collectible: false }
}

fn base_ctx() -> FrameContext {
    FrameContext {
        can_build: false,
        build_pos: None,
        select_pos: None,
        target_entity: None,
        is_mounted: false,
        player: 1,
        player_pos: Some(v(0, 0, 0)),
        entities: Vec::new(),
        free_look_behavior: PressBehavior::Toggle,
        auto_walk_behavior: PressBehavior::Toggle,
        stop_auto_walk_on_input: false,
        now: 0,
    }
}

fn item(id: u64, pos: Vec3) -> Entity {
    Entity { id, pos, scale: 1000, body_radius: 100, mounted: false, is_item: true }
}

fn beast(id: u64, pos: Vec3, mounted: bool) -> Entity {
    Entity { id, pos, scale: 1000, body_radius: 400, mounted, is_item: false }
}

#[test]
fn primary_with_build_permission_breaks_block() {
    let mut c = Controls::new(stone());
    let mut ctx = base_ctx();
    ctx.can_build = true;
    ctx.select_pos = Some(v(5, 0, 0));
    let out = c.handle_input(Channel::Primary, true, &ctx);
    assert_eq!(out, vec![Intent::RemoveBlock(v(5, 0, 0))]);
    assert!(!c.attack_held);
    // Held: no second removal while the level stays up.
    let out2 = c.handle_input(Channel::Primary, true, &ctx);
    assert_eq!(out2, Vec::new());
}

#[test]
fn primary_without_permission_is_level_triggered_attack() {
    let mut c = Controls::new(stone());
    let ctx = base_ctx();
    let out = c.handle_input(Channel::Primary, true, &ctx);
    assert_eq!(out, Vec::new());
    assert!(c.attack_held);
    let out2 = c.handle_input(Channel::Primary, false, &ctx);
    assert_eq!(out2, Vec::new());
    assert!(!c.attack_held);
}

#[test]
fn secondary_places_selected_block() {
    let mut c = Controls::new(stone());
    let mut ctx = base_ctx();
    ctx.can_build = true;
    ctx.build_pos = Some(v(4, 0, 0));
    let out = c.handle_input(Channel::Secondary, true, &ctx);
    assert_eq!(out, vec![Intent::PlaceBlock(v(4, 0, 0), stone())]);
    assert!(!c.secondary_held);
}

#[test]
fn secondary_without_permission_is_level_triggered() {
    let mut c = Controls::new(stone());
    let ctx = base_ctx();
    let out = c.handle_input(Channel::Secondary, true, &ctx);
    assert_eq!(out, Vec::new());
    assert!(c.secondary_held);
}

#[test]
fn mount_picks_nearest_in_range() {
    // Two unmounted entities at squared distances 100 and 400 world
    // units (mount range covers 500): the nearer one is mounted.
    let mut c = Controls::new(stone());
    let mut ctx = base_ctx();
    ctx.entities = vec![
        beast(20, v(20_000, 0, 0), false), // squared distance 400
        beast(10, v(10_000, 0, 0), false), // squared distance 100
        beast(30, v(30_000, 0, 0), false), // squared distance 900: out of range
    ];
    let out = c.handle_input(Channel::Mount, true, &ctx);
    assert_eq!(out, vec![Intent::Mount(10)]);
}

#[test]
fn mount_skips_mounted_and_player() {
    let mut c = Controls::new(stone());
    let mut ctx = base_ctx();
    ctx.entities = vec![
        beast(1, v(1_000, 0, 0), false),  // the player itself
        beast(5, v(2_000, 0, 0), true),   // already mounted
        beast(6, v(9_000, 0, 0), false),
    ];
    let out = c.handle_input(Channel::Mount, true, &ctx);
    assert_eq!(out, vec![Intent::Mount(6)]);
}

#[test]
fn mount_when_mounted_unmounts() {
    let mut c = Controls::new(stone());
    let mut ctx = base_ctx();
    ctx.is_mounted = true;
    ctx.entities = vec![beast(6, v(9_000, 0, 0), false)];
    let out = c.handle_input(Channel::Mount, true, &ctx);
    assert_eq!(out, vec![Intent::Unmount]);
}

#[test]
fn mount_with_none_in_range_is_noop() {
    let mut c = Controls::new(stone());
    let mut ctx = base_ctx();
    ctx.entities = vec![beast(6, v(30_000, 0, 0), false)];
    let out = c.handle_input(Channel::Mount, true, &ctx);
    assert_eq!(out, Vec::new());
}

#[test]
fn interact_collects_and_picks_up_together() {
    let mut c = Controls::new(stone());
    let mut ctx = base_ctx();
    ctx.select_pos = Some(v(2, 0, 0));
    ctx.entities = vec![item(9, v(3_000, 0, 0))];
    let out = c.handle_input(Channel::Interact, true, &ctx);
    assert_eq!(out, vec![Intent::CollectBlock(v(2, 0, 0)), Intent::PickUp(9)]);
}

#[test]
fn interact_prefers_resolved_target() {
    let mut c = Controls::new(stone());
    let mut ctx = base_ctx();
    ctx.target_entity = Some(77);
    ctx.entities = vec![item(9, v(3_000, 0, 0))];
    let out = c.handle_input(Channel::Interact, true, &ctx);
    assert_eq!(out, vec![Intent::PickUp(77)]);
}

#[test]
fn interact_picks_nearest_item_only_in_range() {
    let mut c = Controls::new(stone());
    let mut ctx = base_ctx();
    ctx.entities = vec![
        item(9, v(9_000, 0, 0)),   // 81 < 64? no: squared distance 81, out of range
        item(4, v(4_000, 0, 0)),   // squared distance 16: in range
        item(6, v(6_000, 0, 0)),   // squared distance 36: in range, farther
    ];
    let out = c.handle_input(Channel::Interact, true, &ctx);
    assert_eq!(out, vec![Intent::PickUp(4)]);
}

#[test]
fn interact_release_does_nothing() {
    let mut c = Controls::new(stone());
    let mut ctx = base_ctx();
    ctx.select_pos = Some(v(2, 0, 0));
    c.handle_input(Channel::Interact, true, &ctx);
    let out = c.handle_input(Channel::Interact, false, &ctx);
    assert_eq!(out, Vec::new());
}

#[test]
fn sit_cancels_auto_walk() {
    let mut c = Controls::new(stone());
    let mut ctx = base_ctx();
    ctx.auto_walk_behavior = PressBehavior::Hold;
    c.handle_input(Channel::AutoWalk, true, &ctx);
    assert!(c.auto_walk);
    let out = c.handle_input(Channel::Sit, true, &ctx);
    assert_eq!(out, vec![Intent::ToggleSit]);
    assert!(!c.auto_walk);
}

#[test]
fn respawn_cancels_auto_walk_on_any_edge() {
    let mut c = Controls::new(stone());
    let mut ctx = base_ctx();
    ctx.auto_walk_behavior = PressBehavior::Hold;
    c.handle_input(Channel::AutoWalk, true, &ctx);
    let out = c.handle_input(Channel::Respawn, true, &ctx);
    assert_eq!(out, vec![Intent::Respawn]);
    assert!(!c.auto_walk);
    // Falling edge also clears the latch, but emits nothing.
    c.handle_input(Channel::AutoWalk, false, &ctx);
    c.handle_input(Channel::AutoWalk, true, &ctx);
    assert!(c.auto_walk);
    let out2 = c.handle_input(Channel::Respawn, false, &ctx);
    assert_eq!(out2, Vec::new());
    assert!(!c.auto_walk);
}

#[test]
fn glide_toggle_is_edge_triggered() {
    let mut c = Controls::new(stone());
    let ctx = base_ctx();
    assert_eq!(c.handle_input(Channel::Glide, true, &ctx), vec![Intent::ToggleGlide]);
    assert_eq!(c.handle_input(Channel::Glide, true, &ctx), Vec::new());
    assert_eq!(c.handle_input(Channel::Glide, false, &ctx), Vec::new());
    assert_eq!(c.handle_input(Channel::Glide, true, &ctx), vec![Intent::ToggleGlide]);
}

#[test]
fn free_look_toggle_behavior() {
    let mut c = Controls::new(stone());
    let ctx = base_ctx(); // Toggle
    c.handle_input(Channel::FreeLook, true, &ctx);
    assert!(c.free_look);
    c.handle_input(Channel::FreeLook, false, &ctx);
    assert!(c.free_look);
    c.handle_input(Channel::FreeLook, true, &ctx);
    assert!(!c.free_look);
}

#[test]
fn free_look_hold_behavior() {
    let mut c = Controls::new(stone());
    let mut ctx = base_ctx();
    ctx.free_look_behavior = PressBehavior::Hold;
    c.handle_input(Channel::FreeLook, true, &ctx);
    assert!(c.free_look);
    c.handle_input(Channel::FreeLook, false, &ctx);
    assert!(!c.free_look);
}

#[test]
fn select_release_latches_target() {
    let mut c = Controls::new(stone());
    let mut ctx = base_ctx();
    ctx.target_entity = Some(42);
    ctx.now = 777;
    c.handle_input(Channel::Select, true, &ctx);
    assert_eq!(c.selected_entity, None);
    c.handle_input(Channel::Select, false, &ctx);
    assert_eq!(c.selected_entity, Some((42, 777)));
}

#[test]
fn movement_stops_auto_walk_when_configured() {
    let mut c = Controls::new(stone());
    let mut ctx = base_ctx();
    ctx.auto_walk_behavior = PressBehavior::Hold;
    ctx.stop_auto_walk_on_input = true;
    c.handle_input(Channel::AutoWalk, true, &ctx);
    assert!(c.auto_walk);
    c.handle_input(Channel::MoveForward, true, &ctx);
    assert!(!c.auto_walk);
}

#[test]
fn dir_vec_combines_keys_and_auto_walk() {
    let mut c = Controls::new(stone());
    let mut ctx = base_ctx();
    assert_eq!(c.dir_vec(), (0, 0));
    c.handle_input(Channel::MoveRight, true, &ctx);
    c.handle_input(Channel::MoveBack, true, &ctx);
    assert_eq!(c.dir_vec(), (1, -1));
    c.handle_input(Channel::MoveLeft, true, &ctx);
    assert_eq!(c.dir_vec(), (0, -1));
    // Auto-walk acts like a held forward key.
    ctx.auto_walk_behavior = PressBehavior::Hold;
    c.handle_input(Channel::AutoWalk, true, &ctx);
    assert_eq!(c.dir_vec(), (0, 0));
}

#[test]
fn filter_select_keeps_collectible_or_buildable() {
    let terrain = Terrain {
        voxels: vec![
            VoxelEntry { pos: v(1, 0, 0), block: Block { solid: true, collectible: false } },
            VoxelEntry { pos: v(2, 0, 0), block: Block { solid: false, collectible: true } },
        ],
    };
    // Solid, no build permission: filtered out.
    assert_eq!(filter_select_pos(&terrain, Some(v(1, 0, 0)), false), None);
    // Solid, with build permission: kept.
    assert_eq!(filter_select_pos(&terrain, Some(v(1, 0, 0)), true), Some(v(1, 0, 0)));
    // Collectible: kept without permission.
    assert_eq!(filter_select_pos(&terrain, Some(v(2, 0, 0)), false), Some(v(2, 0, 0)));
    // Unknown cell: dropped.
    assert_eq!(filter_select_pos(&terrain, Some(v(9, 0, 0)), false), None);
    assert_eq!(filter_select_pos(&terrain, None, true), None);
}

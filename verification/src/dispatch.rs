//! The action dispatcher.
//!
//! One call per raw input event: the event's channel and level are run
//! through the edge tracker, then the frame's read-only facts (targeting
//! resolution, permissions, entity list) decide which one-shot intents
//! are emitted and how the session latches (attack level, secondary
//! level, free-look, auto-walk, selected entity) move.  Absence of a
//! valid target or permission is a silent no-op, never an error.

use vstd::prelude::*;

verus! {

use crate::math::Vec3;
use crate::math::{in_bounds, sq_dist};
use crate::math::dist_sqr;
use crate::world::{Block, Entity, wf_entities};
use crate::input::{Channel, Edge, EdgeTracker};

/// Squared mount range, fixed point: entities farther than this from the
/// player cannot be mounted.
pub const MAX_MOUNT_RANGE_SQR: i64 = 500_000_000;

/// Squared pickup range for lootable entities, fixed point.
pub const MAX_PICKUP_RANGE_SQR: i64 = 64_000_000;

/// How a configurable press input behaves.
#[derive(Clone, Copy, PartialEq, Eq, Structural, Debug)]
pub enum PressBehavior {
    /// Flip the latch on each rising edge.
    Toggle,
    /// Mirror the raw level every frame.
    Hold,
}

/// A one-shot intent emitted toward the simulation layer.
#[derive(Clone, Copy, PartialEq, Eq, Structural, Debug)]
pub enum Intent {
    RemoveBlock(Vec3),
    PlaceBlock(Vec3, Block),
    Mount(u64),
    Unmount,
    CollectBlock(Vec3),
    PickUp(u64),
    ToggleSit,
    ToggleDance,
    ToggleSneak,
    ToggleGlide,
    ToggleWield,
    SwapLoadout,
    Respawn,
}

/// The read-only facts of one frame that the dispatcher consults.
pub struct FrameContext {
    /// The player currently has build permission.
    pub can_build: bool,
    /// Build cell from this frame's resolution.
    pub build_pos: Option<Vec3>,
    /// Select cell from this frame's resolution, already filtered to
    /// collectible-or-buildable cells.
    pub select_pos: Option<Vec3>,
    /// Entity under the cursor from this frame's resolution.
    pub target_entity: Option<u64>,
    /// The player is currently mounted.
    pub is_mounted: bool,
    /// The player's entity identifier.
    pub player: u64,
    /// The player's feet position, if it has one.
    pub player_pos: Option<Vec3>,
    /// All live entities.
    pub entities: Vec<Entity>,
    pub free_look_behavior: PressBehavior,
    pub auto_walk_behavior: PressBehavior,
    /// Movement input cancels an active auto-walk latch.
    pub stop_auto_walk_on_input: bool,
    /// Timestamp latched together with a selected entity.
    pub now: u64,
}

/// The session's input-driven state: per-channel levels plus the latches
/// the dispatcher owns.
pub struct Controls {
    pub tracker: EdgeTracker,
    /// Free-look latch.
    pub free_look: bool,
    /// Auto-walk latch.
    pub auto_walk: bool,
    /// Level-triggered attack signal forwarded while the primary input
    /// is held without build use.
    pub attack_held: bool,
    /// Level-triggered secondary-action signal.
    pub secondary_held: bool,
    /// Block type placed by a build action.
    pub selected_block: Block,
    /// Entity latched on select release, with its timestamp.
    pub selected_entity: Option<(u64, u64)>,
}

/// The event, if any, produced by observing `level` after `prev`.
pub open spec fn edge_of(prev: bool, level: bool) -> Option<Edge> {
    if level == prev {
        None
    } else if level {
        Some(Edge::Rising)
    } else {
        Some(Edge::Falling)
    }
}

/// `e` can be mounted by the player standing at `ppos`: another entity,
/// unmounted, within mount range.
pub open spec fn mountable(e: Entity, player: u64, ppos: Vec3) -> bool {
    e.id != player && !e.mounted && sq_dist(e.pos, ppos) <= MAX_MOUNT_RANGE_SQR
}

/// Among the first `n` entities, the mountable one nearest to `ppos`;
/// the earliest listed wins ties.
pub open spec fn nearest_mountable_upto(s: Seq<Entity>, n: int, player: u64, ppos: Vec3) -> Option<
    Entity,
>
    decreases n,
{
    if n <= 0 {
        None
    } else {
        let prev = nearest_mountable_upto(s, n - 1, player, ppos);
        let e = s[n - 1];
        if mountable(e, player, ppos) {
            match prev {
                None => Some(e),
                Some(b) => if sq_dist(e.pos, ppos) < sq_dist(b.pos, ppos) {
                    Some(e)
                } else {
                    Some(b)
                },
            }
        } else {
            prev
        }
    }
}

/// The mountable entity nearest to `ppos`, if any.
pub open spec fn nearest_mountable(s: Seq<Entity>, player: u64, ppos: Vec3) -> Option<Entity> {
    nearest_mountable_upto(s, s.len() as int, player, ppos)
}

/// `e` is a lootable item within pickup range of `ppos`.
pub open spec fn lootable(e: Entity, ppos: Vec3) -> bool {
    e.is_item && sq_dist(e.pos, ppos) < MAX_PICKUP_RANGE_SQR
}

/// Among the first `n` entities, the lootable one nearest to `ppos`; the
/// earliest listed wins ties.
pub open spec fn nearest_lootable_upto(s: Seq<Entity>, n: int, ppos: Vec3) -> Option<Entity>
    decreases n,
{
    if n <= 0 {
        None
    } else {
        let prev = nearest_lootable_upto(s, n - 1, ppos);
        let e = s[n - 1];
        if lootable(e, ppos) {
            match prev {
                None => Some(e),
                Some(b) => if sq_dist(e.pos, ppos) < sq_dist(b.pos, ppos) {
                    Some(e)
                } else {
                    Some(b)
                },
            }
        } else {
            prev
        }
    }
}

/// The lootable entity nearest to `ppos`, if any.
pub open spec fn nearest_lootable(s: Seq<Entity>, ppos: Vec3) -> Option<Entity> {
    nearest_lootable_upto(s, s.len() as int, ppos)
}

/// The entity an interact press picks up: the resolved target if there
/// is one, else the nearest lootable item.
pub open spec fn pick_target(ctx: FrameContext, ppos: Vec3) -> Option<u64> {
    match ctx.target_entity {
        Some(id) => Some(id),
        None => match nearest_lootable(ctx.entities@, ppos) {
            Some(e) => Some(e.id),
            None => None,
        },
    }
}

/// Post-state stores `level` on `c` and leaves every other channel's
/// stored level alone.
pub open spec fn tracker_updated(pre: Controls, post: Controls, c: Channel, level: bool) -> bool {
    &&& post.tracker.level(c) == level
    &&& forall|c2: Channel| c2 != c ==> post.tracker.level(c2) == pre.tracker.level(c2)
}

/// All dispatcher latches unchanged.
pub open spec fn latches_unchanged(pre: Controls, post: Controls) -> bool {
    &&& post.free_look == pre.free_look
    &&& post.auto_walk == pre.auto_walk
    &&& post.attack_held == pre.attack_held
    &&& post.secondary_held == pre.secondary_held
    &&& post.selected_block == pre.selected_block
    &&& post.selected_entity == pre.selected_entity
}

/// All latches except the attack level unchanged.
pub open spec fn latches_unchanged_but_attack(pre: Controls, post: Controls) -> bool {
    &&& post.free_look == pre.free_look
    &&& post.auto_walk == pre.auto_walk
    &&& post.secondary_held == pre.secondary_held
    &&& post.selected_block == pre.selected_block
    &&& post.selected_entity == pre.selected_entity
}

/// All latches except the secondary level unchanged.
pub open spec fn latches_unchanged_but_secondary(pre: Controls, post: Controls) -> bool {
    &&& post.free_look == pre.free_look
    &&& post.auto_walk == pre.auto_walk
    &&& post.attack_held == pre.attack_held
    &&& post.selected_block == pre.selected_block
    &&& post.selected_entity == pre.selected_entity
}

/// All latches except the auto-walk latch unchanged.
pub open spec fn latches_unchanged_but_auto_walk(pre: Controls, post: Controls) -> bool {
    &&& post.free_look == pre.free_look
    &&& post.attack_held == pre.attack_held
    &&& post.secondary_held == pre.secondary_held
    &&& post.selected_block == pre.selected_block
    &&& post.selected_entity == pre.selected_entity
}

/// Primary input: with build permission, a rising edge breaks the
/// selected cell; otherwise the raw level is forwarded as the
/// level-triggered attack signal.
pub open spec fn primary_step(
    pre: Controls,
    post: Controls,
    out: Seq<Intent>,
    level: bool,
    ctx: FrameContext,
) -> bool {
    let edge = edge_of(pre.tracker.level(Channel::Primary), level);
    &&& latches_unchanged_but_attack(pre, post)
    &&& match edge {
        None => post.attack_held == pre.attack_held && out == Seq::<Intent>::empty(),
        Some(_) => if level && ctx.can_build {
            &&& post.attack_held == pre.attack_held
            &&& match ctx.select_pos {
                Some(sp) => out == seq![Intent::RemoveBlock(sp)],
                None => out == Seq::<Intent>::empty(),
            }
        } else {
            &&& post.attack_held == level
            &&& out == Seq::<Intent>::empty()
        },
    }
}

/// Secondary input: with build permission, a rising edge places the
/// selected block against the hit face; otherwise the raw level is
/// forwarded as the level-triggered secondary signal.
pub open spec fn secondary_step(
    pre: Controls,
    post: Controls,
    out: Seq<Intent>,
    level: bool,
    ctx: FrameContext,
) -> bool {
    let edge = edge_of(pre.tracker.level(Channel::Secondary), level);
    &&& latches_unchanged_but_secondary(pre, post)
    &&& match edge {
        None => post.secondary_held == pre.secondary_held && out == Seq::<Intent>::empty(),
        Some(_) => if level && ctx.can_build {
            &&& post.secondary_held == false
            &&& match ctx.build_pos {
                Some(bp) => out == seq![Intent::PlaceBlock(bp, pre.selected_block)],
                None => out == Seq::<Intent>::empty(),
            }
        } else {
            &&& post.secondary_held == level
            &&& out == Seq::<Intent>::empty()
        },
    }
}

/// Mount toggle: a rising edge unmounts when mounted, else mounts the
/// nearest unmounted entity in range, if any.
pub open spec fn mount_step(
    pre: Controls,
    post: Controls,
    out: Seq<Intent>,
    level: bool,
    ctx: FrameContext,
) -> bool {
    let edge = edge_of(pre.tracker.level(Channel::Mount), level);
    &&& latches_unchanged(pre, post)
    &&& if edge == Some(Edge::Rising) {
        if ctx.is_mounted {
            out == seq![Intent::Unmount]
        } else {
            match ctx.player_pos {
                Some(pp) => match nearest_mountable(ctx.entities@, ctx.player, pp) {
                    Some(e) => out == seq![Intent::Mount(e.id)],
                    None => out == Seq::<Intent>::empty(),
                },
                None => out == Seq::<Intent>::empty(),
            }
        }
    } else {
        out == Seq::<Intent>::empty()
    }
}

/// Interact: a rising edge collects the selected cell, if any, and picks
/// up the resolved target or else the nearest lootable item; both can
/// fire from one edge.
pub open spec fn interact_step(
    pre: Controls,
    post: Controls,
    out: Seq<Intent>,
    level: bool,
    ctx: FrameContext,
) -> bool {
    let edge = edge_of(pre.tracker.level(Channel::Interact), level);
    &&& latches_unchanged(pre, post)
    &&& if edge == Some(Edge::Rising) {
        let collect = match ctx.select_pos {
            Some(sp) => seq![Intent::CollectBlock(sp)],
            None => Seq::<Intent>::empty(),
        };
        let pick = match ctx.player_pos {
            Some(pp) => match pick_target(ctx, pp) {
                Some(id) => seq![Intent::PickUp(id)],
                None => Seq::<Intent>::empty(),
            },
            None => Seq::<Intent>::empty(),
        };
        out == collect + pick
    } else {
        out == Seq::<Intent>::empty()
    }
}

/// Respawn: any edge cancels auto-walk; a rising edge emits the respawn
/// intent.
pub open spec fn respawn_step(
    pre: Controls,
    post: Controls,
    out: Seq<Intent>,
    level: bool,
) -> bool {
    let edge = edge_of(pre.tracker.level(Channel::Respawn), level);
    &&& latches_unchanged_but_auto_walk(pre, post)
    &&& match edge {
        None => post.auto_walk == pre.auto_walk && out == Seq::<Intent>::empty(),
        Some(Edge::Rising) => post.auto_walk == false && out == seq![Intent::Respawn],
        Some(Edge::Falling) => post.auto_walk == false && out == Seq::<Intent>::empty(),
    }
}

/// Sit, dance and sneak: a rising edge emits the toggle intent and
/// cancels auto-walk as a side effect.
pub open spec fn cancelling_toggle_step(
    pre: Controls,
    post: Controls,
    out: Seq<Intent>,
    level: bool,
    c: Channel,
    intent: Intent,
) -> bool {
    let edge = edge_of(pre.tracker.level(c), level);
    &&& latches_unchanged_but_auto_walk(pre, post)
    &&& if edge == Some(Edge::Rising) {
        post.auto_walk == false && out == seq![intent]
    } else {
        post.auto_walk == pre.auto_walk && out == Seq::<Intent>::empty()
    }
}

/// Glide, wield and loadout swap: a rising edge emits the toggle intent.
pub open spec fn plain_toggle_step(
    pre: Controls,
    post: Controls,
    out: Seq<Intent>,
    level: bool,
    c: Channel,
    intent: Intent,
) -> bool {
    let edge = edge_of(pre.tracker.level(c), level);
    &&& latches_unchanged(pre, post)
    &&& if edge == Some(Edge::Rising) {
        out == seq![intent]
    } else {
        out == Seq::<Intent>::empty()
    }
}

/// A configurable press latch: `Toggle` flips it on a rising edge only,
/// `Hold` mirrors the raw level on every observation.
pub open spec fn configurable_latch(
    prev_level: bool,
    latch_before: bool,
    latch_after: bool,
    level: bool,
    behavior: PressBehavior,
) -> bool {
    match behavior {
        PressBehavior::Toggle => if edge_of(prev_level, level) == Some(Edge::Rising) {
            latch_after == !latch_before
        } else {
            latch_after == latch_before
        },
        PressBehavior::Hold => latch_after == level,
    }
}

/// All latches except the free-look latch unchanged.
pub open spec fn latches_unchanged_but_free_look(pre: Controls, post: Controls) -> bool {
    &&& post.auto_walk == pre.auto_walk
    &&& post.attack_held == pre.attack_held
    &&& post.secondary_held == pre.secondary_held
    &&& post.selected_block == pre.selected_block
    &&& post.selected_entity == pre.selected_entity
}

/// Free-look input: drives the free-look latch per its configured
/// behavior; emits nothing.
pub open spec fn free_look_step(
    pre: Controls,
    post: Controls,
    out: Seq<Intent>,
    level: bool,
    ctx: FrameContext,
) -> bool {
    &&& latches_unchanged_but_free_look(pre, post)
    &&& configurable_latch(
        pre.tracker.level(Channel::FreeLook),
        pre.free_look,
        post.free_look,
        level,
        ctx.free_look_behavior,
    )
    &&& out == Seq::<Intent>::empty()
}

/// Auto-walk input: drives the auto-walk latch per its configured
/// behavior; emits nothing.
pub open spec fn auto_walk_step(
    pre: Controls,
    post: Controls,
    out: Seq<Intent>,
    level: bool,
    ctx: FrameContext,
) -> bool {
    &&& latches_unchanged_but_auto_walk(pre, post)
    &&& configurable_latch(
        pre.tracker.level(Channel::AutoWalk),
        pre.auto_walk,
        post.auto_walk,
        level,
        ctx.auto_walk_behavior,
    )
    &&& out == Seq::<Intent>::empty()
}

/// Select input: releasing it latches the resolved target entity with
/// the frame timestamp (or clears the latch when there is none).
pub open spec fn select_step(
    pre: Controls,
    post: Controls,
    out: Seq<Intent>,
    level: bool,
    ctx: FrameContext,
) -> bool {
    let edge = edge_of(pre.tracker.level(Channel::Select), level);
    &&& post.free_look == pre.free_look
    &&& post.auto_walk == pre.auto_walk
    &&& post.attack_held == pre.attack_held
    &&& post.secondary_held == pre.secondary_held
    &&& post.selected_block == pre.selected_block
    &&& if edge == Some(Edge::Falling) {
        post.selected_entity == (match ctx.target_entity {
            Some(id) => Some((id, ctx.now)),
            None => None::<(u64, u64)>,
        })
    } else {
        post.selected_entity == pre.selected_entity
    }
    &&& out == Seq::<Intent>::empty()
}

/// A movement key: the level is stored for the walk direction; holding a
/// movement key cancels auto-walk when so configured.
pub open spec fn move_step(
    pre: Controls,
    post: Controls,
    out: Seq<Intent>,
    level: bool,
    ctx: FrameContext,
) -> bool {
    &&& latches_unchanged_but_auto_walk(pre, post)
    &&& post.auto_walk == (if level && ctx.stop_auto_walk_on_input {
        false
    } else {
        pre.auto_walk
    })
    &&& out == Seq::<Intent>::empty()
}

impl Controls {
    /// The tracker has a slot for every channel.
    pub open spec fn wf(&self) -> bool {
        self.tracker.wf()
    }

    /// Fresh session controls: every level and latch cleared, placing
    /// the given block type.
    pub fn new(selected_block: Block) -> (c: Controls)
        ensures
            c.wf(),
            forall|ch: Channel| !c.tracker.level(ch),
            !c.free_look,
            !c.auto_walk,
            !c.attack_held,
            !c.secondary_held,
            c.selected_block == selected_block,
            c.selected_entity.is_none(),
    {
        Controls {
            tracker: EdgeTracker::new(),
            free_look: false,
            auto_walk: false,
            attack_held: false,
            secondary_held: false,
            selected_block,
            selected_entity: None,
        }
    }

    /// Feeds one raw input event through the edge tracker and applies
    /// the channel's dispatch policy, returning the emitted intents.
    pub fn handle_input(&mut self, c: Channel, level: bool, ctx: &FrameContext) -> (out: Vec<
        Intent,
    >)
        requires
            old(self).wf(),
            wf_entities(ctx.entities@),
            match ctx.player_pos {
                Some(p) => in_bounds(p),
                None => true,
            },
        ensures
            final(self).wf(),
            tracker_updated(*old(self), *final(self), c, level),
            match c {
                Channel::Primary => primary_step(*old(self), *final(self), out@, level, *ctx),
                Channel::Secondary => secondary_step(*old(self), *final(self), out@, level, *ctx),
                Channel::Mount => mount_step(*old(self), *final(self), out@, level, *ctx),
                Channel::Interact => interact_step(*old(self), *final(self), out@, level, *ctx),
                Channel::Respawn => respawn_step(*old(self), *final(self), out@, level),
                Channel::Sit => cancelling_toggle_step(
                    *old(self),
                    *final(self),
                    out@,
                    level,
                    Channel::Sit,
                    Intent::ToggleSit,
                ),
                Channel::Dance => cancelling_toggle_step(
                    *old(self),
                    *final(self),
                    out@,
                    level,
                    Channel::Dance,
                    Intent::ToggleDance,
                ),
                Channel::Sneak => cancelling_toggle_step(
                    *old(self),
                    *final(self),
                    out@,
                    level,
                    Channel::Sneak,
                    Intent::ToggleSneak,
                ),
                Channel::Glide => plain_toggle_step(
                    *old(self),
                    *final(self),
                    out@,
                    level,
                    Channel::Glide,
                    Intent::ToggleGlide,
                ),
                Channel::Wield => plain_toggle_step(
                    *old(self),
                    *final(self),
                    out@,
                    level,
                    Channel::Wield,
                    Intent::ToggleWield,
                ),
                Channel::SwapLoadout => plain_toggle_step(
                    *old(self),
                    *final(self),
                    out@,
                    level,
                    Channel::SwapLoadout,
                    Intent::SwapLoadout,
                ),
                Channel::FreeLook => free_look_step(*old(self), *final(self), out@, level, *ctx),
                Channel::AutoWalk => auto_walk_step(*old(self), *final(self), out@, level, *ctx),
                Channel::Select => select_step(*old(self), *final(self), out@, level, *ctx),
                Channel::MoveForward | Channel::MoveBack | Channel::MoveLeft
                    | Channel::MoveRight => move_step(*old(self), *final(self), out@, level, *ctx),
            },
    {
        let edge = self.tracker.observe(c, level);
        let mut out: Vec<Intent> = Vec::new();
        proof {
            assert(out@ =~= Seq::<Intent>::empty());
        }
        match c {
            Channel::Primary => {
                if edge.is_some() {
                    if level && ctx.can_build {
                        if let Some(sp) = ctx.select_pos {
                            out.push(Intent::RemoveBlock(sp));
                            proof {
                                assert(out@ =~= seq![Intent::RemoveBlock(sp)]);
                            }
                        }
                    } else {
                        self.attack_held = level;
                    }
                }
            },
            Channel::Secondary => {
                if edge.is_some() {
                    if level && ctx.can_build {
                        self.secondary_held = false;
                        if let Some(bp) = ctx.build_pos {
                            out.push(Intent::PlaceBlock(bp, self.selected_block));
                            proof {
                                assert(out@ =~= seq![Intent::PlaceBlock(bp, old(self).selected_block)]);
                            }
                        }
                    } else {
                        self.secondary_held = level;
                    }
                }
            },
            Channel::Mount => {
                if matches!(edge, Some(Edge::Rising)) {
                    if ctx.is_mounted {
                        out.push(Intent::Unmount);
                        proof {
                            assert(out@ =~= seq![Intent::Unmount]);
                        }
                    } else if let Some(pp) = ctx.player_pos {
                        if let Some(id) = nearest_mountable_id(&ctx.entities, ctx.player, pp) {
                            out.push(Intent::Mount(id));
                            proof {
                                assert(out@ =~= seq![Intent::Mount(id)]);
                            }
                        }
                    }
                }
            },
            Channel::Interact => {
                if matches!(edge, Some(Edge::Rising)) {
                    if let Some(sp) = ctx.select_pos {
                        out.push(Intent::CollectBlock(sp));
                    }
                    if let Some(pp) = ctx.player_pos {
                        let pick: Option<u64> = match ctx.target_entity {
                            Some(id) => Some(id),
                            None => nearest_lootable_id(&ctx.entities, pp),
                        };
                        if let Some(id) = pick {
                            out.push(Intent::PickUp(id));
                        }
                    }
                    proof {
                        let collect = match ctx.select_pos {
                            Some(sp) => seq![Intent::CollectBlock(sp)],
                            None => Seq::<Intent>::empty(),
                        };
                        let picks = match ctx.player_pos {
                            Some(pp) => match pick_target(*ctx, pp) {
                                Some(id) => seq![Intent::PickUp(id)],
                                None => Seq::<Intent>::empty(),
                            },
                            None => Seq::<Intent>::empty(),
                        };
                        assert(out@ =~= collect + picks);
                    }
                }
            },
            Channel::Respawn => {
                if edge.is_some() {
                    self.auto_walk = false;
                    if level {
                        out.push(Intent::Respawn);
                        proof {
                            assert(out@ =~= seq![Intent::Respawn]);
                        }
                    }
                }
            },
            Channel::Sit => {
                if matches!(edge, Some(Edge::Rising)) {
                    self.auto_walk = false;
                    out.push(Intent::ToggleSit);
                    proof {
                        assert(out@ =~= seq![Intent::ToggleSit]);
                    }
                }
            },
            Channel::Dance => {
                if matches!(edge, Some(Edge::Rising)) {
                    self.auto_walk = false;
                    out.push(Intent::ToggleDance);
                    proof {
                        assert(out@ =~= seq![Intent::ToggleDance]);
                    }
                }
            },
            Channel::Sneak => {
                if matches!(edge, Some(Edge::Rising)) {
                    self.auto_walk = false;
                    out.push(Intent::ToggleSneak);
                    proof {
                        assert(out@ =~= seq![Intent::ToggleSneak]);
                    }
                }
            },
            Channel::Glide => {
                if matches!(edge, Some(Edge::Rising)) {
                    out.push(Intent::ToggleGlide);
                    proof {
                        assert(out@ =~= seq![Intent::ToggleGlide]);
                    }
                }
            },
            Channel::Wield => {
                if matches!(edge, Some(Edge::Rising)) {
                    out.push(Intent::ToggleWield);
                    proof {
                        assert(out@ =~= seq![Intent::ToggleWield]);
                    }
                }
            },
            Channel::SwapLoadout => {
                if matches!(edge, Some(Edge::Rising)) {
                    out.push(Intent::SwapLoadout);
                    proof {
                        assert(out@ =~= seq![Intent::SwapLoadout]);
                    }
                }
            },
            Channel::FreeLook => {
                match ctx.free_look_behavior {
                    PressBehavior::Toggle => {
                        if matches!(edge, Some(Edge::Rising)) {
                            self.free_look = !self.free_look;
                        }
                    },
                    PressBehavior::Hold => {
                        self.free_look = level;
                    },
                }
            },
            Channel::AutoWalk => {
                match ctx.auto_walk_behavior {
                    PressBehavior::Toggle => {
                        if matches!(edge, Some(Edge::Rising)) {
                            self.auto_walk = !self.auto_walk;
                        }
                    },
                    PressBehavior::Hold => {
                        self.auto_walk = level;
                    },
                }
            },
            Channel::Select => {
                if matches!(edge, Some(Edge::Falling)) {
                    self.selected_entity = match ctx.target_entity {
                        Some(id) => Some((id, ctx.now)),
                        None => None,
                    };
                }
            },
            Channel::MoveForward | Channel::MoveBack | Channel::MoveLeft | Channel::MoveRight => {
                if level && ctx.stop_auto_walk_on_input {
                    self.auto_walk = false;
                }
            },
        }
        out
    }

    /// The walking direction the held movement keys ask for, as one step
    /// on each ground axis: positive x is rightward, positive y forward.
    /// An active auto-walk latch walks forward like a held forward key.
    pub fn dir_vec(&self) -> (d: (i64, i64))
        requires
            self.wf(),
        ensures
            d.0 == (if self.tracker.level(Channel::MoveRight) {
                1int
            } else {
                0int
            }) - (if self.tracker.level(Channel::MoveLeft) {
                1int
            } else {
                0int
            }),
            d.1 == (if self.tracker.level(Channel::MoveForward) || self.auto_walk {
                1int
            } else {
                0int
            }) - (if self.tracker.level(Channel::MoveBack) {
                1int
            } else {
                0int
            }),
    {
        let right: i64 = if self.tracker_level(Channel::MoveRight) {
            1
        } else {
            0
        };
        let left: i64 = if self.tracker_level(Channel::MoveLeft) {
            1
        } else {
            0
        };
        let fwd: i64 = if self.tracker_level(Channel::MoveForward) || self.auto_walk {
            1
        } else {
            0
        };
        let back: i64 = if self.tracker_level(Channel::MoveBack) {
            1
        } else {
            0
        };
        (right - left, fwd - back)
    }

    /// Reads one stored channel level.
    pub fn tracker_level(&self, c: Channel) -> (l: bool)
        requires
            self.wf(),
        ensures
            l == self.tracker.level(c),
    {
        self.tracker.get_level(c)
    }
}

/// The identifier of the nearest mountable entity, by linear scan.
fn nearest_mountable_id(entities: &Vec<Entity>, player: u64, ppos: Vec3) -> (r: Option<u64>)
    requires
        wf_entities(entities@),
        in_bounds(ppos),
    ensures
        r == (match nearest_mountable(entities@, player, ppos) {
            Some(e) => Some(e.id),
            None => None::<u64>,
        }),
{
    let ghost s = entities@;
    let n = entities.len();
    let mut best: Option<(u64, i64)> = None;
    let mut i: usize = 0;
    while i < n
        invariant
            n == s.len(),
            0 <= i <= n,
            wf_entities(s),
            s == entities@,
            in_bounds(ppos),
            match best {
                None => nearest_mountable_upto(s, i as int, player, ppos).is_none(),
                Some((id, d)) => match nearest_mountable_upto(s, i as int, player, ppos) {
                    Some(b) => id == b.id && d == sq_dist(b.pos, ppos),
                    None => false,
                },
            },
        decreases n - i,
    {
        let e = entities[i];
        if e.id != player && !e.mounted {
            let d = dist_sqr(e.pos, ppos);
            if d <= MAX_MOUNT_RANGE_SQR {
                match best {
                    None => {
                        best = Some((e.id, d));
                    },
                    Some((_bid, bd)) => {
                        if d < bd {
                            best = Some((e.id, d));
                        }
                    },
                }
            }
        }
        i = i + 1;
    }
    match best {
        None => None,
        Some((id, _d)) => Some(id),
    }
}

/// The identifier of the nearest lootable entity, by linear scan.
fn nearest_lootable_id(entities: &Vec<Entity>, ppos: Vec3) -> (r: Option<u64>)
    requires
        wf_entities(entities@),
        in_bounds(ppos),
    ensures
        r == (match nearest_lootable(entities@, ppos) {
            Some(e) => Some(e.id),
            None => None::<u64>,
        }),
{
    let ghost s = entities@;
    let n = entities.len();
    let mut best: Option<(u64, i64)> = None;
    let mut i: usize = 0;
    while i < n
        invariant
            n == s.len(),
            0 <= i <= n,
            wf_entities(s),
            s == entities@,
            in_bounds(ppos),
            match best {
                None => nearest_lootable_upto(s, i as int, ppos).is_none(),
                Some((id, d)) => match nearest_lootable_upto(s, i as int, ppos) {
                    Some(b) => id == b.id && d == sq_dist(b.pos, ppos),
                    None => false,
                },
            },
        decreases n - i,
    {
        let e = entities[i];
        if e.is_item {
            let d = dist_sqr(e.pos, ppos);
            if d < MAX_PICKUP_RANGE_SQR {
                match best {
                    None => {
                        best = Some((e.id, d));
                    },
                    Some((_bid, bd)) => {
                        if d < bd {
                            best = Some((e.id, d));
                        }
                    },
                }
            }
        }
        i = i + 1;
    }
    match best {
        None => None,
        Some((id, _d)) => Some(id),
    }
}

/// A mount press mounts a nearest entity: whatever `nearest_mountable`
/// returns is mountable and no mountable entity is strictly nearer.
pub proof fn lemma_nearest_mountable_min(s: Seq<Entity>, player: u64, ppos: Vec3)
    ensures
        match nearest_mountable(s, player, ppos) {
            Some(b) => mountable(b, player, ppos) && (exists|i: int| 0 <= i < s.len() && s[i] == b)
                && (forall|j: int|
                0 <= j < s.len() && mountable(#[trigger] s[j], player, ppos) ==> sq_dist(
                    b.pos,
                    ppos,
                ) <= sq_dist(s[j].pos, ppos)),
            None => forall|j: int| 0 <= j < s.len() ==> !mountable(#[trigger] s[j], player, ppos),
        },
{
    lemma_nearest_mountable_upto_min(s, s.len() as int, player, ppos);
}

/// An interact press picks a nearest item: whatever `nearest_lootable`
/// returns is lootable and no lootable entity is strictly nearer.
pub proof fn lemma_nearest_lootable_min(s: Seq<Entity>, ppos: Vec3)
    ensures
        match nearest_lootable(s, ppos) {
            Some(b) => lootable(b, ppos) && (exists|i: int| 0 <= i < s.len() && s[i] == b) && (
            forall|j: int|
                0 <= j < s.len() && lootable(#[trigger] s[j], ppos) ==> sq_dist(b.pos, ppos)
                    <= sq_dist(s[j].pos, ppos)),
            None => forall|j: int| 0 <= j < s.len() ==> !lootable(#[trigger] s[j], ppos),
        },
{
    lemma_nearest_lootable_upto_min(s, s.len() as int, ppos);
}

proof fn lemma_nearest_lootable_upto_min(s: Seq<Entity>, n: int, ppos: Vec3)
    requires
        0 <= n <= s.len(),
    ensures
        match nearest_lootable_upto(s, n, ppos) {
            Some(b) => lootable(b, ppos) && (exists|i: int| 0 <= i < n && s[i] == b) && (forall|
                j: int,
            |
                0 <= j < n && lootable(#[trigger] s[j], ppos) ==> sq_dist(b.pos, ppos) <= sq_dist(
                    s[j].pos,
                    ppos,
                )),
            None => forall|j: int| 0 <= j < n ==> !lootable(#[trigger] s[j], ppos),
        },
    decreases n,
{
    if n > 0 {
        lemma_nearest_lootable_upto_min(s, n - 1, ppos);
        let prev = nearest_lootable_upto(s, n - 1, ppos);
        let e = s[n - 1];
        if lootable(e, ppos) {
            match prev {
                None => {
                    assert(s[n - 1] == e);
                },
                Some(b) => {
                    if sq_dist(e.pos, ppos) < sq_dist(b.pos, ppos) {
                        assert(s[n - 1] == e);
                    }
                },
            }
        }
    }
}

proof fn lemma_nearest_mountable_upto_min(s: Seq<Entity>, n: int, player: u64, ppos: Vec3)
    requires
        0 <= n <= s.len(),
    ensures
        match nearest_mountable_upto(s, n, player, ppos) {
            Some(b) => mountable(b, player, ppos) && (exists|i: int| 0 <= i < n && s[i] == b) && (
            forall|j: int|
                0 <= j < n && mountable(#[trigger] s[j], player, ppos) ==> sq_dist(b.pos, ppos)
                    <= sq_dist(s[j].pos, ppos)),
            None => forall|j: int| 0 <= j < n ==> !mountable(#[trigger] s[j], player, ppos),
        },
    decreases n,
{
    if n > 0 {
        lemma_nearest_mountable_upto_min(s, n - 1, player, ppos);
        let prev = nearest_mountable_upto(s, n - 1, player, ppos);
        let e = s[n - 1];
        if mountable(e, player, ppos) {
            match prev {
                None => {
                    assert(s[n - 1] == e);
                },
                Some(b) => {
                    if sq_dist(e.pos, ppos) < sq_dist(b.pos, ppos) {
                        assert(s[n - 1] == e);
                    }
                },
            }
        }
    }
}

} // verus!

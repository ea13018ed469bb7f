//! Per-frame interaction targeting for a voxel game client.
//!
//! Given a camera pose and a snapshot of the world (voxel terrain plus
//! entities), the library computes which voxel the player would break,
//! which adjacent voxel a block would be placed into, and which entity
//! the player is aiming at.  An edge-triggered input tracker and an
//! action dispatcher turn raw key levels into one-shot game intents.
//!
//! All world geometry is carried in fixed-point integers with 1000
//! sub-units per world unit, so every computation is exact and every
//! result is pinned down by its contract.

pub mod dispatch;
pub mod input;
pub mod math;
pub mod resolve;
pub mod world;

pub use dispatch::{Controls, FrameContext, Intent, PressBehavior};
pub use input::{Channel, Edge, EdgeTracker};
pub use math::Vec3;
pub use resolve::{resolve, TargetResolution};
pub use world::{Block, Entity, Terrain, VoxelEntry, WorldSnapshot};

//! Movement, gravity and axis-aligned collision for a small 2D platformer
//! scene: one player, static walls, and blocks that fall until they land.
//!
//! Every quantity is an integer in the scene's own units: lengths in
//! thousandths of a world unit, time in milliseconds, velocities in length
//! units per millisecond and gravity in length units per millisecond squared.
//! Rectangles are described by their center and their half extents.

pub mod block;
pub mod geometry;
pub mod player;
pub mod scene;

pub use block::{collidables, fall_blocks, resolve_block, resolve_blocks, Block, BlockPhysics, Obstacle, ObstacleRole};
pub use geometry::{collide, Extent, Position, Side};
pub use player::{
    move_player, resolve_player, Input, Player, PlayerPhysics, VerticalState, FALL_BIAS,
    INITIAL_FALL_SPEED, JUMP_NUDGE, JUMP_VELOCITY,
};
pub use scene::{PlayerError, Scene};

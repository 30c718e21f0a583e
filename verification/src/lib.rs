use vstd::prelude::*;

pub mod block_states;
pub mod blocks;
pub mod chunks;
pub mod component_manager;
pub mod container;
pub mod controls;
pub mod debug;
pub mod data;
pub mod entity;
pub mod enum_array;
pub mod game;
pub mod geometry;
pub mod hotbar;
pub mod messages;
pub mod player;
pub mod recipe;
pub mod state;
pub mod world_gen;

use crate::geometry::BlockPos;

verus! {

/// What the player's input currently drives.
#[derive(Debug, Clone, Copy, PartialEq, Eq, Structural)]
pub enum InteractionMode {
    // Player can walk around and interact with the world
    Game,
    // Player is in the personal interface (inventory, etc.)
    UI,
    // Player is in an interface in the world
    Block(BlockPos),
}

} // verus!

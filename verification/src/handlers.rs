//! Built-in event handlers: what each one does in reaction to its events.

use vstd::prelude::*;
use crate::world::{chunk_of, chunk_of_spec};

verus! {

/// Block state id of air.
pub const AIR: u16 = 0;

/// What a block change leads to: the block written into the world, the
/// acknowledgement sent to the player who changed it, and the change
/// broadcast to every player.
#[derive(Debug, Clone, Copy, PartialEq, Eq, Structural)]
pub struct BlockChange {
    /// Block x.
    pub x: i32,
    /// Block y.
    pub y: i32,
    /// Block z.
    pub z: i32,
    /// The new block state.
    pub block_state: u16,
    /// Sequence number acknowledged to the player.
    pub ack_sequence: i32,
}

/// Breaking and placing blocks.
pub struct BlockInteractionHandler;

impl BlockInteractionHandler {
    /// A broken block turns to air; the break is acknowledged and broadcast.
    pub fn on_block_broken(x: i32, y: i32, z: i32, sequence: i32) -> (r: BlockChange)
        ensures
            r == (BlockChange { x, y, z, block_state: AIR, ack_sequence: sequence }),
    {
        BlockChange { x, y, z, block_state: AIR, ack_sequence: sequence }
    }

    /// A placed block takes its state; the placement is acknowledged and
    /// broadcast.
    pub fn on_block_placed(x: i32, y: i32, z: i32, block_state: u16, sequence: i32) -> (r: BlockChange)
        ensures
            r == (BlockChange { x, y, z, block_state, ack_sequence: sequence }),
    {
        BlockChange { x, y, z, block_state, ack_sequence: sequence }
    }
}

/// The notice broadcast to every player when one leaves, so that clients
/// drop the player from the tab list and despawn its entity.
#[derive(Debug, Clone)]
pub struct PlayerLeft {
    /// The leaving player's UUID.
    pub uuid: u128,
    /// The leaving player's entity id.
    pub entity_id: i32,
    /// The leaving player's name.
    pub username: String,
}

/// Player join and leave notices.
pub struct LifecycleHandler;

impl LifecycleHandler {
    /// A player who left is announced to every player under the same
    /// UUID, entity id and name.
    pub fn on_player_left(uuid: u128, entity_id: i32, username: String) -> (r: PlayerLeft)
        ensures
            r.uuid == uuid,
            r.entity_id == entity_id,
            r.username@ == username@,
    {
        PlayerLeft { uuid, entity_id, username }
    }
}

/// Persisting chunks after block changes.
pub struct StorageHandler;

impl StorageHandler {
    /// The chunk to persist after the block at (`x`, `z`) changed.
    pub fn chunk_to_persist(x: i32, z: i32) -> (r: (i32, i32))
        ensures
            r == (chunk_of_spec(x as int) as i32, chunk_of_spec(z as int) as i32),
    {
        (chunk_of(x), chunk_of(z))
    }
}

/// Chunk streaming on movement.
pub struct WorldHandler;

impl WorldHandler {
    /// The chunk to stream around after a move that ends in block column
    /// (`block_x`, `block_z`), when that is outside the chunk
    /// (`old_cx`, `old_cz`) the player was in.
    pub fn on_player_moved(old_cx: i32, old_cz: i32, block_x: i32, block_z: i32) -> (r: Option<(i32, i32)>)
        ensures
            r == (if chunk_of_spec(block_x as int) != old_cx || chunk_of_spec(block_z as int) != old_cz {
                Some((chunk_of_spec(block_x as int) as i32, chunk_of_spec(block_z as int) as i32))
            } else {
                None::<(i32, i32)>
            }),
    {
        let cx = chunk_of(block_x);
        let cz = chunk_of(block_z);
        if cx != old_cx || cz != old_cz {
            Some((cx, cz))
        } else {
            None
        }
    }
}

} // verus!

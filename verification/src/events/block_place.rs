//! Event fired when a block is about to be placed.

use vstd::prelude::*;

use crate::event::Cancellable;
use crate::event::EventListener;

verus! {

/// Event fired when a block is placed.
///
/// Carries the player placing the block, the block being placed, the block
/// it is placed against, and whether the player may build; cancelling it
/// suppresses the placement.
#[derive(Clone, Copy, PartialEq, Eq, Structural, Debug)]
pub struct BlockPlaceEvent {
    /// Identifier of the player placing the block.
    pub player: u64,
    /// Registry identifier of the block being placed.
    pub block_placed: u32,
    /// Registry identifier of the block the new block is placed against.
    pub block_placed_against: u32,
    /// Whether the player can build.
    pub can_build: bool,
    /// The veto flag consulted by the call site after the event returns.
    pub cancelled: bool,
}

impl BlockPlaceEvent {
    /// A fresh, uncancelled placement event.
    pub fn new(player: u64, block_placed: u32, block_placed_against: u32, can_build: bool) -> (event:
        Self)
        ensures
            event == (BlockPlaceEvent {
                player,
                block_placed,
                block_placed_against,
                can_build,
                cancelled: false,
            }),
    {
        BlockPlaceEvent { player, block_placed, block_placed_against, can_build, cancelled: false }
    }

    /// The block being placed.
    pub fn get_block_placed(&self) -> (block: u32)
        ensures
            block == self.block_placed,
    {
        self.block_placed
    }

    /// The block the new block is placed against.
    pub fn get_block_against(&self) -> (block: u32)
        ensures
            block == self.block_placed_against,
    {
        self.block_placed_against
    }

    /// Whether the player can build.
    pub fn get_can_build(&self) -> (can_build: bool)
        ensures
            can_build == self.can_build,
    {
        self.can_build
    }

    /// Overwrite whether the player can build.
    pub fn set_can_build(&mut self, can_build: bool)
        ensures
            *final(self) == (BlockPlaceEvent { can_build, ..*old(self) }),
    {
        self.can_build = can_build;
    }
}

/// A listener that vetoes the placement when the player may not build,
/// and passes every other event through untouched.
pub struct BuildGuard {}

impl EventListener<BlockPlaceEvent> for BuildGuard {
    open spec fn on_event(&self, event: BlockPlaceEvent) -> BlockPlaceEvent {
        if !event.can_build {
            BlockPlaceEvent { cancelled: true, ..event }
        } else {
            event
        }
    }

    fn handle(&self, event: BlockPlaceEvent) -> (result: BlockPlaceEvent) {
        let mut event = event;
        if !event.can_build {
            event.cancelled = true;
        }
        event
    }
}

impl Cancellable for BlockPlaceEvent {
    open spec fn spec_cancelled(&self) -> bool {
        self.cancelled
    }

    fn cancelled(&self) -> (cancelled: bool) {
        self.cancelled
    }

    fn set_cancelled(&mut self, cancelled: bool)
        ensures
            *final(self) == (BlockPlaceEvent { cancelled, ..*old(self) }),
    {
        self.cancelled = cancelled;
    }
}

} // verus!

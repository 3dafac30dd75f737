//! Domain events published through the event bus by call sites (block
//! placement, sign edits, inventory clicks, bed use, death) before the
//! guarded game-state mutation is committed.
//!
//! Collaborator objects that the surrounding server owns (players, blocks,
//! items, inventories, rich text) are carried here as plain identifiers
//! and values: the bus and its listeners only read and rewrite these
//! fields, and the embedding runtime maps the identifiers back to its own
//! objects.

pub mod block_place;
pub mod inventory;
pub mod player;
pub mod sign_change;

//! Event fired when a player changes the text on a sign.

use vstd::prelude::*;

use crate::event::Cancellable;

verus! {

/// Which side of a sign is being interacted with.
#[derive(Clone, Copy, PartialEq, Eq, Structural, Debug)]
pub enum Side {
    /// The front side of the sign.
    Front,
    /// The back side of the sign.
    Back,
}

/// Event fired when a player changes the text on a sign.
///
/// Cancelling it prevents the sign update.
#[derive(Clone, Debug, PartialEq, Eq)]
pub struct SignChangeEvent {
    /// Identifier of the player who edits the sign.
    pub player: u64,
    /// The new text content of the sign, one string per line.
    pub content: Vec<String>,
    /// The side of the sign being edited.
    pub side: Side,
    /// The veto flag consulted by the call site after the event returns.
    pub cancelled: bool,
}

impl SignChangeEvent {
    /// A fresh, uncancelled event for `player` editing `side` with the
    /// given lines.
    pub fn new(player: u64, content: Vec<String>, side: Side) -> (event: Self)
        ensures
            event.player == player,
            event.content == content,
            event.side == side,
            !event.cancelled,
    {
        SignChangeEvent { player, content, side, cancelled: false }
    }

    /// A copy of the sign's text lines.
    pub fn lines(&self) -> (lines: Vec<String>)
        ensures
            lines@ == self.content@,
    {
        let lines = self.content.clone();
        proof {
            assert forall|i: int| 0 <= i < lines@.len() implies lines@[i] == self.content@[i] by {
                assert(cloned::<String>(self.content@[i], lines@[i]));
            }
            assert(lines@ =~= self.content@);
        }
        lines
    }

    /// The content of the line at `index`; the index must be in bounds.
    pub fn line(&self, index: usize) -> (line: String)
        requires
            index < self.content@.len(),
        ensures
            line == self.content@[index as int],
    {
        self.content[index].clone()
    }

    /// Insert `line` at `index`, shifting the lines after it.
    pub fn set_line(&mut self, index: usize, line: String)
        requires
            index <= old(self).content@.len(),
            old(self).content@.len() < usize::MAX,
        ensures
            final(self).content@ == old(self).content@.insert(index as int, line),
            final(self).player == old(self).player,
            final(self).side == old(self).side,
            final(self).cancelled == old(self).cancelled,
    {
        self.content.insert(index, line);
    }

    /// The side of the sign being edited.
    pub fn get_side(&self) -> (side: Side)
        ensures
            side == self.side,
    {
        self.side
    }
}

impl Cancellable for SignChangeEvent {
    open spec fn spec_cancelled(&self) -> bool {
        self.cancelled
    }

    fn cancelled(&self) -> (cancelled: bool) {
        self.cancelled
    }

    fn set_cancelled(&mut self, cancelled: bool)
        ensures
            *final(self) == (SignChangeEvent { cancelled, ..*old(self) }),
    {
        self.cancelled = cancelled;
    }
}

} // verus!

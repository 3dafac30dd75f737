//! Player-related events: entering and leaving a bed, and death.

use vstd::prelude::*;

use crate::event::Cancellable;

verus! {

/// The possible outcomes of a player trying to enter a bed.
#[derive(Clone, Copy, PartialEq, Eq, Structural, Debug)]
pub enum BedEnterResult {
    /// The player may use the bed.
    Success,
    NotPossibleHere,
    NotPossibleNow,
    TooFarAway,
    Obstructed,
    NotSafe,
    OtherProblem,
}

/// Event fired when a player attempts to enter a bed.
///
/// Cancelling it prevents the player from entering the bed.
#[derive(Clone, Copy, PartialEq, Eq, Structural, Debug)]
pub struct PlayerBedEnterEvent {
    /// Identifier of the player attempting to enter the bed.
    pub player: u64,
    /// Registry identifier of the bed block being entered.
    pub bed: u32,
    /// The outcome of the attempt.
    pub bed_enter_result: BedEnterResult,
    /// The veto flag consulted by the call site after the event returns.
    pub cancelled: bool,
}

impl PlayerBedEnterEvent {
    /// A fresh, uncancelled bed-enter event.
    pub fn new(player: u64, bed: u32, bed_enter_result: BedEnterResult) -> (event: Self)
        ensures
            event == (PlayerBedEnterEvent { player, bed, bed_enter_result, cancelled: false }),
    {
        PlayerBedEnterEvent { player, bed, bed_enter_result, cancelled: false }
    }

    /// The bed block the player is entering.
    pub fn get_bed(&self) -> (bed: u32)
        ensures
            bed == self.bed,
    {
        self.bed
    }

    /// The outcome of the attempt to enter the bed.
    pub fn get_bed_enter_result(&self) -> (result: BedEnterResult)
        ensures
            result == self.bed_enter_result,
    {
        self.bed_enter_result
    }
}

impl Cancellable for PlayerBedEnterEvent {
    open spec fn spec_cancelled(&self) -> bool {
        self.cancelled
    }

    fn cancelled(&self) -> (cancelled: bool) {
        self.cancelled
    }

    fn set_cancelled(&mut self, cancelled: bool)
        ensures
            *final(self) == (PlayerBedEnterEvent { cancelled, ..*old(self) }),
    {
        self.cancelled = cancelled;
    }
}

/// Event fired when a player attempts to leave a bed.
///
/// Cancelling it prevents the player from leaving the bed. If it is not
/// cancelled and `set_bed_spawn` is true, the call site updates the
/// player's respawn location to the bed's position.
#[derive(Clone, Copy, PartialEq, Eq, Structural, Debug)]
pub struct PlayerBedLeaveEvent {
    /// Identifier of the player attempting to leave the bed.
    pub player: u64,
    /// Registry identifier of the bed block being left.
    pub bed: u32,
    /// Whether the player's spawn point should be updated to this bed.
    pub set_bed_spawn: bool,
    /// The veto flag consulted by the call site after the event returns.
    pub cancelled: bool,
}

impl PlayerBedLeaveEvent {
    /// A fresh, uncancelled bed-leave event.
    pub fn new(player: u64, bed: u32, set_bed_spawn: bool) -> (event: Self)
        ensures
            event == (PlayerBedLeaveEvent { player, bed, set_bed_spawn, cancelled: false }),
    {
        PlayerBedLeaveEvent { player, bed, set_bed_spawn, cancelled: false }
    }

    /// The bed block the player is leaving.
    pub fn get_bed(&self) -> (bed: u32)
        ensures
            bed == self.bed,
    {
        self.bed
    }

    /// True when the player's spawn location should be set to the bed.
    pub fn should_set_spawn_location(&self) -> (set_spawn: bool)
        ensures
            set_spawn == self.set_bed_spawn,
    {
        self.set_bed_spawn
    }
}

impl Cancellable for PlayerBedLeaveEvent {
    open spec fn spec_cancelled(&self) -> bool {
        self.cancelled
    }

    fn cancelled(&self) -> (cancelled: bool) {
        self.cancelled
    }

    fn set_cancelled(&mut self, cancelled: bool)
        ensures
            *final(self) == (PlayerBedLeaveEvent { cancelled, ..*old(self) }),
    {
        self.cancelled = cancelled;
    }
}

/// Event fired when a player dies.
///
/// Carries the death message shown to other players and the type of the
/// damage that killed the player; cancelling it suppresses the death
/// handling of the call site.
#[derive(Clone, Debug, PartialEq, Eq)]
pub struct PlayerDeathEvent {
    /// Identifier of the player who died.
    pub player: u64,
    /// The death message to display to other players.
    pub death_message: String,
    /// Registry identifier of the type of damage that killed the player.
    pub damage_type: u32,
    /// The veto flag consulted by the call site after the event returns.
    pub cancelled: bool,
}

impl PlayerDeathEvent {
    /// A fresh, uncancelled death event.
    pub fn new(player: u64, death_message: String, damage_type: u32) -> (event: Self)
        ensures
            event.player == player,
            event.death_message == death_message,
            event.damage_type == damage_type,
            !event.cancelled,
    {
        PlayerDeathEvent { player, death_message, damage_type, cancelled: false }
    }

    /// Overwrite the type of damage that killed the player.
    pub fn set_death_type(&mut self, damage_type: u32)
        ensures
            final(self).damage_type == damage_type,
            final(self).player == old(self).player,
            final(self).death_message == old(self).death_message,
            final(self).cancelled == old(self).cancelled,
    {
        self.damage_type = damage_type;
    }

    /// The type of damage that killed the player.
    pub fn get_death_type(&self) -> (damage_type: u32)
        ensures
            damage_type == self.damage_type,
    {
        self.damage_type
    }

    /// Overwrite the death message.
    pub fn set_death_message(&mut self, death_message: String)
        ensures
            final(self).death_message == death_message,
            final(self).player == old(self).player,
            final(self).damage_type == old(self).damage_type,
            final(self).cancelled == old(self).cancelled,
    {
        self.death_message = death_message;
    }

    /// The death message to display to other players.
    pub fn get_death_message(&self) -> (death_message: String)
        ensures
            death_message == self.death_message,
    {
        self.death_message.clone()
    }
}

impl Cancellable for PlayerDeathEvent {
    open spec fn spec_cancelled(&self) -> bool {
        self.cancelled
    }

    fn cancelled(&self) -> (cancelled: bool) {
        self.cancelled
    }

    fn set_cancelled(&mut self, cancelled: bool)
        ensures
            *final(self) == (PlayerDeathEvent { cancelled, ..*old(self) }),
    {
        self.cancelled = cancelled;
    }
}

} // verus!

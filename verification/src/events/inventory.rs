//! Inventory-related events and the click taxonomy they carry.

use vstd::prelude::*;

use crate::event::Cancellable;

verus! {

/// All possible types of inventories.
#[derive(Clone, Copy, PartialEq, Eq, Structural, Debug)]
pub enum InventoryType {
    Chest,
    Dispenser,
    Dropper,
    Furnace,
    Workbench,
    Crafting,
    Enchanting,
    Brewing,
    Player,
    Creative,
    Merchant,
    EnderChest,
    Anvil,
    Smithing,
    Beacon,
    Hopper,
    ShulkerBox,
    Barrel,
    BlastFurnace,
    Lectern,
    Smoker,
    Loom,
    Cartography,
    Grindstone,
    Stonecutter,
    Composter,
    ChiseledBookshelf,
    Jukebox,
    DecoratedPot,
    Crafter,
}

/// The kind of slot a click lands in.
#[derive(Clone, Copy, PartialEq, Eq, Structural, Debug)]
pub enum SlotType {
    Result,
    Crafting,
    Armor,
    Container,
    Quickbar,
    Outside,
    Fuel,
}

/// The kind of click a player performed.
#[derive(Clone, Copy, PartialEq, Eq, Structural, Debug)]
pub enum ClickType {
    Left,
    ShiftLeft,
    Right,
    ShiftRight,
    WindowBorderLeft,
    WindowBorderRight,
    Middle,
    NumberKey,
    DoubleClick,
    Drop,
    ControlDrop,
    Creative,
    SwapOffhand,
    Unknown,
}

impl ClickType {
    /// True for clicks issued from the keyboard.
    pub fn is_keyboard_click(&self) -> (r: bool)
        ensures
            r <==> (*self == ClickType::NumberKey || *self == ClickType::Drop || *self
                == ClickType::ControlDrop || *self == ClickType::SwapOffhand),
    {
        matches!(
            self,
            ClickType::NumberKey | ClickType::Drop | ClickType::ControlDrop
                | ClickType::SwapOffhand
        )
    }

    /// True for clicks issued from the mouse.
    pub fn is_mouse_click(&self) -> (r: bool)
        ensures
            r <==> (*self == ClickType::DoubleClick || *self == ClickType::Left || *self
                == ClickType::Right || *self == ClickType::Middle || *self
                == ClickType::WindowBorderLeft || *self == ClickType::WindowBorderRight || *self
                == ClickType::ShiftLeft || *self == ClickType::ShiftRight),
    {
        matches!(
            self,
            ClickType::DoubleClick | ClickType::Left | ClickType::Right | ClickType::Middle
                | ClickType::WindowBorderLeft | ClickType::WindowBorderRight
                | ClickType::ShiftLeft | ClickType::ShiftRight
        )
    }

    /// True for actions only available in creative mode.
    pub fn is_creative_action(&self) -> (r: bool)
        ensures
            r <==> (*self == ClickType::Middle || *self == ClickType::Creative),
    {
        matches!(self, ClickType::Middle | ClickType::Creative)
    }

    /// True for right clicks, shifted or not.
    pub fn is_right_click(&self) -> (r: bool)
        ensures
            r <==> (*self == ClickType::Right || *self == ClickType::ShiftRight),
    {
        matches!(self, ClickType::Right | ClickType::ShiftRight)
    }

    /// True for clicks that act like a left click.
    pub fn is_left_click(&self) -> (r: bool)
        ensures
            r <==> (*self == ClickType::Left || *self == ClickType::ShiftLeft || *self
                == ClickType::DoubleClick || *self == ClickType::Creative),
    {
        matches!(
            self,
            ClickType::Left | ClickType::ShiftLeft | ClickType::DoubleClick | ClickType::Creative
        )
    }

    /// True for shift-modified clicks.
    pub fn is_shift_click(&self) -> (r: bool)
        ensures
            r <==> (*self == ClickType::ShiftLeft || *self == ClickType::ShiftRight),
    {
        matches!(self, ClickType::ShiftLeft | ClickType::ShiftRight)
    }
}

/// What a click does to the slots and the cursor.
#[derive(Clone, Copy, PartialEq, Eq, Structural, Debug)]
pub enum InventoryAction {
    Nothing,
    PickupAll,
    PickupSome,
    PickupHalf,
    PickupOne,
    PlaceAll,
    PlaceSome,
    PlaceOne,
    SwapWithCursor,
    DropAllCursor,
    DropOneCursor,
    DropAllSlot,
    DropOneSlot,
    MoveToOtherInventory,
    HotbarSwap,
    CloneStack,
    CollectToCursor,
    PickupFromBundle,
    PickupAllIntoBundle,
    PickupSomeIntoBundle,
    PlaceFromBundle,
    PlaceAllIntoBundle,
    PlaceSomeIntoBundle,
    Unknown,
}

/// A stack of items as this core carries it: the item's registry
/// identifier and how many of it the stack holds.
#[derive(Clone, Copy, PartialEq, Eq, Structural, Debug)]
pub struct ItemStackData {
    pub item_id: u16,
    pub count: u8,
}

/// Event fired when a player clicks a slot in an open inventory.
///
/// Cancelling it prevents the click from taking effect.
#[derive(Clone, Copy, PartialEq, Eq, Structural, Debug)]
pub struct InventoryClickEvent {
    /// Identifier of the player who performs the click.
    pub player: u64,
    /// The type of the clicked slot.
    pub slot_type: SlotType,
    /// The raw slot number.
    pub raw_slot: usize,
    /// The type of click that was performed.
    pub click: ClickType,
    /// The type of action that was performed.
    pub action: InventoryAction,
    /// The item in the currently clicked slot, for clicks that carry one.
    pub current: Option<ItemStackData>,
    /// Identifier of the inventory the click lands in.
    pub owner: u64,
    /// The hotbar key pressed, `0` to `8`, for number-key clicks.
    pub hotbar_key: Option<i8>,
    /// The veto flag consulted by the call site after the event returns.
    pub cancelled: bool,
}

impl InventoryClickEvent {
    /// A fresh, uncancelled click event.
    pub fn new(
        player: u64,
        slot_type: SlotType,
        raw_slot: usize,
        click: ClickType,
        action: InventoryAction,
        current: Option<ItemStackData>,
        owner: u64,
        hotbar_key: Option<i8>,
    ) -> (event: Self)
        ensures
            event == (InventoryClickEvent {
                player,
                slot_type,
                raw_slot,
                click,
                action,
                current,
                owner,
                hotbar_key,
                cancelled: false,
            }),
    {
        InventoryClickEvent {
            player,
            slot_type,
            raw_slot,
            click,
            action,
            current,
            owner,
            hotbar_key,
            cancelled: false,
        }
    }

    /// The type of the clicked slot.
    pub fn get_slot_type(&self) -> (slot_type: SlotType)
        ensures
            slot_type == self.slot_type,
    {
        self.slot_type
    }

    /// The raw slot number.
    pub fn get_raw_slot(&self) -> (raw_slot: usize)
        ensures
            raw_slot == self.raw_slot,
    {
        self.raw_slot
    }

    /// True when the click acts like a left click.
    pub fn is_left_click(&self) -> (r: bool)
        ensures
            r <==> (self.click == ClickType::Left || self.click == ClickType::ShiftLeft
                || self.click == ClickType::DoubleClick || self.click == ClickType::Creative),
    {
        self.click.is_left_click()
    }

    /// True when the click is a right click.
    pub fn is_right_click(&self) -> (r: bool)
        ensures
            r <==> (self.click == ClickType::Right || self.click == ClickType::ShiftRight),
    {
        self.click.is_right_click()
    }

    /// True when the click is shift-modified.
    pub fn is_shift_click(&self) -> (r: bool)
        ensures
            r <==> (self.click == ClickType::ShiftLeft || self.click == ClickType::ShiftRight),
    {
        self.click.is_shift_click()
    }

    /// The hotbar key pressed, if any.
    pub fn get_hotbar_button(&self) -> (hotbar_key: Option<i8>)
        ensures
            hotbar_key == self.hotbar_key,
    {
        self.hotbar_key
    }

    /// The type of action that was performed.
    pub fn get_action(&self) -> (action: InventoryAction)
        ensures
            action == self.action,
    {
        self.action
    }

    /// The type of click that was performed.
    pub fn get_click(&self) -> (click: ClickType)
        ensures
            click == self.click,
    {
        self.click
    }

    /// The item carried by the event itself, if any.
    pub fn get_current(&self) -> (current: Option<ItemStackData>)
        ensures
            current == self.current,
    {
        self.current
    }
}

impl Cancellable for InventoryClickEvent {
    open spec fn spec_cancelled(&self) -> bool {
        self.cancelled
    }

    fn cancelled(&self) -> (cancelled: bool) {
        self.cancelled
    }

    fn set_cancelled(&mut self, cancelled: bool)
        ensures
            *final(self) == (InventoryClickEvent { cancelled, ..*old(self) }),
    {
        self.cancelled = cancelled;
    }
}

} // verus!

use tickbus::event::Cancellable;
use tickbus::event::EventBus;
use tickbus::events::block_place::BlockPlaceEvent;
use tickbus::events::block_place::BuildGuard;
use tickbus::events::inventory::ClickType;
use tickbus::events::inventory::InventoryAction;
use tickbus::events::inventory::InventoryClickEvent;
use tickbus::events::inventory::ItemStackData;
use tickbus::events::inventory::SlotType;
use tickbus::events::player::BedEnterResult;
use tickbus::events::player::PlayerBedEnterEvent;
use tickbus::events::player::PlayerBedLeaveEvent;
use tickbus::events::player::PlayerDeathEvent;
use tickbus::events::sign_change::Side;
use tickbus::events::sign_change::SignChangeEvent;

fn sign_lines() -> Vec<String> {
    vec!["first".to_string(), "second".to_string()]
}

#[test]
fn sign_change_event_starts_uncancelled_with_the_given_lines() {
    let event = SignChangeEvent::new(9, sign_lines(), Side::Front);
    assert_eq!(event.player, 9);
    assert_eq!(event.lines(), sign_lines());
    assert_eq!(event.get_side(), Side::Front);
    assert!(!event.cancelled);
}

#[test]
fn sign_change_line_returns_the_line_at_the_index() {
    let event = SignChangeEvent::new(9, sign_lines(), Side::Back);
    assert_eq!(event.line(0), "first");
    assert_eq!(event.line(1), "second");
}

#[test]
fn sign_change_set_line_inserts_at_the_index() {
    let mut event = SignChangeEvent::new(9, sign_lines(), Side::Front);
    event.set_line(1, "between".to_string());
    assert_eq!(
        event.lines(),
        vec!["first".to_string(), "between".to_string(), "second".to_string()]
    );
}

#[test]
fn sign_change_event_is_cancellable() {
    let mut event = SignChangeEvent::new(9, sign_lines(), Side::Front);
    event.set_cancelled(true);
    assert!(event.cancelled());
    assert_eq!(event.lines(), sign_lines());
}

#[test]
fn keyboard_clicks_are_exactly_the_four_key_actions() {
    let keyboard = [
        ClickType::NumberKey,
        ClickType::Drop,
        ClickType::ControlDrop,
        ClickType::SwapOffhand,
    ];
    for click in keyboard {
        assert!(click.is_keyboard_click());
        assert!(!click.is_mouse_click());
    }
    assert!(!ClickType::Left.is_keyboard_click());
    assert!(!ClickType::Creative.is_keyboard_click());
}

#[test]
fn mouse_clicks_cover_buttons_borders_and_double_clicks() {
    let mouse = [
        ClickType::DoubleClick,
        ClickType::Left,
        ClickType::Right,
        ClickType::Middle,
        ClickType::WindowBorderLeft,
        ClickType::WindowBorderRight,
        ClickType::ShiftLeft,
        ClickType::ShiftRight,
    ];
    for click in mouse {
        assert!(click.is_mouse_click());
    }
    assert!(!ClickType::Creative.is_mouse_click());
    assert!(!ClickType::Unknown.is_mouse_click());
}

#[test]
fn click_classification_matches_the_click_taxonomy() {
    assert!(ClickType::Middle.is_creative_action());
    assert!(ClickType::Creative.is_creative_action());
    assert!(!ClickType::Left.is_creative_action());

    assert!(ClickType::Right.is_right_click());
    assert!(ClickType::ShiftRight.is_right_click());
    assert!(!ClickType::Left.is_right_click());

    assert!(ClickType::Left.is_left_click());
    assert!(ClickType::ShiftLeft.is_left_click());
    assert!(ClickType::DoubleClick.is_left_click());
    assert!(ClickType::Creative.is_left_click());
    assert!(!ClickType::Right.is_left_click());

    assert!(ClickType::ShiftLeft.is_shift_click());
    assert!(ClickType::ShiftRight.is_shift_click());
    assert!(!ClickType::NumberKey.is_shift_click());
}

#[test]
fn inventory_click_event_exposes_its_fields() {
    let stack = ItemStackData { item_id: 42, count: 3 };
    let event = InventoryClickEvent::new(
        7,
        SlotType::Container,
        13,
        ClickType::ShiftLeft,
        InventoryAction::MoveToOtherInventory,
        Some(stack),
        99,
        None,
    );
    assert_eq!(event.get_slot_type(), SlotType::Container);
    assert_eq!(event.get_raw_slot(), 13);
    assert_eq!(event.get_click(), ClickType::ShiftLeft);
    assert_eq!(event.get_action(), InventoryAction::MoveToOtherInventory);
    assert_eq!(event.get_current(), Some(stack));
    assert_eq!(event.get_hotbar_button(), None);
    assert!(event.is_left_click());
    assert!(!event.is_right_click());
    assert!(event.is_shift_click());
    assert!(!event.cancelled);
}

#[test]
fn inventory_click_event_is_cancellable() {
    let mut event = InventoryClickEvent::new(
        7,
        SlotType::Quickbar,
        0,
        ClickType::NumberKey,
        InventoryAction::HotbarSwap,
        None,
        99,
        Some(4),
    );
    assert!(!event.cancelled());
    event.set_cancelled(true);
    assert!(event.cancelled());
    assert_eq!(event.get_hotbar_button(), Some(4));
}

#[test]
fn block_place_event_carries_blocks_and_build_permission() {
    let mut event = BlockPlaceEvent::new(3, 200, 1, true);
    assert_eq!(event.get_block_placed(), 200);
    assert_eq!(event.get_block_against(), 1);
    assert!(event.get_can_build());
    event.set_can_build(false);
    assert!(!event.get_can_build());
    assert!(!event.cancelled());
    event.set_cancelled(true);
    assert!(event.cancelled());
    assert_eq!(event.get_block_placed(), 200);
}

#[test]
fn build_guard_vetoes_placements_without_build_permission() {
    let mut bus = EventBus::new();
    bus.register(0, 0, BuildGuard {});
    let (event, proceed) = bus.fire_cancellable(0, BlockPlaceEvent::new(3, 200, 1, false));
    assert!(event.cancelled());
    assert!(!proceed);
    let (event, proceed) = bus.fire_cancellable(0, BlockPlaceEvent::new(3, 200, 1, true));
    assert!(!event.cancelled());
    assert!(proceed);
}

#[test]
fn bed_enter_event_reports_bed_and_result() {
    let mut event = PlayerBedEnterEvent::new(5, 77, BedEnterResult::NotSafe);
    assert_eq!(event.get_bed(), 77);
    assert_eq!(event.get_bed_enter_result(), BedEnterResult::NotSafe);
    assert!(!event.cancelled());
    event.set_cancelled(true);
    assert!(event.cancelled());
}

#[test]
fn bed_leave_event_reports_spawn_update() {
    let event = PlayerBedLeaveEvent::new(5, 77, true);
    assert_eq!(event.get_bed(), 77);
    assert!(event.should_set_spawn_location());
    let event = PlayerBedLeaveEvent::new(5, 77, false);
    assert!(!event.should_set_spawn_location());
}

#[test]
fn setting_the_veto_flag_touches_no_other_field() {
    let mut sign = SignChangeEvent::new(9, sign_lines(), Side::Front);
    sign.set_cancelled(true);
    assert_eq!(sign.player, 9);
    assert_eq!(sign.lines(), sign_lines());
    assert_eq!(sign.get_side(), Side::Front);

    let mut place = BlockPlaceEvent::new(3, 200, 1, true);
    place.set_cancelled(true);
    assert_eq!(place.player, 3);
    assert_eq!(place.get_block_placed(), 200);
    assert_eq!(place.get_block_against(), 1);
    assert!(place.get_can_build());

    let mut death = PlayerDeathEvent::new(2, "gone".to_string(), 11);
    death.set_cancelled(true);
    assert_eq!(death.player, 2);
    assert_eq!(death.get_death_message(), "gone");
    assert_eq!(death.get_death_type(), 11);

    let mut enter = PlayerBedEnterEvent::new(5, 77, BedEnterResult::Success);
    enter.set_cancelled(true);
    assert_eq!(enter.get_bed(), 77);
    assert_eq!(enter.get_bed_enter_result(), BedEnterResult::Success);

    let mut leave = PlayerBedLeaveEvent::new(5, 77, true);
    leave.set_cancelled(true);
    assert_eq!(leave.get_bed(), 77);
    assert!(leave.should_set_spawn_location());

    let mut click = InventoryClickEvent::new(
        7,
        SlotType::Quickbar,
        0,
        ClickType::NumberKey,
        InventoryAction::HotbarSwap,
        None,
        99,
        Some(4),
    );
    click.set_cancelled(true);
    assert_eq!(click.player, 7);
    assert_eq!(click.get_raw_slot(), 0);
    assert_eq!(click.get_hotbar_button(), Some(4));
}

#[test]
fn death_event_message_and_damage_type_can_be_rewritten() {
    let mut event = PlayerDeathEvent::new(2, "fell out of the world".to_string(), 11);
    assert_eq!(event.get_death_message(), "fell out of the world");
    assert_eq!(event.get_death_type(), 11);
    event.set_death_message("was slain".to_string());
    event.set_death_type(4);
    assert_eq!(event.get_death_message(), "was slain");
    assert_eq!(event.get_death_type(), 4);
    assert!(!event.cancelled());
    event.set_cancelled(true);
    assert!(event.cancelled());
}

use mc173::inventory::{PlayerInventory, WindowSlot};
use mc173::item::{self, ItemStack};
use mc173::server::{dimension_code, find_world, login_refusal, needs_rain_notification, ClientState, Departure, OfflineStore, Sessions};

#[test]
fn protocol_version_is_checked() {
    assert_eq!(login_refusal(14), None);
    assert_eq!(login_refusal(13), Some("Protocol version mismatch!".to_string()));
    assert_eq!(login_refusal(15), Some("Protocol version mismatch!".to_string()));
}

#[test]
fn worlds_are_found_by_name() {
    let names = vec!["overworld".to_string(), "nether".to_string(), "nether".to_string()];
    assert_eq!(find_world(&names, &"nether".to_string()), Some(1));
    assert_eq!(find_world(&names, &"overworld".to_string()), Some(0));
    assert_eq!(find_world(&names, &"end".to_string()), None);
}

#[test]
fn lost_player_slot_is_refilled_by_the_last() {
    let mut sessions = Sessions::new();
    assert_eq!(sessions.register_world(), 0);
    assert_eq!(sessions.register_world(), 1);
    for c in [10u64, 11, 12] {
        assert!(sessions.accept(c));
    }
    assert!(!sessions.accept(10));
    assert_eq!(sessions.state(10), Some(ClientState::Handshaking));
    assert_eq!(sessions.join(10, 0), 0);
    assert_eq!(sessions.join(11, 0), 1);
    assert_eq!(sessions.join(12, 0), 2);
    let d = sessions.lose(10);
    assert_eq!(d, Some(Departure { world_index: 0, player_index: 0, swapped: Some(12) }));
    assert_eq!(sessions.state(12), Some(ClientState::Playing { world_index: 0, player_index: 0 }));
    assert_eq!(sessions.state(11), Some(ClientState::Playing { world_index: 0, player_index: 1 }));
    assert_eq!(sessions.state(10), None);
    assert_eq!(sessions.lose(11), Some(Departure { world_index: 0, player_index: 1, swapped: None }));
    assert_eq!(sessions.lose(11), None);
    sessions.accept(13);
    assert_eq!(sessions.lose(13), None);
    assert_eq!(sessions.state(13), None);
}

#[test]
fn same_username_finds_the_saved_record() {
    let mut store: OfflineStore<(i64, i64, i64)> = OfflineStore::new();
    let first = store.entry("A".to_string(), (0, 64, 0));
    assert_eq!(*store.get(first), (0, 64, 0));
    store.save("A".to_string(), (5, 70, -3));
    let again = store.entry("A".to_string(), (0, 64, 0));
    assert_eq!(again, first);
    assert_eq!(*store.get(again), (5, 70, -3));
    let other = store.entry("B".to_string(), (1, 1, 1));
    assert_ne!(other, first);
    assert_eq!(store.find(&"B".to_string()), Some(other));
    assert_eq!(store.find(&"C".to_string()), None);
}

#[test]
fn first_login_window_is_empty_and_ordered() {
    let inv = PlayerInventory::new();
    let items = inv.window_items();
    assert_eq!(items.len(), 4 + 4 + 36);
    for (i, slot) in items.iter().enumerate() {
        assert_eq!(slot.slot as usize, i + 1);
        assert_eq!(slot.stack, None);
    }
}

#[test]
fn hotbar_comes_last_in_the_window() {
    let mut inv = PlayerInventory::new();
    inv.main_inv[0] = ItemStack::new_single(item::BREAD, 0);
    inv.main_inv[9] = ItemStack::new_single(item::SADDLE, 0);
    inv.armor_inv[1] = ItemStack::new_single(item::BUCKET, 0);
    inv.craft_inv[3] = ItemStack::new_single(item::FLINT, 0);
    let items = inv.window_items();
    assert_eq!(items[3], WindowSlot { slot: 4, stack: Some(ItemStack::new_single(item::FLINT, 0)) });
    assert_eq!(items[5], WindowSlot { slot: 6, stack: Some(ItemStack::new_single(item::BUCKET, 0)) });
    assert_eq!(items[8], WindowSlot { slot: 9, stack: Some(ItemStack::new_single(item::SADDLE, 0)) });
    assert_eq!(items[8 + 27], WindowSlot { slot: 36, stack: Some(ItemStack::new_single(item::BREAD, 0)) });
    let copy = inv.snapshot();
    assert_eq!(copy.main_inv, inv.main_inv);
    assert_eq!(copy.hand_slot, 0);
}

#[test]
fn login_reply_codes() {
    assert_eq!(dimension_code(mc173::world::Dimension::Overworld), 0);
    assert_eq!(dimension_code(mc173::world::Dimension::Nether), -1);
    assert!(!needs_rain_notification(mc173::world::Weather::Clear));
    assert!(needs_rain_notification(mc173::world::Weather::Rain));
    assert!(needs_rain_notification(mc173::world::Weather::Thunder));
}

use liquidmon::device_menu::{device_dropdown_items, device_dropdown_selected, dropdown_entries};
use liquidmon::liquidctl::DetectedDevice;

fn detected(description: &str) -> DetectedDevice {
    DetectedDevice {
        description: description.to_string(),
        bus: "hid".to_string(),
        address: "/dev/hidraw0".to_string(),
    }
}

#[test]
fn dropdown_items_includes_auto_first() {
    let devices = vec![detected("Corsair Hydro Foo")];
    let items = device_dropdown_items(&devices, None);
    assert!(!items.is_empty());
    assert!(
        items[0].starts_with("Auto"),
        "first item should be Auto, got {:?}",
        items[0],
    );
}

#[test]
fn dropdown_items_appends_disconnected_synthetic_when_saved_missing() {
    let devices = vec![detected("Corsair Hydro Foo")];
    let items = device_dropdown_items(&devices, Some("Corsair iCUE Hbar"));
    assert!(
        items
            .iter()
            .any(|s| s == "Corsair iCUE Hbar (disconnected)"),
        "expected disconnected synthetic in {items:?}",
    );
}

#[test]
fn dropdown_items_omits_synthetic_when_saved_is_connected() {
    let devices = vec![detected("Corsair Hydro Foo")];
    let items = device_dropdown_items(&devices, Some("Corsair Hydro Foo"));
    assert!(
        !items.iter().any(|s| s.ends_with("(disconnected)")),
        "no disconnected row when saved is connected, got {items:?}",
    );
}

#[test]
fn dropdown_items_omits_auto_picked_device_from_explicit_list() {
    let devices = vec![detected("Corsair Hydro Foo")];
    let items = device_dropdown_items(&devices, None);
    assert_eq!(
        items.len(),
        1,
        "single AIO should yield one item (the Auto row only), got {items:?}",
    );
    assert!(items[0].starts_with("Auto ("));
}

#[test]
fn dropdown_items_lists_non_auto_aios_explicitly() {
    let devices = vec![detected("Corsair Hydro Foo"), detected("Corsair iCUE Hbar")];
    let items = device_dropdown_items(&devices, None);
    assert_eq!(items.len(), 2, "got {items:?}");
    assert!(items[0].starts_with("Auto (Corsair Hydro Foo)"));
    assert_eq!(items[1], "Corsair iCUE Hbar");
}

#[test]
fn dropdown_omits_disconnected_for_connected_non_aio_saved() {
    let devices = vec![detected("Generic Cooler 9000")];
    let items = device_dropdown_items(&devices, Some("Generic Cooler 9000"));
    assert!(
        !items.iter().any(|s| s.ends_with("(disconnected)")),
        "connected non-AIO saved device must not be marked disconnected, got {items:?}",
    );
}

#[test]
fn dropdown_commits_real_value_not_display_label() {
    let weird = "Corsair Hydro (disconnected)";
    let entries = dropdown_entries(&[], Some(weird));
    let synthetic = entries
        .iter()
        .find(|(_, value)| value.as_deref() == Some(weird))
        .expect("saved device should appear as a disconnected entry");
    assert_eq!(synthetic.1.as_deref(), Some(weird));
}

#[test]
fn dropdown_selected_none_maps_to_auto() {
    let entries = dropdown_entries(&[], None);
    assert_eq!(device_dropdown_selected(&[], None, &entries), Some(0));
}

#[test]
fn dropdown_selected_explicit_pick_maps_to_its_row() {
    let devices = vec![detected("Corsair Hydro Foo"), detected("Corsair iCUE Hbar")];
    let saved = Some("Corsair iCUE Hbar");
    let entries = dropdown_entries(&devices, saved);
    assert_eq!(device_dropdown_selected(&devices, saved, &entries), Some(1));
    assert_eq!(entries[1].1.as_deref(), Some("Corsair iCUE Hbar"));
}

#[test]
fn dropdown_selected_explicit_pick_matching_auto_maps_to_auto() {
    let devices = vec![detected("Corsair Hydro Foo")];
    let saved = Some("Corsair Hydro Foo");
    let entries = dropdown_entries(&devices, saved);
    assert_eq!(device_dropdown_selected(&devices, saved, &entries), Some(0));
}

#[test]
fn dropdown_selected_disconnected_saved_maps_to_synthetic_row() {
    let devices = vec![detected("Corsair Hydro Foo")];
    let saved = Some("Corsair iCUE Hbar");
    let entries = dropdown_entries(&devices, saved);
    let idx = device_dropdown_selected(&devices, saved, &entries)
        .expect("disconnected saved choice should resolve to a row");
    assert!(entries[idx].0.ends_with("(disconnected)"));
    assert_eq!(entries[idx].1.as_deref(), Some("Corsair iCUE Hbar"));
}

// ── further cases of this library's own ─────────────────────────────────

#[test]
fn dropdown_without_any_aio_says_so() {
    let devices = vec![detected("Corsair RMi Series Power Supply")];
    let entries = dropdown_entries(&devices, None);
    assert_eq!(entries, vec![("Auto (no AIO detected)".to_string(), None)]);
}

#[test]
fn dropdown_selected_unlisted_saved_choice_has_no_row_without_entries() {
    let devices = vec![detected("Corsair Hydro Foo")];
    assert_eq!(device_dropdown_selected(&devices, Some("Other"), &[]), None);
}

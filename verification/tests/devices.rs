use liquidmon::devices::{auto_select, filter_aios, is_aio};
use liquidmon::liquidctl::DetectedDevice;

fn dev(description: &str) -> DetectedDevice {
    DetectedDevice {
        description: description.to_string(),
        bus: "hid".to_string(),
        address: "/dev/hidraw0".to_string(),
    }
}

#[test]
fn is_aio_matches_known_substrings() {
    assert!(is_aio("Corsair Hydro H150i Pro XT"));
    assert!(is_aio("Corsair iCUE H100i Elite Capellix"));
}

#[test]
fn is_aio_rejects_psus_and_rgb_hubs() {
    assert!(!is_aio("Corsair RMi Series Power Supply"));
    assert!(!is_aio("Corsair Lighting Node Pro"));
    assert!(!is_aio("Gigabyte RGB Fusion 2.0 8297 Controller"));
}

#[test]
fn is_aio_is_case_insensitive() {
    assert!(is_aio("corsair hydro h150i"));
    assert!(is_aio("CORSAIR ICUE H100I"));
}

#[test]
fn auto_select_picks_first_aio_in_list() {
    let list = vec![
        dev("Gigabyte RGB Fusion 2.0 8297 Controller"),
        dev("Corsair Hydro H150i Pro XT"),
        dev("Corsair iCUE H100i Elite Capellix"),
    ];
    let picked = auto_select(&list).expect("should pick first AIO");
    assert_eq!(picked.description, "Corsair Hydro H150i Pro XT");
}

#[test]
fn auto_select_returns_none_for_no_aio() {
    let list = vec![
        dev("Corsair RMi Series Power Supply"),
        dev("Gigabyte RGB Fusion 2.0 8297 Controller"),
    ];
    assert!(auto_select(&list).is_none());
}

#[test]
fn filter_aios_preserves_order_and_drops_non_aios() {
    let list = vec![
        dev("Gigabyte RGB Fusion 2.0 8297 Controller"),
        dev("Corsair Hydro H150i Pro XT"),
        dev("Corsair RMi Series Power Supply"),
        dev("Corsair iCUE H100i Elite Capellix"),
    ];
    let aios = filter_aios(&list);
    assert_eq!(aios.len(), 2);
    assert_eq!(aios[0].description, "Corsair Hydro H150i Pro XT");
    assert_eq!(aios[1].description, "Corsair iCUE H100i Elite Capellix");
}

#[test]
fn empty_device_list_has_no_aio() {
    assert!(auto_select(&[]).is_none());
    assert!(filter_aios(&[]).is_empty());
    assert!(!is_aio(""));
    assert!(!is_aio("icue"));
}

use liquidmon::liquidctl::{
    decode_status, split_fan_key, ClampedValue, DecodedStatus, DeviceEntry, StatusEntry,
    StatusError,
};
use serde_json::Value;

/// A reply decoded into the readings a status sample shows.
#[derive(Debug)]
struct Status {
    description: String,
    liquid_temp_c: f64,
    pump: liquidmon::liquidctl::Pump,
    fans: Vec<liquidmon::liquidctl::Fan>,
}

#[derive(Debug)]
enum Error {
    Parse,
    Decode(StatusError),
}

/// An entry's value as the decoder sees it: a number, clamped, beside its
/// raw reading; a string, boolean or null is no number and is skipped.
fn number(v: &Value) -> Result<Option<(ClampedValue, f64)>, Error> {
    Ok(v.as_f64().map(|f| {
        (
            ClampedValue {
                rpm: f.clamp(0.0, f64::from(u32::MAX)) as u32,
                pct: f.clamp(0.0, 100.0) as u8,
            },
            f,
        )
    }))
}

fn string(v: Option<&Value>) -> Result<String, Error> {
    v.and_then(Value::as_str)
        .map(str::to_string)
        .ok_or(Error::Parse)
}

/// Reads a `liquidctl --json status` reply into the decoder's input, keeping
/// each entry's raw number beside it, then decodes it.
fn parse_status_response(raw: &str) -> Result<Status, Error> {
    let root: Value = serde_json::from_str(raw).map_err(|_| Error::Parse)?;
    let mut devices = Vec::new();
    let mut raw_values = Vec::new();
    for d in root.as_array().ok_or(Error::Parse)? {
        string(d.get("bus"))?;
        string(d.get("address"))?;
        let description = string(d.get("description"))?;
        let mut status = Vec::new();
        let mut values = Vec::new();
        for e in d.get("status").and_then(Value::as_array).ok_or(Error::Parse)? {
            let key = string(e.get("key"))?;
            string(e.get("unit"))?;
            let n = number(e.get("value").ok_or(Error::Parse)?)?;
            status.push(StatusEntry {
                key,
                value: n.map(|(c, _)| c),
            });
            values.push(n.map(|(_, f)| f).unwrap_or(f64::NAN));
        }
        devices.push(DeviceEntry {
            description,
            status,
        });
        raw_values.push(values);
    }
    let d: DecodedStatus = decode_status(&devices).map_err(Error::Decode)?;
    Ok(Status {
        description: d.description,
        liquid_temp_c: raw_values[d.device][d.liquid_temp_entry],
        pump: d.pump,
        fans: d.fans,
    })
}

const FIXTURE: &str = r#"[{"bus": "hid", "address": "/dev/hidraw0", "description": "Gigabyte RGB Fusion 2.0 8297 Controller", "status": []}, {"bus": "hid", "address": "/dev/hidraw1", "description": "Corsair Hydro H150i Pro XT", "status": [{"key": "Liquid temperature", "value": 30.109803921568627, "unit": "°C"}, {"key": "Fan 1 speed", "value": 1000, "unit": "rpm"}, {"key": "Fan 1 duty", "value": 40, "unit": "%"}, {"key": "Fan 2 speed", "value": 971, "unit": "rpm"}, {"key": "Fan 2 duty", "value": 40, "unit": "%"}, {"key": "Fan 3 speed", "value": 1034, "unit": "rpm"}, {"key": "Fan 3 duty", "value": 40, "unit": "%"}, {"key": "Pump speed", "value": 2334, "unit": "rpm"}, {"key": "Pump duty", "value": 75, "unit": "%"}]}]"#;

#[test]
fn parses_h150i_pro_xt_fixture() {
    let status = parse_status_response(FIXTURE).expect("fixture should parse");

    assert_eq!(status.description, "Corsair Hydro H150i Pro XT");
    assert!(
        (status.liquid_temp_c - 30.1098).abs() < 0.01,
        "liquid_temp_c was {}",
        status.liquid_temp_c
    );

    assert_eq!(status.pump.speed_rpm, 2334);
    assert_eq!(status.pump.duty_pct, 75);

    assert_eq!(status.fans.len(), 3);

    assert_eq!(status.fans[0].index, 1);
    assert_eq!(status.fans[0].speed_rpm, 1000);
    assert_eq!(status.fans[0].duty_pct, 40);

    assert_eq!(status.fans[1].index, 2);
    assert_eq!(status.fans[1].speed_rpm, 971);
    assert_eq!(status.fans[1].duty_pct, 40);

    assert_eq!(status.fans[2].index, 3);
    assert_eq!(status.fans[2].speed_rpm, 1034);
    assert_eq!(status.fans[2].duty_pct, 40);
}

#[test]
fn empty_array_yields_no_device() {
    match parse_status_response("[]") {
        Err(Error::Decode(StatusError::NoDevice)) => {}
        other => panic!("expected Error::NoDevice, got {other:?}"),
    }
}

#[test]
fn all_devices_empty_status_yields_no_device() {
    let raw = r#"[
        {"bus":"hid","address":"/dev/hidraw0","description":"A","status":[]},
        {"bus":"hid","address":"/dev/hidraw1","description":"B","status":[]}
    ]"#;
    match parse_status_response(raw) {
        Err(Error::Decode(StatusError::NoDevice)) => {}
        other => panic!("expected Error::NoDevice, got {other:?}"),
    }
}

#[test]
fn device_missing_liquid_temp_yields_missing_field() {
    let raw = r#"[{"bus": "hid", "address": "/dev/hidraw1", "description": "Corsair Hydro H150i Pro XT", "status": [{"key": "Fan 1 speed", "value": 1000, "unit": "rpm"}, {"key": "Fan 1 duty", "value": 40, "unit": "%"}, {"key": "Pump speed", "value": 2334, "unit": "rpm"}, {"key": "Pump duty", "value": 75, "unit": "%"}]}]"#;
    match parse_status_response(raw) {
        Err(Error::Decode(StatusError::MissingField("liquid temperature"))) => {}
        other => panic!("expected Error::MissingField(\"liquid temperature\"), got {other:?}"),
    }
}

#[test]
fn device_missing_pump_speed_yields_missing_field() {
    let raw = r#"[{"bus":"hid","address":"/dev/hidraw1","description":"X","status":[
        {"key":"Liquid temperature","value":30.0,"unit":"°C"},
        {"key":"Pump duty","value":75,"unit":"%"}
    ]}]"#;
    match parse_status_response(raw) {
        Err(Error::Decode(StatusError::MissingField("pump speed"))) => {}
        other => panic!("expected MissingField(\"pump speed\"), got {other:?}"),
    }
}

#[test]
fn device_missing_pump_duty_yields_missing_field() {
    let raw = r#"[{"bus":"hid","address":"/dev/hidraw1","description":"X","status":[
        {"key":"Liquid temperature","value":30.0,"unit":"°C"},
        {"key":"Pump speed","value":2000,"unit":"rpm"}
    ]}]"#;
    match parse_status_response(raw) {
        Err(Error::Decode(StatusError::MissingField("pump duty"))) => {}
        other => panic!("expected MissingField(\"pump duty\"), got {other:?}"),
    }
}

#[test]
fn fan_with_only_speed_is_dropped() {
    let raw = r#"[{"bus":"hid","address":"/dev/hidraw1","description":"X","status":[
        {"key":"Liquid temperature","value":30.0,"unit":"°C"},
        {"key":"Pump speed","value":2000,"unit":"rpm"},
        {"key":"Pump duty","value":75,"unit":"%"},
        {"key":"Fan 1 speed","value":1000,"unit":"rpm"},
        {"key":"Fan 2 speed","value":1100,"unit":"rpm"},
        {"key":"Fan 2 duty","value":50,"unit":"%"}
    ]}]"#;
    let status = parse_status_response(raw).expect("should parse");
    assert_eq!(status.fans.len(), 1);
    assert_eq!(status.fans[0].index, 2);
    assert_eq!(status.fans[0].speed_rpm, 1100);
    assert_eq!(status.fans[0].duty_pct, 50);
}

#[test]
fn fan_with_only_duty_is_dropped() {
    let raw = r#"[{"bus":"hid","address":"/dev/hidraw1","description":"X","status":[
        {"key":"Liquid temperature","value":30.0,"unit":"°C"},
        {"key":"Pump speed","value":2000,"unit":"rpm"},
        {"key":"Pump duty","value":75,"unit":"%"},
        {"key":"Fan 1 duty","value":40,"unit":"%"}
    ]}]"#;
    let status = parse_status_response(raw).expect("should parse");
    assert!(status.fans.is_empty());
}

#[test]
fn fan_index_zero_is_ignored() {
    let raw = r#"[{"bus":"hid","address":"/dev/hidraw1","description":"X","status":[
        {"key":"Liquid temperature","value":30.0,"unit":"°C"},
        {"key":"Pump speed","value":2000,"unit":"rpm"},
        {"key":"Pump duty","value":75,"unit":"%"},
        {"key":"Fan 0 speed","value":900,"unit":"rpm"},
        {"key":"Fan 0 duty","value":30,"unit":"%"},
        {"key":"Fan 1 speed","value":1000,"unit":"rpm"},
        {"key":"Fan 1 duty","value":40,"unit":"%"}
    ]}]"#;
    let status = parse_status_response(raw).expect("should parse");
    assert_eq!(status.fans.len(), 1);
    assert_eq!(status.fans[0].index, 1);
}

#[test]
fn fans_emerge_sorted_by_index() {
    let raw = r#"[{"bus":"hid","address":"/dev/hidraw1","description":"X","status":[
        {"key":"Liquid temperature","value":30.0,"unit":"°C"},
        {"key":"Pump speed","value":2000,"unit":"rpm"},
        {"key":"Pump duty","value":75,"unit":"%"},
        {"key":"Fan 3 speed","value":1300,"unit":"rpm"},
        {"key":"Fan 1 duty","value":40,"unit":"%"},
        {"key":"Fan 2 speed","value":1200,"unit":"rpm"},
        {"key":"Fan 3 duty","value":60,"unit":"%"},
        {"key":"Fan 1 speed","value":1100,"unit":"rpm"},
        {"key":"Fan 2 duty","value":50,"unit":"%"}
    ]}]"#;
    let status = parse_status_response(raw).expect("should parse");
    let indices: Vec<u8> = status.fans.iter().map(|f| f.index).collect();
    assert_eq!(indices, vec![1, 2, 3]);
}

#[test]
fn out_of_range_pump_duty_is_clamped() {
    let raw = r#"[{"bus":"hid","address":"/dev/hidraw1","description":"X","status":[
        {"key":"Liquid temperature","value":30.0,"unit":"°C"},
        {"key":"Pump speed","value":2000,"unit":"rpm"},
        {"key":"Pump duty","value":250,"unit":"%"}
    ]}]"#;
    let status = parse_status_response(raw).expect("should parse");
    assert_eq!(status.pump.duty_pct, 100);
}

#[test]
fn negative_values_clamp_to_zero() {
    let raw = r#"[{"bus":"hid","address":"/dev/hidraw1","description":"X","status":[
        {"key":"Liquid temperature","value":30.0,"unit":"°C"},
        {"key":"Pump speed","value":-50,"unit":"rpm"},
        {"key":"Pump duty","value":-10,"unit":"%"}
    ]}]"#;
    let status = parse_status_response(raw).expect("should parse");
    assert_eq!(status.pump.speed_rpm, 0);
    assert_eq!(status.pump.duty_pct, 0);
}

#[test]
fn first_device_with_status_is_selected() {
    let raw = r#"[
        {"bus":"hid","address":"/dev/hidraw0","description":"Empty","status":[]},
        {"bus":"hid","address":"/dev/hidraw1","description":"Picked","status":[
            {"key":"Liquid temperature","value":31.0,"unit":"°C"},
            {"key":"Pump speed","value":2000,"unit":"rpm"},
            {"key":"Pump duty","value":75,"unit":"%"}
        ]},
        {"bus":"hid","address":"/dev/hidraw2","description":"Skipped","status":[
            {"key":"Liquid temperature","value":99.0,"unit":"°C"},
            {"key":"Pump speed","value":1,"unit":"rpm"},
            {"key":"Pump duty","value":1,"unit":"%"}
        ]}
    ]"#;
    let status = parse_status_response(raw).expect("should parse");
    assert_eq!(status.description, "Picked");
    assert!((status.liquid_temp_c - 31.0).abs() < 0.001);
}

#[test]
fn unknown_keys_are_silently_ignored() {
    let raw = r#"[{"bus":"hid","address":"/dev/hidraw1","description":"X","status":[
        {"key":"Firmware version","value":42,"unit":""},
        {"key":"Liquid temperature","value":30.0,"unit":"°C"},
        {"key":"Pump speed","value":2000,"unit":"rpm"},
        {"key":"Pump duty","value":75,"unit":"%"}
    ]}]"#;
    let status = parse_status_response(raw).expect("should parse");
    assert_eq!(status.pump.speed_rpm, 2000);
}

#[test]
fn malformed_json_yields_parse_error() {
    match parse_status_response("not json at all") {
        Err(Error::Parse) => {}
        other => panic!("expected Error::Parse, got {other:?}"),
    }
}

#[test]
fn split_fan_key_extracts_index_and_suffix() {
    assert_eq!(split_fan_key("1 speed"), Some((1, "speed")));
    assert_eq!(split_fan_key("12 duty"), Some((12, "duty")));
}

#[test]
fn split_fan_key_rejects_zero_and_malformed() {
    assert_eq!(split_fan_key("0 speed"), None);
    assert_eq!(split_fan_key("abc speed"), None);
    assert_eq!(split_fan_key("1"), None);
    assert_eq!(split_fan_key(""), None);
}

// ── further cases of this library's own ─────────────────────────────────

#[test]
fn split_fan_key_follows_integer_parsing() {
    assert_eq!(split_fan_key("+3 duty"), Some((3, "duty")));
    assert_eq!(split_fan_key("007 speed"), Some((7, "speed")));
    assert_eq!(split_fan_key("256 speed"), None);
    assert_eq!(split_fan_key("255 speed now"), Some((255, "speed now")));
    assert_eq!(split_fan_key("-1 speed"), None);
    assert_eq!(split_fan_key(" speed"), None);
}

fn entry(key: &str, rpm: u32, pct: u8) -> StatusEntry {
    StatusEntry {
        key: key.to_string(),
        value: Some(ClampedValue { rpm, pct }),
    }
}

#[test]
fn later_entries_overwrite_earlier_ones() {
    let devices = vec![DeviceEntry {
        description: "X".to_string(),
        status: vec![
            entry("Liquid temperature", 30, 30),
            entry("Pump speed", 1000, 100),
            entry("Pump duty", 40, 40),
            entry("Liquid temperature", 31, 31),
            entry("Pump speed", 1200, 100),
            StatusEntry {
                key: "Pump duty".to_string(),
                value: None,
            },
            entry("Fan 2 speed", 900, 100),
            entry("Fan 2 duty", 35, 35),
            entry("Fan 2 mode", 1, 1),
        ],
    }];
    let d = decode_status(&devices).expect("decodes");
    assert_eq!(d.device, 0);
    assert_eq!(d.liquid_temp_entry, 3);
    assert_eq!(d.pump.speed_rpm, 1200);
    assert_eq!(d.pump.duty_pct, 40);
    assert_eq!(d.fans.len(), 1);
    assert_eq!((d.fans[0].index, d.fans[0].speed_rpm, d.fans[0].duty_pct), (2, 900, 35));
}

#[test]
fn entries_without_a_number_do_not_count() {
    let devices = vec![DeviceEntry {
        description: "X".to_string(),
        status: vec![
            StatusEntry {
                key: "Liquid temperature".to_string(),
                value: None,
            },
            entry("Pump speed", 1000, 100),
            entry("Pump duty", 40, 40),
        ],
    }];
    assert_eq!(
        decode_status(&devices).err(),
        Some(StatusError::MissingField("liquid temperature"))
    );
}

#[test]
fn non_numeric_value_is_skipped_not_a_parse_error() {
    let raw = r#"[{"bus": "hid", "address": "/dev/hidraw1", "description": "Corsair Hydro H150i Pro XT", "status": [{"key": "Liquid temperature", "value": 31.5, "unit": "°C"}, {"key": "Firmware version", "value": "1.2.3", "unit": ""}, {"key": "Fan 1 speed", "value": "n/a", "unit": "rpm"}, {"key": "Fan 1 duty", "value": 40, "unit": "%"}, {"key": "Fan 2 speed", "value": 900, "unit": "rpm"}, {"key": "Fan 2 duty", "value": null, "unit": "%"}, {"key": "Fan 3 speed", "value": 1100, "unit": "rpm"}, {"key": "Fan 3 duty", "value": 45, "unit": "%"}, {"key": "Pump speed", "value": 2334, "unit": "rpm"}, {"key": "Pump duty", "value": 75, "unit": "%"}]}]"#;
    let status = parse_status_response(raw).expect("non-numeric values are skipped");
    assert!((status.liquid_temp_c - 31.5).abs() < 1e-9);
    assert_eq!(status.fans.len(), 1);
    assert_eq!(status.fans[0].index, 3);
    assert_eq!(status.fans[0].speed_rpm, 1100);
    assert_eq!(status.fans[0].duty_pct, 45);
}

#[test]
fn non_numeric_liquid_temperature_is_missing() {
    let raw = r#"[{"bus": "hid", "address": "/dev/hidraw1", "description": "X", "status": [{"key": "Liquid temperature", "value": "hot", "unit": "°C"}, {"key": "Pump speed", "value": 2334, "unit": "rpm"}, {"key": "Pump duty", "value": 75, "unit": "%"}]}]"#;
    match parse_status_response(raw) {
        Err(Error::Decode(StatusError::MissingField("liquid temperature"))) => {}
        other => panic!("expected Error::MissingField(\"liquid temperature\"), got {other:?}"),
    }
}

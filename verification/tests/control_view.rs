use liquidmon::control::{ApplyStatus, Capability, ControlMode, Preset, PumpMode, Settings, effective_curve};
use liquidmon::control_view::{
    age_phrase, body_for, mode_caption, mode_entries, mode_selected_index, read_only_caption,
    footer, relative_age,
    status_text, writes_phrase, Body,
};
use std::time::{Duration, Instant};

fn settings(mode: ControlMode) -> Settings {
    Settings {
        mode,
        preset: match mode {
            ControlMode::Preset(preset) => preset,
            _ => Preset::Balanced,
        },
        manual_fan_duty: 50,
        manual_pump_mode: PumpMode::Balanced,
        auto_reapply: true,
    }
}

const READ_ONLY_CAPTION: &str =
    "No verified liquidctl write path for this device — LiquidMon only reads it.";

#[test]
fn mode_entries_are_in_menu_order() {
    let labels: Vec<&str> = mode_entries().into_iter().map(|(label, _)| label).collect();
    assert_eq!(
        labels,
        vec![
            "Unmanaged",
            "Silent",
            "Balanced",
            "Performance",
            "Max",
            "Manual"
        ],
    );
}

#[test]
fn mode_selected_index_finds_the_active_preset() {
    assert_eq!(
        mode_selected_index(ControlMode::Preset(Preset::Performance)),
        Some(3),
    );
    assert_eq!(mode_selected_index(ControlMode::Unmanaged), Some(0));
    assert_eq!(mode_selected_index(ControlMode::Manual), Some(5));
}

#[test]
fn body_per_mode_picks_curve_caption_or_manual_controls() {
    assert_eq!(body_for(ControlMode::Unmanaged), Body::Unmanaged);
    assert_eq!(
        body_for(ControlMode::Preset(Preset::Balanced)),
        Body::Curve(Preset::Balanced),
    );
    // Max is a flat fixed duty, not a curve — caption only.
    assert_eq!(body_for(ControlMode::Preset(Preset::Max)), Body::Fixed);
    assert_eq!(body_for(ControlMode::Manual), Body::Manual);
}

#[test]
fn unsupported_device_renders_a_read_only_caption() {
    assert_eq!(
        read_only_caption(Capability::ReadOnly),
        Some(READ_ONLY_CAPTION),
    );
    assert_eq!(read_only_caption(Capability::FanDutyAndPumpMode), None);
}

#[test]
fn curve_preset_caption_names_point_count_and_pump_mode() {
    let caption = mode_caption(&settings(ControlMode::Preset(Preset::Balanced)))
        .expect("a curve preset has a caption");
    let points = effective_curve(Preset::Balanced)
        .expect("Balanced is a curve preset")
        .len();
    assert!(
        caption.starts_with(&format!("{points} points written into the cooler")),
        "got {caption:?}",
    );
    assert!(caption.ends_with("Pump: balanced."), "got {caption:?}");
}

#[test]
fn manual_mode_has_no_dropdown_caption() {
    assert_eq!(mode_caption(&settings(ControlMode::Manual)), None);
}

#[test]
fn status_text_is_absent_until_the_first_write() {
    assert_eq!(status_text(&ApplyStatus::Never, Instant::now()), None);
}

#[test]
fn status_text_uses_singular_for_one_write() {
    let now = Instant::now();
    let status = ApplyStatus::Applied { at: now, writes: 1 };
    assert_eq!(
        status_text(&status, now).as_deref(),
        Some("Written just now · 1 write this session"),
    );
}

#[test]
fn status_text_pluralizes_and_ages_the_timestamp() {
    let at = Instant::now();
    let now = at + Duration::from_secs(4 * 60 + 30);
    let status = ApplyStatus::Applied { at, writes: 3 };
    assert_eq!(
        status_text(&status, now).as_deref(),
        Some("Written 4 min ago · 3 writes this session"),
    );
}

#[test]
fn status_text_surfaces_the_stderr_tail_of_a_failure() {
    let status = ApplyStatus::Failed {
        stderr: "liquidctl: no device matches the given filters".to_string(),
        writes: 2,
    };
    assert_eq!(
        status_text(&status, Instant::now()).as_deref(),
        Some("error: liquidctl: no device matches the given filters"),
    );
}

// ── further cases of this library's own ─────────────────────────────────

#[test]
fn fixed_and_unmanaged_captions() {
    assert_eq!(
        mode_caption(&settings(ControlMode::Preset(Preset::Max))).as_deref(),
        Some("Fans pinned at 100%, pump on extreme. No curve — the cooler holds this until you change it."),
    );
    assert_eq!(
        mode_caption(&settings(ControlMode::Unmanaged)).as_deref(),
        Some("Not writing to this cooler. The readouts above are whatever it is already running — set by BIOS, another tool, or its own defaults."),
    );
    assert_eq!(
        mode_caption(&settings(ControlMode::Preset(Preset::Silent))).as_deref(),
        Some("6 points written into the cooler. It keeps following them with LiquidMon closed. Pump: quiet."),
    );
}

#[test]
fn age_and_write_count_phrases() {
    assert_eq!(age_phrase(59), "just now");
    assert_eq!(age_phrase(60), "1 min ago");
    assert_eq!(age_phrase(3599), "59 min ago");
    assert_eq!(age_phrase(3600), "1 h ago");
    assert_eq!(age_phrase(7 * 3600 + 5), "7 h ago");
    assert_eq!(writes_phrase(0), "0 writes this session");
    assert_eq!(writes_phrase(1), "1 write this session");
    assert_eq!(writes_phrase(12), "12 writes this session");
}

#[test]
fn status_text_measures_hours() {
    let at = Instant::now();
    let now = at + Duration::from_secs(2 * 3600 + 1);
    let status = ApplyStatus::Applied { at, writes: 2 };
    assert_eq!(
        status_text(&status, now).as_deref(),
        Some("Written 2 h ago · 2 writes this session"),
    );
}

#[test]
fn relative_age_reads_the_duration() {
    assert_eq!(relative_age(Duration::from_millis(59_999)), "just now");
    assert_eq!(relative_age(Duration::from_secs(125)), "2 min ago");
    assert_eq!(relative_age(Duration::from_secs(3 * 3600 + 59)), "3 h ago");
}

#[test]
fn status_text_saturates_a_timestamp_after_now() {
    let now = Instant::now();
    let at = now + Duration::from_secs(600);
    let status = ApplyStatus::Applied { at, writes: 1 };
    assert_eq!(
        status_text(&status, now).as_deref(),
        Some("Written just now · 1 write this session"),
    );
}

#[test]
fn footer_is_empty_when_unmanaged_or_read_only() {
    let status = ApplyStatus::Applied { at: Instant::now(), writes: 1 };
    let unmanaged = footer(
        Capability::FanDutyAndPumpMode,
        ControlMode::Unmanaged,
        false,
        &status,
        Instant::now(),
    );
    assert!(!unmanaged.policy_row);
    assert_eq!(unmanaged.status_line, None);
    let read_only = footer(
        Capability::ReadOnly,
        ControlMode::Preset(Preset::Balanced),
        true,
        &status,
        Instant::now(),
    );
    assert!(!read_only.policy_row);
    assert_eq!(read_only.status_line, None);
}

#[test]
fn footer_shows_applying_while_a_write_runs() {
    let f = footer(
        Capability::FanDutyAndPumpMode,
        ControlMode::Manual,
        true,
        &ApplyStatus::Failed { stderr: "busy".to_string(), writes: 1 },
        Instant::now(),
    );
    assert!(f.policy_row);
    assert_eq!(f.status_line.as_deref(), Some("Applying…"));
}

#[test]
fn footer_shows_the_last_apply_otherwise() {
    let at = Instant::now();
    let now = at + Duration::from_secs(4 * 60);
    let status = ApplyStatus::Applied { at, writes: 3 };
    let f = footer(
        Capability::FanDutyAndPumpMode,
        ControlMode::Preset(Preset::Silent),
        false,
        &status,
        now,
    );
    assert!(f.policy_row);
    assert_eq!(f.status_line.as_deref(), Some("Written 4 min ago · 3 writes this session"));
    let never = footer(
        Capability::FanDutyAndPumpMode,
        ControlMode::Manual,
        false,
        &ApplyStatus::Never,
        now,
    );
    assert!(never.policy_row);
    assert_eq!(never.status_line, None);
}

//! What the popup's cooling-control section says: the mode menu's labels
//! and order, which body each mode renders, the caption under the menu,
//! and the apply-status line.

use crate::control::{
    ApplyStatus, Capability, ControlMode, Preset, Settings, MAX_FAN_DUTY, effective_curve,
    curve_points, spec_effective_curve,
};
use crate::text::{decimal, push_decimal};
use std::time::{Duration, Instant};
use vstd::prelude::*;
use vstd::string::StringExecFns;

verus! {

/// Which body the section renders under the dropdown.
#[derive(Debug, Clone, Copy, PartialEq, Eq, Structural)]
pub enum Body {
    /// Not writing: one explanatory caption.
    Unmanaged,
    /// A device-side curve: preview canvas plus its marker labels.
    Curve(Preset),
    /// A preset with no curve (`Max`): caption only.
    Fixed,
    /// Manual: fan slider and pump segments.
    Manual,
}

pub open spec fn unmanaged_caption() -> Seq<char> {
    "Not writing to this cooler. The readouts above are whatever it is already running — set by BIOS, another tool, or its own defaults."@
}

pub open spec fn read_only_caption_text() -> Seq<char> {
    "No verified liquidctl write path for this device — LiquidMon only reads it."@
}

/// Caption that replaces every control when the device's family has no
/// verified write path. `None` when the device is controllable.
pub fn read_only_caption(capability: Capability) -> (r: Option<&'static str>)
    ensures
        capability == Capability::ReadOnly ==> (r matches Some(s) && s@ == read_only_caption_text()),
        capability == Capability::FanDutyAndPumpMode ==> r is None,
{
    match capability {
        Capability::ReadOnly => Some(
            "No verified liquidctl write path for this device — LiquidMon only reads it.",
        ),
        Capability::FanDutyAndPumpMode => None,
    }
}

/// The menu label of a mode.
pub open spec fn spec_mode_label(mode: ControlMode) -> Seq<char> {
    match mode {
        ControlMode::Unmanaged => "Unmanaged"@,
        ControlMode::Preset(Preset::Silent) => "Silent"@,
        ControlMode::Preset(Preset::Balanced) => "Balanced"@,
        ControlMode::Preset(Preset::Performance) => "Performance"@,
        ControlMode::Preset(Preset::Max) => "Max"@,
        ControlMode::Manual => "Manual"@,
    }
}

/// Label for one dropdown entry.
pub fn mode_label(mode: ControlMode) -> (r: &'static str)
    ensures
        r@ == spec_mode_label(mode),
{
    match mode {
        ControlMode::Unmanaged => "Unmanaged",
        ControlMode::Preset(Preset::Silent) => "Silent",
        ControlMode::Preset(Preset::Balanced) => "Balanced",
        ControlMode::Preset(Preset::Performance) => "Performance",
        ControlMode::Preset(Preset::Max) => "Max",
        ControlMode::Manual => "Manual",
    }
}

/// The six menu modes, in menu order.
pub open spec fn menu_modes() -> Seq<ControlMode> {
    seq![
        ControlMode::Unmanaged,
        ControlMode::Preset(Preset::Silent),
        ControlMode::Preset(Preset::Balanced),
        ControlMode::Preset(Preset::Performance),
        ControlMode::Preset(Preset::Max),
        ControlMode::Manual,
    ]
}

/// The dropdown entries as `(label, mode)` pairs, in menu order.
pub fn mode_entries() -> (r: Vec<(&'static str, ControlMode)>)
    ensures
        r@.len() == 6,
        forall|i: int|
            0 <= i < 6 ==> (#[trigger] r@[i]).1 == menu_modes()[i] && r@[i].0@ == spec_mode_label(
                menu_modes()[i],
            ),
{
    let modes: Vec<ControlMode> = vec![
        ControlMode::Unmanaged,
        ControlMode::Preset(Preset::Silent),
        ControlMode::Preset(Preset::Balanced),
        ControlMode::Preset(Preset::Performance),
        ControlMode::Preset(Preset::Max),
        ControlMode::Manual,
    ];
    assert(modes@ =~= menu_modes());
    let mut r: Vec<(&'static str, ControlMode)> = Vec::new();
    for i in 0..6
        invariant
            modes@ == menu_modes(),
            r@.len() == i,
            forall|j: int|
                0 <= j < i ==> (#[trigger] r@[j]).1 == menu_modes()[j] && r@[j].0@
                    == spec_mode_label(menu_modes()[j]),
    {
        let m = modes[i];
        r.push((mode_label(m), m));
    }
    r
}

/// Index of the active mode in the dropdown.
pub fn mode_selected_index(mode: ControlMode) -> (r: Option<usize>)
    ensures
        r matches Some(i) && i < 6 && menu_modes()[i as int] == mode,
{
    let r: usize = match mode {
        ControlMode::Unmanaged => 0,
        ControlMode::Preset(Preset::Silent) => 1,
        ControlMode::Preset(Preset::Balanced) => 2,
        ControlMode::Preset(Preset::Performance) => 3,
        ControlMode::Preset(Preset::Max) => 4,
        ControlMode::Manual => 5,
    };
    Some(r)
}

/// The body a mode renders: whether a preset draws a curve is read from the
/// preset table itself.
pub open spec fn spec_body_for(mode: ControlMode) -> Body {
    match mode {
        ControlMode::Unmanaged => Body::Unmanaged,
        ControlMode::Manual => Body::Manual,
        ControlMode::Preset(preset) => match preset.spec_curve() {
            Some(_) => Body::Curve(preset),
            None => Body::Fixed,
        },
    }
}

/// Body the section renders for `mode`. Whether a preset draws a curve is
/// read from the preset table itself, so the two can never disagree.
pub fn body_for(mode: ControlMode) -> (r: Body)
    ensures
        r == spec_body_for(mode),
{
    match mode {
        ControlMode::Unmanaged => Body::Unmanaged,
        ControlMode::Manual => Body::Manual,
        ControlMode::Preset(preset) => match curve_points(preset) {
            Some(_) => Body::Curve(preset),
            None => Body::Fixed,
        },
    }
}

/// The caption under the dropdown for a setting.
pub open spec fn spec_mode_caption(settings: Settings) -> Option<Seq<char>> {
    match spec_body_for(settings.mode) {
        Body::Unmanaged => Some(unmanaged_caption()),
        Body::Curve(preset) => Some(
            decimal(spec_effective_curve(preset).unwrap().len())
                + " points written into the cooler. It keeps following them with LiquidMon closed. Pump: "@
                + settings.spec_resolve().unwrap().1.spec_arg() + "."@,
        ),
        Body::Fixed => Some(
            "Fans pinned at "@ + decimal(MAX_FAN_DUTY as nat) + "%, pump on "@
                + settings.spec_resolve().unwrap().1.spec_arg()
                + ". No curve — the cooler holds this until you change it."@,
        ),
        Body::Manual => None,
    }
}

fn owned(s: &str) -> (r: String)
    ensures
        r@ == s@,
{
    s.to_owned()
}

/// Caption under the dropdown describing what the selected mode does. `None`
/// for Manual, whose body carries its own two captions.
pub fn mode_caption(settings: &Settings) -> (r: Option<String>)
    ensures
        r is Some == spec_mode_caption(*settings) is Some,
        r matches Some(s) ==> s@ == spec_mode_caption(*settings).unwrap(),
{
    let pump = match settings.resolve() {
        Some((_, pump)) => Some(pump),
        None => None,
    };
    match body_for(settings.mode) {
        Body::Unmanaged => Some(
            owned(
                "Not writing to this cooler. The readouts above are whatever it is already running — set by BIOS, another tool, or its own defaults.",
            ),
        ),
        Body::Curve(preset) => {
            let points = effective_curve(preset)?;
            let pump = pump?;
            let mut s = String::new();
            push_decimal(&mut s, points.len() as u64);
            s.append(
                " points written into the cooler. It keeps following them with LiquidMon closed. Pump: ",
            );
            s.append(pump.as_arg());
            s.append(".");
            Some(s)
        },
        Body::Fixed => {
            let pump = pump?;
            let mut s = owned("Fans pinned at ");
            push_decimal(&mut s, MAX_FAN_DUTY as u64);
            s.append("%, pump on ");
            s.append(pump.as_arg());
            s.append(". No curve — the cooler holds this until you change it.");
            Some(s)
        },
        Body::Manual => None,
    }
}

/// How long ago a write happened, given its age in whole seconds.
pub open spec fn spec_age_phrase(secs: u64) -> Seq<char> {
    if secs < 60 {
        "just now"@
    } else if secs < 3600 {
        decimal((secs / 60) as nat) + " min ago"@
    } else {
        decimal((secs / 3600) as nat) + " h ago"@
    }
}

/// Age of the last write in whole seconds, rendered relative: "just now"
/// under a minute, then whole minutes, then whole hours.
pub fn age_phrase(secs: u64) -> (r: String)
    ensures
        r@ == spec_age_phrase(secs),
{
    if secs < 60 {
        owned("just now")
    } else if secs < 3600 {
        let mut s = String::new();
        push_decimal(&mut s, secs / 60);
        s.append(" min ago");
        s
    } else {
        let mut s = String::new();
        push_decimal(&mut s, secs / 3600);
        s.append(" h ago");
        s
    }
}

/// Whole seconds of a `Duration`, as `Duration::as_secs` gives them.
pub uninterp spec fn duration_secs(d: Duration) -> u64;

/// Span from `earlier` to `now`, as `Instant::saturating_duration_since`
/// gives it (zero where `earlier` is the later of the two).
pub uninterp spec fn instant_gap(now: Instant, earlier: Instant) -> Duration;

/// Calls `Duration::as_secs`: the result is the duration's whole seconds,
/// which a `Duration` (opaque here) determines alone.
#[verifier::external_body]
fn whole_seconds(d: &Duration) -> (r: u64)
    ensures
        r == duration_secs(*d),
{
    d.as_secs()
}

/// Calls `Instant::saturating_duration_since`: the result is the span from
/// `earlier` to `now`, which the two instants (opaque here) determine alone;
/// it saturates at zero rather than panicking.
#[verifier::external_body]
fn duration_between(now: &Instant, earlier: &Instant) -> (r: Duration)
    ensures
        r == instant_gap(*now, *earlier),
{
    now.saturating_duration_since(*earlier)
}

/// Age of the last write, rendered relative rather than as a wall clock:
/// the phrase for the duration's whole seconds.
pub fn relative_age(elapsed: Duration) -> (r: String)
    ensures
        r@ == spec_age_phrase(duration_secs(elapsed)),
{
    age_phrase(whole_seconds(&elapsed))
}

/// `1 write this session` / `n writes this session`.
pub open spec fn spec_writes_phrase(writes: u32) -> Seq<char> {
    if writes == 1 {
        "1 write this session"@
    } else {
        decimal(writes as nat) + " writes this session"@
    }
}

/// `1 write this session` / `n writes this session`. The count is always
/// shown: the status line doubles as a receipt for the write policy.
pub fn writes_phrase(writes: u32) -> (r: String)
    ensures
        r@ == spec_writes_phrase(writes),
{
    if writes == 1 {
        owned("1 write this session")
    } else {
        let mut s = String::new();
        push_decimal(&mut s, writes as u64);
        s.append(" writes this session");
        s
    }
}

/// What the apply-status line says, as text: nothing before the first
/// write, the age and session count after a successful one, the error text
/// after a failed one.
pub open spec fn spec_status_text(status: ApplyStatus, now: Instant) -> Option<Seq<char>> {
    match status {
        ApplyStatus::Never => None,
        ApplyStatus::Applied { at, writes } => Some(
            "Written "@ + spec_age_phrase(duration_secs(instant_gap(now, at))) + " · "@
                + spec_writes_phrase(writes),
        ),
        ApplyStatus::Failed { stderr, .. } => Some("error: "@ + stderr@),
    }
}

/// An optional string as an optional character sequence.
pub open spec fn text_view(r: Option<String>) -> Option<Seq<char>> {
    match r {
        Some(s) => Some(s@),
        None => None,
    }
}

/// Text of the apply-status line, or `None` for `ApplyStatus::Never` — a
/// section that has never written shows no line at all. The age of a
/// successful write is measured from `at` to `now`.
pub fn status_text(status: &ApplyStatus, now: Instant) -> (r: Option<String>)
    ensures
        text_view(r) == spec_status_text(*status, now),
{
    match status {
        ApplyStatus::Never => None,
        ApplyStatus::Applied { at, writes } => {
            let secs = whole_seconds(&duration_between(&now, at));
            let mut s = owned("Written ");
            s.append(age_phrase(secs).as_str());
            s.append(" · ");
            s.append(writes_phrase(*writes).as_str());
            Some(s)
        },
        ApplyStatus::Failed { stderr, .. } => {
            let mut s = owned("error: ");
            s.append(stderr.as_str());
            Some(s)
        },
    }
}

/// What closes the cooling-control section, after the mode caption.
pub struct Footer {
    /// Whether the re-apply toggle and the "Apply now" button are shown.
    pub policy_row: bool,
    /// The status line under that row, if any.
    pub status_line: Option<String>,
}

/// The section's closing rows: none for a read-only device (its caption
/// replaces every control) or in `Unmanaged`, which writes nothing; else the
/// write-policy row, then "Applying…" while an apply runs, or the last
/// apply's status line.
pub open spec fn spec_footer(
    capability: Capability,
    mode: ControlMode,
    apply_in_flight: bool,
    status: ApplyStatus,
    now: Instant,
) -> (bool, Option<Seq<char>>) {
    if capability == Capability::ReadOnly || mode == ControlMode::Unmanaged {
        (false, None)
    } else if apply_in_flight {
        (true, Some("Applying…"@))
    } else {
        (true, spec_status_text(status, now))
    }
}

/// Which rows close the cooling-control section, and the status line's
/// text.
pub fn footer(
    capability: Capability,
    mode: ControlMode,
    apply_in_flight: bool,
    status: &ApplyStatus,
    now: Instant,
) -> (r: Footer)
    ensures
        (r.policy_row, text_view(r.status_line)) == spec_footer(
            capability,
            mode,
            apply_in_flight,
            *status,
            now,
        ),
{
    let unmanaged = match mode {
        ControlMode::Unmanaged => true,
        _ => false,
    };
    let read_only = match capability {
        Capability::ReadOnly => true,
        Capability::FanDutyAndPumpMode => false,
    };
    if read_only || unmanaged {
        Footer { policy_row: false, status_line: None }
    } else if apply_in_flight {
        Footer { policy_row: true, status_line: Some(owned("Applying…")) }
    } else {
        Footer { policy_row: true, status_line: status_text(status, now) }
    }
}

} // verus!

//! Cooling-control model: presets, manual settings, per-family capability
//! lookup, and the pure `liquidctl` argv builders that apply them.

use crate::liquidctl::Fan;
use crate::text::{
    all_digits, ascii_lowercase, chars_of, contains, contains_exec, decimal, decimal_string,
    find_char, first_index_of, is_digit, lemma_decimal_digits, lemma_parse_decimal, lower,
    parse_bounded, parse_bounded_exec, push_decimal, str_eq, trim, trim_str,
};
use std::collections::hash_map::DefaultHasher;
use std::hash::Hasher;
use std::time::Instant;
use vstd::prelude::*;
use vstd::std_specs::hash::DefaultHasherAdditionalSpecFns;
use vstd::string::{StrSliceExecFns, StringExecFns};

verus! {

/// Lowest fan duty the UI will request. The driver accepts 0, but most
/// 120/140 mm fans stall below ~20% and a stalled fan reads as a fault.
pub const MIN_FAN_DUTY: u8 = 20;

pub const MAX_FAN_DUTY: u8 = 100;

/// liquidctl's `normalize_profile` appends this point to every curve it
/// sends, so a preset curve of at most 6 points always fits the 7-point
/// device limit. `apply_steps` never sends it explicitly.
pub const CURVE_FAILSAFE: (u8, u8) = (60, 100);

/// Control capability of the driver behind a device description.
#[derive(Debug, Clone, Copy, PartialEq, Eq, Structural)]
pub enum Capability {
    /// `hydro_platinum`: all-fan duty + curve, pump mode only.
    FanDutyAndPumpMode,
    /// No verified write path — controls render read-only.
    ReadOnly,
}

/// The capability a description maps to: controllable exactly when its
/// ASCII-lowercased form contains "platinum", "pro xt" or "elite rgb".
pub open spec fn spec_capability(description: Seq<char>) -> Capability {
    let d = lower(description);
    if contains(d, "platinum"@) || contains(d, "pro xt"@) || contains(d, "elite rgb"@) {
        Capability::FanDutyAndPumpMode
    } else {
        Capability::ReadOnly
    }
}

/// Classify a liquidctl device description, case-insensitively. Three
/// ordered substring rules — "platinum", "pro xt", "elite rgb" — which
/// together cover every `hydro_platinum` description in liquidctl 1.15.0
/// and exclude `asetek_pro`'s plain "Hydro H150i Pro".
pub fn capability(description: &str) -> (r: Capability)
    ensures
        r == spec_capability(description@),
{
    let d = ascii_lowercase(description);
    if contains_exec(&d, &chars_of("platinum")) || contains_exec(&d, &chars_of("pro xt"))
        || contains_exec(&d, &chars_of("elite rgb")) {
        Capability::FanDutyAndPumpMode
    } else {
        Capability::ReadOnly
    }
}

/// What LiquidMon is currently driving the cooler with.
#[derive(Debug, Clone, Copy, PartialEq, Eq, Structural)]
pub enum ControlMode {
    /// LiquidMon never writes to the device (default, and what every
    /// existing install upgrades into).
    Unmanaged,
    /// The payload carries the preset itself, so `resolve()` never has to
    /// consult `Settings.preset`.
    Preset(Preset),
    Manual,
}

impl Default for ControlMode {
    fn default() -> (r: Self)
        ensures
            r == ControlMode::Unmanaged,
    {
        ControlMode::Unmanaged
    }
}

/// A named device-side fan curve plus pump mode.
#[derive(Debug, Clone, Copy, PartialEq, Eq, Structural)]
pub enum Preset {
    Silent,
    Balanced,
    Performance,
    Max,
}

impl Default for Preset {
    fn default() -> (r: Self)
        ensures
            r == Preset::Balanced,
    {
        Preset::Balanced
    }
}

/// Curve points are `(liquid °C, fan duty %)`, each already monotonic and
/// at most 6 points so `_prepare_profile` can append the failsafe without
/// overflowing the device's 7-point limit.
pub const SILENT_CURVE: [(u8, u8); 5] = [(25, 20), (30, 25), (35, 35), (40, 50), (45, 75)];

pub const BALANCED_CURVE: [(u8, u8); 5] = [(25, 25), (30, 35), (35, 50), (40, 70), (45, 90)];

pub const PERFORMANCE_CURVE: [(u8, u8); 5] = [(25, 40), (30, 55), (35, 70), (40, 85), (45, 100)];

impl Preset {
    /// The preset table's curve, or `None` for `Max`.
    pub open spec fn spec_curve(self) -> Option<Seq<(u8, u8)>> {
        match self {
            Preset::Silent => Some(seq![(25u8, 20u8), (30, 25), (35, 35), (40, 50), (45, 75)]),
            Preset::Balanced => Some(seq![(25u8, 25u8), (30, 35), (35, 50), (40, 70), (45, 90)]),
            Preset::Performance => Some(
                seq![(25u8, 40u8), (30, 55), (35, 70), (40, 85), (45, 100)],
            ),
            Preset::Max => None,
        }
    }

    /// The preset's curve, or `None` for `Max`, which drives the fan at a
    /// fixed duty instead of a curve.
    pub fn curve(self) -> (r: Option<&'static [(u8, u8)]>)
        ensures
            r is Some == self.spec_curve() is Some,
            r matches Some(points) ==> points@ == self.spec_curve().unwrap(),
    {
        match self {
            Preset::Silent => Some(&SILENT_CURVE),
            Preset::Balanced => Some(&BALANCED_CURVE),
            Preset::Performance => Some(&PERFORMANCE_CURVE),
            Preset::Max => None,
        }
    }

    /// The pump mode the preset table bundles with this preset.
    pub open spec fn spec_pump_mode(self) -> PumpMode {
        match self {
            Preset::Silent => PumpMode::Quiet,
            Preset::Balanced => PumpMode::Balanced,
            Preset::Performance | Preset::Max => PumpMode::Extreme,
        }
    }
}

/// Pump mode bundled with each preset, per the preset table.
pub fn preset_pump_mode(preset: Preset) -> (r: PumpMode)
    ensures
        r == preset.spec_pump_mode(),
{
    match preset {
        Preset::Silent => PumpMode::Quiet,
        Preset::Balanced => PumpMode::Balanced,
        Preset::Performance | Preset::Max => PumpMode::Extreme,
    }
}

/// Pump speed setting. `hydro_platinum` exposes no pump duty write, so these
/// three firmware modes are the whole pump control surface on this family.
#[derive(Debug, Clone, Copy, PartialEq, Eq, Structural)]
pub enum PumpMode {
    Quiet,
    Balanced,
    Extreme,
}

impl Default for PumpMode {
    fn default() -> (r: Self)
        ensures
            r == PumpMode::Balanced,
    {
        PumpMode::Balanced
    }
}

impl PumpMode {
    /// The `--pump-mode` argument for this mode.
    pub open spec fn spec_arg(self) -> Seq<char> {
        match self {
            PumpMode::Quiet => "quiet"@,
            PumpMode::Balanced => "balanced"@,
            PumpMode::Extreme => "extreme"@,
        }
    }

    /// The `initialize --pump-mode <arg>` value for this mode.
    pub fn as_arg(self) -> (r: &'static str)
        ensures
            r@ == self.spec_arg(),
    {
        match self {
            PumpMode::Quiet => "quiet",
            PumpMode::Balanced => "balanced",
            PumpMode::Extreme => "extreme",
        }
    }
}

/// The full desired device state. Held in `AppModel`, rebuilt from `Config`.
#[derive(Debug, Clone, PartialEq, Eq, Structural)]
pub struct Settings {
    pub mode: ControlMode,
    /// Last preset chosen, retained across a Manual/Unmanaged detour so the
    /// UI can restore it. `resolve()` reads the payload out of `mode`, never
    /// this field.
    pub preset: Preset,
    pub manual_fan_duty: u8,
    pub manual_pump_mode: PumpMode,
    /// Whether LiquidMon may write on its own when it observes the cooler
    /// has lost the setting. Never permits more than one write per run.
    pub auto_reapply: bool,
}

/// What the fan channel is driven with, as mathematical values.
pub enum FanTarget {
    Fixed(u8),
    Curve(Seq<(u8, u8)>),
}

/// `duty` clamped into `[MIN_FAN_DUTY, MAX_FAN_DUTY]`.
pub open spec fn clamp_duty(duty: u8) -> u8 {
    if duty < MIN_FAN_DUTY {
        MIN_FAN_DUTY
    } else if duty > MAX_FAN_DUTY {
        MAX_FAN_DUTY
    } else {
        duty
    }
}

impl Settings {
    /// The (fan target, pump mode) pair the settings resolve to, or `None`
    /// when the mode is `Unmanaged`.
    pub open spec fn spec_resolve(self) -> Option<(FanTarget, PumpMode)> {
        match self.mode {
            ControlMode::Unmanaged => None,
            ControlMode::Preset(preset) => match preset.spec_curve() {
                Some(points) => Some((FanTarget::Curve(points), preset.spec_pump_mode())),
                None => Some((FanTarget::Fixed(MAX_FAN_DUTY), preset.spec_pump_mode())),
            },
            ControlMode::Manual => Some(
                (FanTarget::Fixed(clamp_duty(self.manual_fan_duty)), self.manual_pump_mode),
            ),
        }
    }

    /// Resolve to the concrete (fan action, pump mode) pair to send, or
    /// `None` when the mode is `Unmanaged`. `manual_fan_duty` is clamped to
    /// `[MIN_FAN_DUTY, MAX_FAN_DUTY]` here, so an out-of-range persisted
    /// config can never reach the device.
    pub fn resolve(&self) -> (r: Option<(FanAction, PumpMode)>)
        ensures
            resolved_view(r) == self.spec_resolve(),
    {
        match self.mode {
            ControlMode::Unmanaged => None,
            ControlMode::Preset(preset) => {
                let pump = preset_pump_mode(preset);
                match preset.curve() {
                    Some(points) => Some((FanAction::Curve(points), pump)),
                    // Only `Max` has no curve: the intent is a flat wall, and
                    // the fixed-duty path is the one the driver models directly.
                    None => Some((FanAction::Fixed(MAX_FAN_DUTY), pump)),
                }
            },
            ControlMode::Manual => {
                let d = self.manual_fan_duty;
                let duty = if d < MIN_FAN_DUTY {
                    MIN_FAN_DUTY
                } else if d > MAX_FAN_DUTY {
                    MAX_FAN_DUTY
                } else {
                    d
                };
                Some((FanAction::Fixed(duty), self.manual_pump_mode))
            },
        }
    }

    /// Stable fingerprint of everything that reaches the device. Written to
    /// the per-boot marker so a restart within the same boot can skip the
    /// divergence check entirely. Excludes `auto_reapply`, which changes no
    /// device state.
    ///
    /// Hashed through `std::hash::DefaultHasher`, whose output is explicitly
    /// not stable across Rust releases — fine here, since the marker lives
    /// in tmpfs for one boot. The writes are those `Hash` makes for a tag
    /// byte, the duty or the curve slice, and the pump mode's `&str`. The
    /// slice's length prefix is a `usize` in the machine's byte order: this
    /// is `fingerprint_in_order` for the order `native_big_endian` reads off
    /// the machine, which is one of the two.
    pub fn fingerprint(&self) -> (r: u64)
        ensures
            r == spec_fingerprint(*self, false) || r == spec_fingerprint(*self, true),
    {
        self.fingerprint_in_order(native_big_endian())
    }

    /// The fingerprint as a machine of the given byte order computes it:
    /// the hasher's result over `fingerprint_writes` for what `self`
    /// resolves to, the curve's length written in that order.
    pub fn fingerprint_in_order(&self, big_endian: bool) -> (r: u64)
        ensures
            r == spec_fingerprint(*self, big_endian),
    {
        let mut hasher = DefaultHasher::new();
        let ghost big = big_endian;
        let resolved = self.resolve();
        if let Some((fan_action, pump_mode)) = resolved {
            match fan_action {
                FanAction::Fixed(duty) => {
                    write_byte(&mut hasher, 0u8);
                    write_byte(&mut hasher, duty);
                    assert(hasher@ =~= seq![seq![0u8], seq![duty]]);
                },
                FanAction::Curve(points) => {
                    write_byte(&mut hasher, 1u8);
                    let prefix = encode_length(points.len(), big_endian);
                    hasher.write(prefix.as_slice());
                    assert(hasher@ =~= seq![seq![1u8], length_bytes(points@.len() as nat, big)]
                        + point_writes(points@.take(0)));
                    for i in 0..points.len()
                        invariant
                            hasher@ == seq![seq![1u8], length_bytes(points@.len() as nat, big)]
                                + point_writes(points@.take(i as int)),
                    {
                        let (t, d) = points[i];
                        write_byte(&mut hasher, t);
                        write_byte(&mut hasher, d);
                        assert(points@.take(i + 1).drop_last() =~= points@.take(i as int));
                        assert(hasher@ =~= seq![seq![1u8], length_bytes(points@.len() as nat, big)]
                            + point_writes(points@.take(i + 1)));
                    }
                    assert(points@.take(points@.len() as int) =~= points@);
                },
            }
            let ghost before = hasher@;
            let arg = ascii_bytes_of(pump_mode.as_arg());
            hasher.write(arg.as_slice());
            write_byte(&mut hasher, 0xffu8);
            assert(hasher@ =~= before + seq![ascii_bytes(pump_mode.spec_arg()), seq![0xffu8]]);
            assert(hasher@ =~= fingerprint_writes(self.spec_resolve(), big));
        } else {
            assert(hasher@ =~= fingerprint_writes(self.spec_resolve(), big));
        }
        hasher.finish()
    }
}

/// Writes one byte, as `u8::hash` does.
fn write_byte(hasher: &mut DefaultHasher, b: u8)
    ensures
        final(hasher)@ == old(hasher)@.push(seq![b]),
{
    let one: Vec<u8> = vec![b];
    hasher.write(one.as_slice());
    assert(one@ =~= seq![b]);
}

/// `256^i`.
pub open spec fn pow256(i: int) -> nat
    decreases i,
{
    if i <= 0 {
        1
    } else {
        256 * pow256(i - 1)
    }
}

/// The `usize::BITS / 8` bytes of `n`, least significant first, or most
/// significant first when `big`: a `usize` in either byte order.
pub open spec fn length_bytes(n: nat, big: bool) -> Seq<u8> {
    let le = Seq::new((usize::BITS / 8) as nat, |i: int| ((n / pow256(i)) % 256) as u8);
    if big {
        le.reverse()
    } else {
        le
    }
}

/// Calls `usize::to_ne_bytes`: the `usize::BITS / 8` bytes of `n` in the
/// machine's byte order, which is what hashing a `usize` writes. Which of
/// the two orders that is depends on the machine, so only that it is one of
/// them is stated.
#[verifier::external_body]
fn native_length_bytes(n: usize) -> (r: Vec<u8>)
    ensures
        r@ == length_bytes(n as nat, false) || r@ == length_bytes(n as nat, true),
{
    n.to_ne_bytes().to_vec()
}

proof fn lemma_pow256_pos(i: int)
    ensures
        pow256(i) > 0,
        i >= 1 ==> pow256(i) >= 256,
    decreases i,
{
    if i > 0 {
        lemma_pow256_pos(i - 1);
    }
}

proof fn lemma_div_div(n: nat, a: nat, b: nat)
    requires
        a > 0,
        b > 0,
    ensures
        (n / a) / b == n / (b * a),
{
    vstd::arithmetic::div_mod::lemma_div_denominator(n as int, a as int, b as int);
    vstd::arithmetic::mul::lemma_mul_is_commutative(a as int, b as int);
}

/// Whether this machine stores a `usize` most significant byte first: read
/// off the first byte of `1usize` in native order, which is `1` in
/// little-endian order and `0` in big-endian order.
fn native_big_endian() -> (r: bool)
{
    let probe = native_length_bytes(1);
    let ghost w = (usize::BITS / 8) as int;
    proof {
        assert(usize::BITS == 32 || usize::BITS == 64);
        assert(probe@.len() == w);
        assert(pow256(0) == 1);
        assert(length_bytes(1, false)[0] == 1);
        assert(length_bytes(1, true)[0] == length_bytes(1, false)[w - 1]);
        let p = pow256(w - 1);
        lemma_pow256_pos(w - 1);
        assert(1nat / p == 0) by (nonlinear_arith)
            requires
                p >= 256,
        ;
        assert(length_bytes(1, true)[0] == 0);
    }
    let r = probe[0] != 1;
    assert(probe@ == length_bytes(1, r));
    r
}

/// `n` as a `usize` in the given byte order.
fn encode_length(n: usize, big_endian: bool) -> (r: Vec<u8>)
    ensures
        r@ == length_bytes(n as nat, big_endian),
{
    let w: usize = (usize::BITS / 8) as usize;
    let ghost le_spec = length_bytes(n as nat, false);
    let mut le: Vec<u8> = Vec::new();
    let mut rest: usize = n;
    assert(pow256(0) == 1);
    for i in 0..w
        invariant
            w == le_spec.len(),
            le_spec == length_bytes(n as nat, false),
            le@ == le_spec.take(i as int),
            rest as nat == (n as nat) / pow256(i as int),
    {
        let b = (rest % 256) as u8;
        proof {
            assert(pow256(i + 1) == 256 * pow256(i as int));
            lemma_pow256_pos(i as int);
            lemma_div_div(n as nat, pow256(i as int), 256);
        }
        le.push(b);
        rest = rest / 256;
        assert(le@ =~= le_spec.take(i + 1));
    }
    assert(le_spec.take(w as int) =~= le_spec);
    if !big_endian {
        return le;
    }
    let mut be: Vec<u8> = Vec::new();
    for i in 0..w
        invariant
            w == le@.len(),
            be@ == le@.reverse().take(i as int),
    {
        be.push(le[w - 1 - i]);
        assert(be@ =~= le@.reverse().take(i + 1));
    }
    assert(le@.reverse().take(w as int) =~= le@.reverse());
    be
}

/// The ASCII code units of a string, one byte per character.
pub open spec fn ascii_bytes(s: Seq<char>) -> Seq<u8> {
    Seq::new(s.len(), |i: int| s[i] as u8)
}

fn ascii_bytes_of(s: &str) -> (r: Vec<u8>)
    ensures
        r@ == ascii_bytes(s@),
{
    let cs = chars_of(s);
    let mut r: Vec<u8> = Vec::new();
    for i in 0..cs.len()
        invariant
            cs@ == s@,
            r@ == ascii_bytes(s@).take(i as int),
    {
        r.push(cs[i] as u8);
        assert(r@ =~= ascii_bytes(s@).take(i + 1));
    }
    assert(ascii_bytes(s@).take(cs.len() as int) =~= ascii_bytes(s@));
    r
}

/// The writes `u8`-pair hashing makes for each curve point, in order.
pub open spec fn point_writes(points: Seq<(u8, u8)>) -> Seq<Seq<u8>>
    decreases points.len(),
{
    if points.len() == 0 {
        Seq::empty()
    } else {
        point_writes(points.drop_last()) + seq![seq![points.last().0], seq![points.last().1]]
    }
}

/// The sequence of hasher writes `fingerprint` makes for a resolved setting
/// on a machine of the given byte order: nothing when unmanaged; otherwise
/// a tag byte, the fan payload, the pump mode's argument bytes and the
/// `0xff` string terminator.
pub open spec fn fingerprint_writes(r: Option<(FanTarget, PumpMode)>, big: bool) -> Seq<Seq<u8>> {
    match r {
        None => Seq::empty(),
        Some((target, pump)) => {
            let fan = match target {
                FanTarget::Fixed(duty) => seq![seq![0u8], seq![duty]],
                FanTarget::Curve(points) => seq![seq![1u8], length_bytes(points.len(), big)]
                    + point_writes(points),
            };
            fan + seq![ascii_bytes(pump.spec_arg()), seq![0xffu8]]
        },
    }
}

/// What to write to the `fan` channel: a flat duty, or a device-side curve
/// of `(liquid °C, duty %)` points the cooler keeps following on its own.
#[derive(Debug, Clone, Copy, PartialEq, Eq)]
pub enum FanAction {
    Fixed(u8),
    Curve(&'static [(u8, u8)]),
}

impl FanAction {
    /// The fan action as a mathematical value.
    pub open spec fn target(self) -> FanTarget {
        match self {
            FanAction::Fixed(d) => FanTarget::Fixed(d),
            FanAction::Curve(points) => FanTarget::Curve(points@),
        }
    }
}

/// A resolved pair with its fan action viewed as a `FanTarget`.
pub open spec fn resolved_view(r: Option<(FanAction, PumpMode)>) -> Option<(FanTarget, PumpMode)> {
    match r {
        Some((a, p)) => Some((a.target(), p)),
        None => None,
    }
}

/// Why an apply is being dispatched. Only `User` bypasses the per-run
/// budget and the marker fast path.
#[derive(Debug, Clone, Copy, PartialEq, Eq, Structural)]
pub enum ApplyTrigger {
    User,
    Divergence,
}


/// `Instant`, carried opaquely through `ApplyStatus`.
#[verifier::external_type_specification]
#[verifier::external_body]
pub struct ExInstant(Instant);

/// `Instant`'s `Clone`, which `ApplyStatus`'s derived `Clone` calls.
/// `Instant` is `Copy` and derives `Clone`, so the clone is the value itself.
pub assume_specification[ <Instant as Clone>::clone ](i: &Instant) -> (r: Instant)
    ensures
        r == *i,
;

/// What the status line under the controls says. Carries the session write
/// count so the line doubles as a receipt for the write policy.
#[derive(Debug, Clone)]
pub enum ApplyStatus {
    Never,
    Applied { at: Instant, writes: u32 },
    Failed { stderr: String, writes: u32 },
}

impl Default for ApplyStatus {
    fn default() -> (r: Self)
        ensures
            r is Never,
    {
        ApplyStatus::Never
    }
}

/// The preset's points exactly as `apply_steps` sends them (no failsafe).
pub fn curve_points(preset: Preset) -> (r: Option<&'static [(u8, u8)]>)
    ensures
        r is Some == preset.spec_curve() is Some,
        r matches Some(points) ==> points@ == preset.spec_curve().unwrap(),
{
    preset.curve()
}

/// The curve as the device runs it: the preset's points followed by
/// `CURVE_FAILSAFE`, or `None` for a preset without a curve.
pub open spec fn spec_effective_curve(preset: Preset) -> Option<Seq<(u8, u8)>> {
    match preset.spec_curve() {
        Some(points) => Some(points.push(CURVE_FAILSAFE)),
        None => None,
    }
}

/// The curve as the DEVICE runs it: `curve_points` plus `CURVE_FAILSAFE`.
/// Prediction and the UI preview both use this so they cannot disagree with
/// what liquidctl actually programmed.
pub fn effective_curve(preset: Preset) -> (r: Option<Vec<(u8, u8)>>)
    ensures
        r is Some == spec_effective_curve(preset) is Some,
        r matches Some(curve) ==> curve@ == spec_effective_curve(preset).unwrap(),
{
    let points = curve_points(preset)?;
    let mut curve: Vec<(u8, u8)> = Vec::new();
    for i in 0..points.len()
        invariant
            curve@ == points@.take(i as int),
    {
        curve.push(points[i]);
        assert(curve@ =~= points@.take(i + 1));
    }
    assert(points@.take(points@.len() as int) =~= points@);
    curve.push(CURVE_FAILSAFE);
    Some(curve)
}

/// The decimal arguments a curve is sent as: temperature then duty, point
/// by point.
pub open spec fn curve_args(points: Seq<(u8, u8)>) -> Seq<Seq<char>>
    decreases points.len(),
{
    if points.len() == 0 {
        Seq::empty()
    } else {
        curve_args(points.drop_last()) + seq![
            decimal(points.last().0 as nat),
            decimal(points.last().1 as nat),
        ]
    }
}

/// The arguments after `speed` for a fan target.
pub open spec fn fan_args(target: FanTarget) -> Seq<Seq<char>> {
    match target {
        FanTarget::Fixed(duty) => seq![decimal(duty as nat)],
        FanTarget::Curve(points) => curve_args(points),
    }
}

/// The fan write: `--match <m> set fan speed <args>`.
pub open spec fn fan_step(match_str: Seq<char>, target: FanTarget) -> Seq<Seq<char>> {
    seq!["--match"@, match_str, "set"@, "fan"@, "speed"@] + fan_args(target)
}

/// The pump write: `--match <m> initialize --pump-mode <mode>`.
pub open spec fn pump_step(match_str: Seq<char>, pump: PumpMode) -> Seq<Seq<char>> {
    seq!["--match"@, match_str, "initialize"@, "--pump-mode"@, pump.spec_arg()]
}

/// The argv lists one apply runs, fans first and pump second, or `None`
/// for an uncontrollable device or an unmanaged setting.
pub open spec fn spec_apply_steps(match_str: Seq<char>, settings: Settings, cap: Capability) -> Option<
    Seq<Seq<Seq<char>>>,
> {
    if cap != Capability::FanDutyAndPumpMode {
        None
    } else {
        match settings.spec_resolve() {
            None => None,
            Some((target, pump)) => Some(
                seq![fan_step(match_str, target), pump_step(match_str, pump)],
            ),
        }
    }
}

fn owned(s: &str) -> (r: String)
    ensures
        r@ == s@,
{
    s.to_owned()
}

/// Build the ordered argv lists for one apply. Fans first, pump second —
/// see "payload-clobber trap": a per-fan write after a fresh boot would
/// slam every other fan to 100%, so `fan` (not `fanN`) is the only channel
/// ever written, and pump mode is only settable via the `initialize` call
/// that re-sends the whole payload after it. Returns `None` for
/// `Unmanaged` or an uncontrollable device.
pub fn apply_steps(match_str: &str, settings: &Settings, cap: Capability) -> (r: Option<
    Vec<Vec<String>>,
>)
    ensures
        r is Some == spec_apply_steps(match_str@, *settings, cap) is Some,
        r matches Some(steps) ==> steps.deep_view() == spec_apply_steps(
            match_str@,
            *settings,
            cap,
        ).unwrap(),
{
    if cap != Capability::FanDutyAndPumpMode {
        return None;
    }
    let (fan_action, pump_mode) = settings.resolve()?;

    let mut fan_step_v: Vec<String> = Vec::new();
    fan_step_v.push(owned("--match"));
    fan_step_v.push(owned(match_str));
    fan_step_v.push(owned("set"));
    fan_step_v.push(owned("fan"));
    fan_step_v.push(owned("speed"));
    let ghost head = seq!["--match"@, match_str@, "set"@, "fan"@, "speed"@];
    assert(fan_step_v.deep_view() =~= head);
    match fan_action {
        FanAction::Fixed(duty) => {
            fan_step_v.push(decimal_string(duty as u64));
            assert(fan_step_v.deep_view() =~= head + fan_args(fan_action.target()));
        },
        FanAction::Curve(points) => {
            assert(curve_args(points@.take(0)) =~= Seq::<Seq<char>>::empty());
            for i in 0..points.len()
                invariant
                    fan_step_v.deep_view() =~= head + curve_args(points@.take(i as int)),
            {
                let (temp, duty) = points[i];
                let ghost prev = fan_step_v.deep_view();
                let ts = decimal_string(temp as u64);
                let ds = decimal_string(duty as u64);
                fan_step_v.push(ts);
                fan_step_v.push(ds);
                assert(fan_step_v.deep_view() =~= prev.push(ts@).push(ds@));
                assert(points@.take(i + 1).drop_last() =~= points@.take(i as int));
                assert(points@.take(i + 1).last() == (temp, duty));
                assert(curve_args(points@.take(i + 1)) == curve_args(points@.take(i as int))
                    + seq![decimal(temp as nat), decimal(duty as nat)]);
                assert(fan_step_v.deep_view() =~= head + curve_args(points@.take(i + 1)));
            }
            assert(points@.take(points@.len() as int) =~= points@);
        },
    }

    let mut pump_step_v: Vec<String> = Vec::new();
    pump_step_v.push(owned("--match"));
    pump_step_v.push(owned(match_str));
    pump_step_v.push(owned("initialize"));
    pump_step_v.push(owned("--pump-mode"));
    pump_step_v.push(owned(pump_mode.as_arg()));
    assert(pump_step_v.deep_view() =~= pump_step(match_str@, pump_mode));

    let mut steps: Vec<Vec<String>> = Vec::new();
    steps.push(fan_step_v);
    steps.push(pump_step_v);
    assert(steps.deep_view() =~= spec_apply_steps(match_str@, *settings, cap).unwrap());
    Some(steps)
}


/// The fingerprint of a setting on a machine of the given byte order: the
/// hasher's result over the writes `fingerprint_writes` lists for what the
/// setting resolves to.
pub open spec fn spec_fingerprint(settings: Settings, big: bool) -> u64 {
    DefaultHasher::spec_finish(fingerprint_writes(settings.spec_resolve(), big))
}

/// The per-boot marker text: the device description, a newline, and the
/// fingerprint in decimal.
pub open spec fn spec_marker_contents(description: Seq<char>, fingerprint: u64) -> Seq<char> {
    description + "\n"@ + decimal(fingerprint as nat)
}

/// Whether marker text records `description` and `fingerprint`: the text
/// before the first newline is the description, and the rest, trimmed,
/// parses as the fingerprint.
pub open spec fn spec_marker_matches(contents: Seq<char>, description: Seq<char>, fingerprint: u64) -> bool {
    exists|k: int|
        #![trigger first_index_of(contents, '\n', k)]
        first_index_of(contents, '\n', k) && contents.take(k) == description && parse_bounded(
            trim(contents.skip(k + 1)),
            u64::MAX as nat,
        ) == Some(fingerprint as nat)
}

/// The text `write_marker` records for a successful apply to
/// `description` of the settings whose fingerprint is `fingerprint`.
pub fn marker_text(description: &str, fingerprint: u64) -> (r: String)
    ensures
        r@ == spec_marker_contents(description@, fingerprint),
{
    let mut r = owned(description);
    r.append("\n");
    push_decimal(&mut r, fingerprint);
    r
}

/// True when marker text says this boot already applied the settings whose
/// fingerprint is `fingerprint` to `description`. Anything that does not
/// parse is no match.
pub fn marker_text_matches(contents: &str, description: &str, fingerprint: u64) -> (r: bool)
    ensures
        r == spec_marker_matches(contents@, description@, fingerprint),
{
    let cs = chars_of(contents);
    let k = match find_char(&cs, '\n') {
        Some(k) => k,
        None => {
            assert forall|k: int| !first_index_of(contents@, '\n', k) by {}
            return false;
        },
    };
    assert(first_index_of(cs@, '\n', k as int));
    assert(k < cs.len());
    let marked_description = contents.substring_char(0, k);
    let marked_fingerprint = contents.substring_char(k + 1, cs.len());
    assert(contents@.subrange(0, k as int) =~= contents@.take(k as int));
    assert(contents@.subrange(k + 1, cs.len() as int) =~= contents@.skip(k + 1));
    let parsed = parse_bounded_exec(trim_str(marked_fingerprint), u64::MAX);
    let r = match parsed {
        Some(v) => str_eq(marked_description, description) && v == fingerprint,
        None => false,
    };
    proof {
        assert forall|j: int| first_index_of(contents@, '\n', j) implies j == k by {
            if j < k {
                assert(contents@[j] != '\n');
            }
            if j > k {
                assert(contents@[k as int] != '\n');
            }
        }
        if r {
            assert(first_index_of(contents@, '\n', k as int));
        }
    }
    r
}


/// `duty` is more than 2 percentage points away from `target`.
pub open spec fn off_target(duty: u8, target: u8) -> bool {
    duty > target + 2 || target > duty + 2
}

/// Whether a sample of fans contradicts a fixed duty: every reported fan
/// is more than 2 points off it. (Duty is the firmware's commanded value,
/// round-tripped through a `/255` byte, hence the slack.)
pub fn fixed_duty_diverges(fans: &[Fan], target: u8) -> (r: bool)
    ensures
        r == forall|i: int| 0 <= i < fans@.len() ==> off_target(#[trigger] fans@[i].duty_pct, target),
{
    for i in 0..fans.len()
        invariant
            forall|j: int| 0 <= j < i ==> off_target(#[trigger] fans@[j].duty_pct, target),
    {
        let d = fans[i].duty_pct;
        let off = if d > target {
            d - target > 2
        } else {
            target - d > 2
        };
        if !off {
            return false;
        }
    }
    true
}

/// Every reported fan is more than 2 points off `target`.
pub open spec fn all_off_target(fans: Seq<Fan>, target: u8) -> bool {
    forall|i: int| 0 <= i < fans.len() ==> off_target(#[trigger] fans[i].duty_pct, target)
}

/// How a status sample is held against the active setting.
#[derive(Debug, Clone, Copy, PartialEq, Eq, Structural)]
pub enum Divergence {
    /// A fixed duty, settled on the integer duties: whether every fan is off it.
    Fixed(bool),
    /// A curve: the fans' mean duty is to be compared with the curve's duty
    /// at the liquid temperature, 6 points of slack.
    Curve,
}

/// The comparison a sample calls for: none without fans or when
/// `Unmanaged` (nothing to compare), the fixed-duty verdict, or a curve
/// comparison still to make.
pub open spec fn spec_divergence(settings: Settings, fans: Seq<Fan>) -> Option<Divergence> {
    if fans.len() == 0 {
        None
    } else {
        match settings.spec_resolve() {
            None => None,
            Some((FanTarget::Fixed(target), _)) => Some(
                Divergence::Fixed(all_off_target(fans, target)),
            ),
            Some((FanTarget::Curve(_), _)) => Some(Divergence::Curve),
        }
    }
}

/// Classifies one status sample against the active setting. Requiring two
/// consecutive diverging samples before acting is the caller's job.
pub fn divergence(settings: &Settings, fans: &[Fan]) -> (r: Option<Divergence>)
    ensures
        r == spec_divergence(*settings, fans@),
{
    if fans.len() == 0 {
        return None;
    }
    match settings.resolve() {
        None => None,
        Some((FanAction::Fixed(target), _)) => Some(
            Divergence::Fixed(fixed_duty_diverges(fans, target)),
        ),
        Some((FanAction::Curve(_), _)) => Some(Divergence::Curve),
    }
}

/// A curve the device accepts as sent: temperatures strictly increasing,
/// duty never decreasing, every duty within `[lo, MAX_FAN_DUTY]`.
pub open spec fn valid_curve(points: Seq<(u8, u8)>, lo: u8) -> bool {
    &&& forall|i: int, j: int| 0 <= i < j < points.len() ==> points[i].0 < points[j].0
    &&& forall|i: int, j: int| 0 <= i < j < points.len() ==> points[i].1 <= points[j].1
    &&& forall|i: int| 0 <= i < points.len() ==> lo <= #[trigger] points[i].1 <= MAX_FAN_DUTY
}

/// Every preset curve has at most 6 points, strictly increasing
/// temperatures, non-decreasing duty and duties within
/// `[MIN_FAN_DUTY, MAX_FAN_DUTY]`; with the failsafe appended it still is a
/// valid curve and fits the device's 7-point limit.
pub proof fn lemma_preset_curves_valid(preset: Preset)
    requires
        preset.spec_curve() is Some,
    ensures
        preset.spec_curve().unwrap().len() <= 6,
        valid_curve(preset.spec_curve().unwrap(), MIN_FAN_DUTY),
        spec_effective_curve(preset).unwrap().len() <= 7,
        valid_curve(spec_effective_curve(preset).unwrap(), MIN_FAN_DUTY),
{
    let p = preset.spec_curve().unwrap();
    let e = spec_effective_curve(preset).unwrap();
    assert(e.last() == CURVE_FAILSAFE);
    assert(forall|i: int| 0 <= i < e.len() - 1 ==> #[trigger] e[i] == p[i]);
}

/// The presets are ordered by loudness: Silent, Balanced and Performance
/// share their temperature points, and at every one of them Silent asks for
/// less duty than Balanced, which asks for less than Performance; Max has no
/// curve and runs every fan flat out. Each curve is its named table.
pub proof fn lemma_presets_ordered_by_loudness(settings: Settings)
    ensures
        Preset::Silent.spec_curve() is Some,
        Preset::Balanced.spec_curve() is Some,
        Preset::Performance.spec_curve() is Some,
        ({
            let silent = Preset::Silent.spec_curve().unwrap();
            let balanced = Preset::Balanced.spec_curve().unwrap();
            let performance = Preset::Performance.spec_curve().unwrap();
            &&& silent.len() == balanced.len()
            &&& balanced.len() == performance.len()
            &&& forall|i: int|
                0 <= i < silent.len() ==> (#[trigger] silent[i]).0 == balanced[i].0 && balanced[i].0
                    == performance[i].0
            &&& forall|i: int|
                0 <= i < silent.len() ==> (#[trigger] silent[i]).1 < balanced[i].1 && balanced[i].1
                    < performance[i].1
        }),
        Preset::Silent.spec_curve() == Some(SILENT_CURVE@),
        Preset::Balanced.spec_curve() == Some(BALANCED_CURVE@),
        Preset::Performance.spec_curve() == Some(PERFORMANCE_CURVE@),
        Preset::Max.spec_curve() is None,
        settings.mode == ControlMode::Preset(Preset::Max) ==> (settings.spec_resolve() matches Some(
            (FanTarget::Fixed(d), _),
        ) && d == MAX_FAN_DUTY),
{
}

/// A fan counts as off a fixed target exactly when its duty lies more than
/// 2 points from it, above or below: the verdict depends only on the
/// distance, so it is the same either way round.
pub proof fn lemma_off_target_is_distance(duty: u8, target: u8)
    ensures
        off_target(duty, target) <==> (if duty >= target {
            duty - target
        } else {
            target - duty
        }) > 2,
        off_target(duty, target) == off_target(target, duty),
        duty as int >= target as int + 3 ==> off_target(duty, target),
        target as int >= duty as int + 3 ==> off_target(duty, target),
{
}

/// A fixed-duty sample diverges exactly when every reported fan is more
/// than 2 points from the target, whichever side it is on: fans all running
/// 3 or more points above the target diverge as surely as fans below it.
pub proof fn lemma_fixed_divergence_is_distance(settings: Settings, fans: Seq<Fan>)
    requires
        fans.len() > 0,
        settings.spec_resolve() matches Some((FanTarget::Fixed(_), _)),
    ensures
        ({
            let target = settings.spec_resolve()->Some_0.0->Fixed_0;
            spec_divergence(settings, fans) == Some(
                Divergence::Fixed(
                    forall|i: int|
                        0 <= i < fans.len() ==> (if (#[trigger] fans[i]).duty_pct >= target {
                            fans[i].duty_pct - target
                        } else {
                            target - fans[i].duty_pct
                        }) > 2,
                ),
            )
        }),
{
    let target = settings.spec_resolve()->Some_0.0->Fixed_0;
    assert forall|i: int| 0 <= i < fans.len() implies off_target(#[trigger] fans[i].duty_pct, target)
        == ((if fans[i].duty_pct >= target {
        fans[i].duty_pct - target
    } else {
        target - fans[i].duty_pct
    }) > 2) by {
        lemma_off_target_is_distance(fans[i].duty_pct, target);
    }
}

/// A description is controllable exactly when, read case-insensitively, it
/// names one of the three `hydro_platinum` family markers: "platinum",
/// "pro xt" or "elite rgb". Every other description is read-only, and the
/// case of the description never matters.
pub proof fn lemma_capability_by_family_markers(description: Seq<char>)
    ensures
        spec_capability(description) == Capability::FanDutyAndPumpMode <==> (contains(
            lower(description),
            "platinum"@,
        ) || contains(lower(description), "pro xt"@) || contains(lower(description), "elite rgb"@)),
        spec_capability(description) == Capability::ReadOnly <==> !(contains(
            lower(description),
            "platinum"@,
        ) || contains(lower(description), "pro xt"@) || contains(lower(description), "elite rgb"@)),
        spec_capability(lower(description)) == spec_capability(description),
{
    assert(lower(lower(description)) =~= lower(description));
}

/// Every fan duty a setting resolves to lies within
/// `[MIN_FAN_DUTY, MAX_FAN_DUTY]`, whatever `manual_fan_duty` holds.
pub proof fn lemma_resolved_duty_in_range(settings: Settings)
    ensures
        settings.spec_resolve() matches Some((FanTarget::Fixed(d), _)) ==> MIN_FAN_DUTY <= d
            <= MAX_FAN_DUTY,
        settings.spec_resolve() matches Some((FanTarget::Curve(points), _)) ==> valid_curve(
            points,
            MIN_FAN_DUTY,
        ),
{
    if let ControlMode::Preset(p) = settings.mode {
        if p.spec_curve() is Some {
            lemma_preset_curves_valid(p);
        }
    }
}

/// No apply is built for an unmanaged setting, and none for a device
/// without a verified write path.
pub proof fn lemma_no_apply_when_unmanaged_or_read_only(
    match_str: Seq<char>,
    settings: Settings,
    cap: Capability,
)
    requires
        settings.mode == ControlMode::Unmanaged || cap == Capability::ReadOnly,
    ensures
        spec_apply_steps(match_str, settings, cap) is None,
{
}

/// An apply is two steps: first the all-fans `fan` channel write, then the
/// `initialize --pump-mode` call that carries the pump mode.
pub proof fn lemma_apply_writes_fans_then_pump(
    match_str: Seq<char>,
    settings: Settings,
    cap: Capability,
)
    requires
        spec_apply_steps(match_str, settings, cap) is Some,
    ensures
        ({
            let steps = spec_apply_steps(match_str, settings, cap).unwrap();
            &&& steps.len() == 2
            &&& steps[0].len() >= 6
            &&& steps[0][2] == "set"@
            &&& steps[0][3] == "fan"@
            &&& steps[1] == seq![
                "--match"@,
                match_str,
                "initialize"@,
                "--pump-mode"@,
                settings.spec_resolve().unwrap().1.spec_arg(),
            ]
        }),
{
    let (target, pump) = settings.spec_resolve().unwrap();
    if let FanTarget::Curve(points) = target {
        lemma_curve_args_len(points);
        lemma_preset_curves_valid(settings.mode->Preset_0);
    }
}

proof fn lemma_curve_args_len(points: Seq<(u8, u8)>)
    ensures
        curve_args(points).len() == 2 * points.len(),
        forall|k: int| 0 <= k < curve_args(points).len() ==> all_digits(#[trigger] curve_args(points)[k]),
    decreases points.len(),
{
    if points.len() > 0 {
        lemma_curve_args_len(points.drop_last());
        lemma_decimal_digits(points.last().0 as nat);
        lemma_decimal_digits(points.last().1 as nat);
        let prev = curve_args(points.drop_last());
        let all = curve_args(points);
        assert forall|k: int| 0 <= k < all.len() implies all_digits(#[trigger] all[k]) by {
            if k < prev.len() {
                assert(all[k] == prev[k]);
            }
        }
    }
}

/// No step of any apply passes `--non-volatile`: apart from the match string
/// the caller supplies right after `--match`, every argument is a fixed word
/// or a decimal number.
pub proof fn lemma_apply_never_non_volatile(match_str: Seq<char>, settings: Settings, cap: Capability)
    requires
        spec_apply_steps(match_str, settings, cap) is Some,
    ensures
        forall|i: int, j: int|
            #![trigger spec_apply_steps(match_str, settings, cap).unwrap()[i][j]]
            0 <= i < 2 && 0 <= j < spec_apply_steps(match_str, settings, cap).unwrap()[i].len()
                && j != 1 ==> spec_apply_steps(match_str, settings, cap).unwrap()[i][j]
                != "--non-volatile"@,
{
    reveal_strlit("--non-volatile");
    reveal_strlit("--match");
    reveal_strlit("set");
    reveal_strlit("fan");
    reveal_strlit("speed");
    reveal_strlit("initialize");
    reveal_strlit("--pump-mode");
    reveal_strlit("quiet");
    reveal_strlit("balanced");
    reveal_strlit("extreme");
    let steps = spec_apply_steps(match_str, settings, cap).unwrap();
    let (target, pump) = settings.spec_resolve().unwrap();
    let nv = "--non-volatile"@;
    assert(nv.len() == 14);
    assert(!is_digit(nv[0]));
    match target {
        FanTarget::Fixed(d) => {
            lemma_decimal_digits(d as nat);
        },
        FanTarget::Curve(points) => {
            lemma_curve_args_len(points);
        },
    }
    assert forall|i: int, j: int| 0 <= i < 2 && 0 <= j < steps[i].len() && j != 1 implies steps[i][j]
        != nv by {
        if i == 0 && j >= 5 {
            let a = steps[i][j];
            assert(a == fan_args(target)[j - 5]);
            assert(all_digits(a));
            if a == nv {
                assert(is_digit(a[0]));
            }
        }
    }
}

/// `resolve()` reads the preset out of `mode`, never the retained
/// `preset` field, and ignores `auto_reapply`: settings that agree on the
/// mode and the manual duty and pump mode resolve alike.
pub proof fn lemma_resolve_reads_mode_not_retained_preset(a: Settings, b: Settings)
    requires
        a.mode == b.mode,
        a.manual_fan_duty == b.manual_fan_duty,
        a.manual_pump_mode == b.manual_pump_mode,
    ensures
        a.spec_resolve() == b.spec_resolve(),
        forall|big: bool| spec_fingerprint(a, big) == spec_fingerprint(b, big),
{
}

/// The fingerprint depends on nothing but what the setting resolves to:
/// two settings that send the same fan action and pump mode (for instance
/// ones that differ only in `auto_reapply`, or in the retained `preset`
/// outside Preset mode) have the same fingerprint.
pub proof fn lemma_fingerprint_determined_by_resolve(a: Settings, b: Settings)
    requires
        a.spec_resolve() == b.spec_resolve(),
    ensures
        forall|big: bool| spec_fingerprint(a, big) == spec_fingerprint(b, big),
{
}

proof fn lemma_point_writes_len(points: Seq<(u8, u8)>)
    ensures
        point_writes(points).len() == 2 * points.len(),
    decreases points.len(),
{
    if points.len() > 0 {
        lemma_point_writes_len(points.drop_last());
    }
}

proof fn lemma_point_writes_injective(p: Seq<(u8, u8)>, q: Seq<(u8, u8)>)
    requires
        point_writes(p) == point_writes(q),
    ensures
        p == q,
    decreases p.len(),
{
    lemma_point_writes_len(p);
    lemma_point_writes_len(q);
    if p.len() > 0 {
        let wp = point_writes(p);
        let wq = point_writes(q);
        let n = wp.len();
        assert(wp[n - 2] == seq![p.last().0]);
        assert(wq[n - 2] == seq![q.last().0]);
        assert(wp[n - 1] == seq![p.last().1]);
        assert(wq[n - 1] == seq![q.last().1]);
        assert(wp[n - 2][0] == wq[n - 2][0]);
        assert(wp[n - 1][0] == wq[n - 1][0]);
        assert(point_writes(p.drop_last()) =~= wp.take(n - 2));
        assert(point_writes(q.drop_last()) =~= wq.take(n - 2));
        lemma_point_writes_injective(p.drop_last(), q.drop_last());
        assert(p =~= p.drop_last().push(p.last()));
        assert(q =~= q.drop_last().push(q.last()));
    } else {
        assert(q.len() == 0);
        assert(p =~= q);
    }
}

/// The hasher input tells every resolved setting apart: settings whose
/// fingerprint writes are the same resolve to the same fan action and pump
/// mode. (Whether two different inputs can hash to the same `u64` is a
/// property of SipHash that nothing here states.)
pub proof fn lemma_fingerprint_writes_distinguish(a: Settings, b: Settings, big: bool)
    requires
        fingerprint_writes(a.spec_resolve(), big) == fingerprint_writes(b.spec_resolve(), big),
    ensures
        a.spec_resolve() == b.spec_resolve(),
{
    reveal_strlit("quiet");
    reveal_strlit("balanced");
    reveal_strlit("extreme");
    let wa = fingerprint_writes(a.spec_resolve(), big);
    let wb = fingerprint_writes(b.spec_resolve(), big);
    match (a.spec_resolve(), b.spec_resolve()) {
        (Some((ta, pa)), Some((tb, pb))) => {
            let n = wa.len();
            assert(wa[n - 2] == ascii_bytes(pa.spec_arg()));
            assert(wb[n - 2] == ascii_bytes(pb.spec_arg()));
            assert(ascii_bytes(pa.spec_arg()).len() == pa.spec_arg().len());
            assert(pa == pb);
            assert(wa[0][0] == wb[0][0]);
            match (ta, tb) {
                (FanTarget::Fixed(x), FanTarget::Fixed(y)) => {
                    assert(wa[1][0] == wb[1][0]);
                },
                (FanTarget::Curve(p), FanTarget::Curve(q)) => {
                    lemma_point_writes_len(p);
                    lemma_point_writes_len(q);
                    let m: int = 2 * p.len() as int;
                    assert(wa.subrange(2, 2 + m) =~= point_writes(p));
                    assert(wb.subrange(2, 2 + m) =~= point_writes(q));
                    lemma_point_writes_injective(p, q);
                },
                (FanTarget::Fixed(x), FanTarget::Curve(q)) => {
                    assert(wa[0] == seq![0u8]);
                    assert(wb[0] == seq![1u8]);
                },
                (FanTarget::Curve(p), FanTarget::Fixed(y)) => {
                    assert(wa[0] == seq![1u8]);
                    assert(wb[0] == seq![0u8]);
                },
            }
        },
        (Some(_), None) => {
            assert(wa.len() > 0);
        },
        (None, Some(_)) => {
            assert(wb.len() > 0);
        },
        (None, None) => {},
    }
}

/// A marker written for `description` and `fingerprint` is read back as a
/// match for exactly that pair, provided the description holds no newline
/// (the first newline ends the description).
pub proof fn lemma_marker_round_trip(description: Seq<char>, fingerprint: u64)
    requires
        forall|i: int| 0 <= i < description.len() ==> description[i] != '\n',
    ensures
        spec_marker_matches(spec_marker_contents(description, fingerprint), description, fingerprint),
{
    reveal_strlit("\n");
    let c = spec_marker_contents(description, fingerprint);
    let k = description.len() as int;
    assert(c[k] == '\n');
    assert(first_index_of(c, '\n', k));
    assert(c.take(k) =~= description);
    assert(c.skip(k + 1) =~= decimal(fingerprint as nat));
    lemma_parse_decimal(fingerprint as nat, u64::MAX as nat);
}

/// Marker text written for one (description, fingerprint) pair never
/// matches a different fingerprint, nor a different description.
pub proof fn lemma_marker_rejects_other(
    description: Seq<char>,
    fingerprint: u64,
    other_description: Seq<char>,
    other_fingerprint: u64,
)
    requires
        forall|i: int| 0 <= i < description.len() ==> description[i] != '\n',
        spec_marker_matches(
            spec_marker_contents(description, fingerprint),
            other_description,
            other_fingerprint,
        ),
    ensures
        other_description == description,
        other_fingerprint == fingerprint,
{
    reveal_strlit("\n");
    let c = spec_marker_contents(description, fingerprint);
    let k = description.len() as int;
    assert(c[k] == '\n');
    let j = choose|j: int|
        #![trigger first_index_of(c, '\n', j)]
        first_index_of(c, '\n', j) && c.take(j) == other_description && parse_bounded(
            trim(c.skip(j + 1)),
            u64::MAX as nat,
        ) == Some(other_fingerprint as nat);
    if j > k {
        assert(c[k] != '\n');
    }
    if j < k {
        assert(c[j] == description[j]);
    }
    assert(j == k);
    assert(c.take(k) =~= description);
    assert(c.skip(k + 1) =~= decimal(fingerprint as nat));
    lemma_parse_decimal(fingerprint as nat, u64::MAX as nat);
}

} // verus!

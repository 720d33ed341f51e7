//! The applet's persisted settings.

use crate::control::{ControlMode, Preset, PumpMode};
use vstd::prelude::*;

verus! {

#[derive(Debug, Clone, PartialEq, Eq)]
pub struct Config {
    pub sample_interval_ms: u64,
    /// User-selected liquidctl device description (verbatim, used as
    /// `--match` substring). `None` means auto-detect at runtime.
    pub device_match: Option<String>,
    /// Active control mode. `Unmanaged` means LiquidMon never writes.
    pub control_mode: ControlMode,
    /// Last preset chosen, retained across a Manual detour.
    pub control_preset: Preset,
    /// Last manual fan duty.
    pub manual_fan_duty: u8,
    /// Last manual pump mode. This family exposes modes, not a pump duty.
    pub manual_pump_mode: PumpMode,
    /// Allow one automatic write per applet run when the cooler is observed
    /// to have lost the setting. `false` means writes are user-initiated only.
    pub auto_reapply: bool,
}

impl Default for Config {
    /// Unmanaged by default: an upgrade from an older config version must
    /// never start writing to hardware on its own. Every other field is
    /// inert until the user picks a mode.
    fn default() -> (r: Self)
        ensures
            r.sample_interval_ms == 1500,
            r.device_match is None,
            r.control_mode == ControlMode::Unmanaged,
            r.control_preset == Preset::Balanced,
            r.manual_fan_duty == 50,
            r.manual_pump_mode == PumpMode::Balanced,
            r.auto_reapply,
    {
        Self {
            sample_interval_ms: 1500,
            device_match: None,
            control_mode: ControlMode::Unmanaged,
            control_preset: Preset::Balanced,
            manual_fan_duty: 50,
            manual_pump_mode: PumpMode::Balanced,
            auto_reapply: true,
        }
    }
}

} // verus!

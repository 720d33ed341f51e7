//! LiquidMon's verified core: the cooling-control model and the `liquidctl`
//! argv it applies, the decoding of `liquidctl` status replies, AIO device
//! classification and the device menu, and the text and bookkeeping the
//! COSMIC panel applet shows.

pub mod config;
pub mod control;
pub mod control_view;
pub mod curve;
pub mod device_menu;
pub mod devices;
pub mod equalizer;
pub mod liquidctl;
pub mod monitor;
pub mod spinner;
pub mod text;

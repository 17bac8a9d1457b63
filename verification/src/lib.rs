//! Input-capture and keybinding-profile library for flight-stick and gamepad
//! hardware.
//!
//! The crate turns raw controller events (buttons, axes, D-pad hats) into
//! canonical input strings such as `js1_button3` or `gp1_axis2_negative`,
//! debounces analog axes with a hysteresis state machine, resolves stable
//! device identities, and runs bounded-time capture sessions under three
//! delivery protocols.  A second group of modules models keybinding profiles:
//! parsing, serialising, organising and merging action maps.

pub mod axis;
pub mod classify;
pub mod device_database;
pub mod device_profiles;
pub mod hid;
pub mod identity;
pub mod keybindings;
pub mod session;
pub mod state;
pub mod text;
pub mod xml_events;

//! Decision logic of an always-on-display service for Android panels.
//!
//! Two daemons share this crate. One lights the panel when a touch gesture
//! arrives while the display is off, keeps a wake lock for as long as it is
//! lit, and dims it again after a timeout. The other writes a brightness that
//! fits the ambient light when the panel comes back on with its backlight at
//! zero.
//!
//! Nothing here touches a file, a clock or a thread. Every decision is a
//! function from plain values (what was read, what a call returned, what time
//! it is) to plain values (the next state, the writes to make). A driver
//! around the crate performs the writes and hands back what it observed.

pub mod bytes;
pub mod decimal;
pub mod dpms;
pub mod fade;
pub mod input;
pub mod laws;
pub mod lux;
pub mod nodes;
pub mod pref;
pub mod sensor;
pub mod service;
pub mod startup;
pub mod suspend;
pub mod text;
pub mod touch;
pub mod watch;

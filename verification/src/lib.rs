//! Night Light, dark-mode and panel logic of a Windows tray utility.
//!
//! The Windows registry, the display driver channel and the UI toolkit are
//! driven by the host program; this crate holds the blob formats, the
//! decisions and the state machines, each with its contract.

pub mod clock;
pub mod blob;
pub mod text;
pub mod nightlight;
pub mod preview;
pub mod flyout;
pub mod theme;
pub mod autostart;
pub mod tray;

//! MIDI: decoding, the typed device events, SysEx feedback, captures, and
//! the device layer.

pub mod capture;
pub mod device;
pub mod event;
pub mod ports;
pub mod rate;
pub mod sysex;

//! The instrument side: events for the audio thread, the ring buffers they
//! travel through, ports and buffers, timers, discovery and presets.

pub mod audio;
pub mod discovery;
pub mod events;
pub mod params;
pub mod presets;
pub mod ring;
pub mod timers;

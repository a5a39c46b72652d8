//! The application core: browsing, macro mapping, the looper and the
//! decisions of the host and control threads.

pub mod browser;
pub mod control;
pub mod host;
pub mod looper;
pub mod mapping;
pub mod messages;
pub mod player;
pub mod startup;
pub mod takeover;
pub mod watchdog;

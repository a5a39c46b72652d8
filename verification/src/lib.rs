//! Zoog: a sound browser, macro controller and phrase looper for the
//! MiniLab 3, as a verified library.

pub mod app_core;
pub mod cli;
pub mod engine;
pub mod gui;
pub mod library;
pub mod midi;
pub mod paths;
pub mod text;
pub mod time;

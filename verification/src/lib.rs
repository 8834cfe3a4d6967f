//! Verified core of the Autolon autoclicker: configuration rules, the clicker
//! state machine, the IPC protocol decisions, and the small pixel and text
//! routines used by the indicator and tray icon.

pub mod canvas;
pub mod cli;
pub mod clicker;
pub mod config;
pub mod desktop;
pub mod gui;
pub mod hotkeys;
pub mod indicator;
pub mod input;
pub mod ipc;
pub mod text;
pub mod tray;

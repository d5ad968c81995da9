//! Network testing: emulated network conditions, test configurations and
//! the emulator's per-packet decisions.

pub mod config;

pub mod models;
pub mod emulator;

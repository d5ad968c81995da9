//! Value types shared by every layer: durations, instants, timestamps,
//! network addresses, configuration and errors.

pub mod checksum;
pub mod config;
pub mod entropy;
pub mod error;
pub mod net;
pub mod text;
pub mod time;
pub mod wire;

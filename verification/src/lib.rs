//! A sans-I/O model of one remote Bluetooth Low Energy peripheral as a
//! notification-driven management daemon presents it.

pub mod handle;
pub mod peripheral;
pub mod properties;
pub mod ranges;
pub mod registry;
pub mod state;
pub mod text;
pub mod types;

//! The ADS protocol as bytes on a socket.

pub mod defs;
pub mod error;
pub mod frame;
pub mod notification;
pub mod sumup;
pub mod symbol;
pub mod client;

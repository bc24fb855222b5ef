//! Encoding of display commands for an iDotMatrix LED panel into its wire format,
//! and the split of an encoded frame into transport writes.
pub mod commands;
pub mod idm;
pub mod transport;
pub mod wire;

pub use idm::{CountdownDuration, IDMColor, IDMCommand, IDMPixel};

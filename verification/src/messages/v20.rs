//! FDO 2.0 protocol messages.

pub mod di;
pub mod to1;
pub mod to2;

//! Storage device description, NVMe health decoding, erase planning and the
//! platform rules of a cross-platform low-level format utility.

pub mod bytes;
pub mod device;
pub mod platform;
pub mod text;
pub mod ui;

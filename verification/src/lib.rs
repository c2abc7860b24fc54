//! Vendor-agnostic peripheral management: device identity, discovery
//! grouping and classification, lighting vocabulary, and the AK820 wire
//! protocol.

pub mod text;
pub mod capability;
pub mod identity;
pub mod discovery;
pub mod cli;
pub mod ak820;
pub mod error;
pub mod transport;
pub mod frames;
pub mod device;
pub mod driver;
pub mod registry;
pub mod preset;

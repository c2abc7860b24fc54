//! HID discovery: grouping raw enumeration entries into physical devices
//! and classifying them. Discovery only computes over what enumeration
//! and sysfs already reported; it never opens a device.

pub mod raw;
pub mod group;
pub mod path_map;
pub mod classify;
pub mod error;
pub mod descriptor;
pub mod pipeline;

pub use classify::Classification;
pub use error::Error;
pub use pipeline::{discover, Discovered};
pub use crate::identity::Identity;

//! The Ajazz AK820 (Pro): how to recognize it, which interface carries
//! its vendor configuration channel, and what to send it.

pub mod protocol;
pub mod driver;
pub mod plan;

pub use driver::AjazzAk820Driver;

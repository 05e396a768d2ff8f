//! Typed decoding of raw Siemens S7 register bytes, and the bridge from the
//! S7 vocabulary to the generic industrial-device vocabulary.

pub mod decode;
pub mod errors;
pub mod industrial_device;
pub mod types;

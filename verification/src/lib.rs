//! Structural arithmetic on CIDR blocks for the 32-bit and 128-bit
//! address families: summarizing a network's address-space attributes,
//! partitioning it deterministically into subnets of a requested prefix
//! length, and selecting a random sub-block inside a supernet. The engine
//! is written once against a numeric capability trait, works purely on
//! unsigned-integer values, and reports every invalid request as a typed
//! error instead of panicking.

pub mod context;
pub mod error;
pub mod ipv6;
pub mod laws;
mod math;
pub mod net;
pub mod primitive;
pub mod rng;

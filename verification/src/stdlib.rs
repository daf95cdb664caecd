//! The modules that the runtime provides from the start.

pub mod types;

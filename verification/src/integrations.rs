//! Date/time and object-id scalars backed by outside crates, exposed through
//! this crate's own plain-value types.

pub mod bson;
pub mod time;

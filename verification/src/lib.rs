//! Builds Pinterest conversion-tracking payloads from normalized analytics
//! events: consent gating, identity hashing, field validation and value
//! coercion, with the behaviour of each step stated and verified.

pub mod event;
pub mod hashing;
pub mod payload;
pub mod value;
pub mod strings;

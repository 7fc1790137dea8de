//! String helpers: first-character case mapping, splitting and byte-length truncation.
pub mod case;
pub mod split;
pub mod truncate;

//! Diagnostics utilities: a structured error record with a fluent builder,
//! together with a few small string helpers and a random identifier generator.
pub mod errorsx;
pub mod stringsx;
pub mod uuidx;

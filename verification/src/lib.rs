//! Routes structured attributes attached to nested execution spans and to
//! point-in-time events into operations on a `dipstick` metrics sink, keeping
//! hierarchical metric naming and span-lifecycle cleanup correct: timers are
//! stopped and levels decremented exactly once when a span closes.
pub mod attrs;
pub mod laws;
pub mod ops;
pub mod router;
pub mod scope;
pub mod sink;
pub mod span;
pub mod table;
pub mod text;

pub use router::DipstickLayer;
pub use scope::MetricScope;

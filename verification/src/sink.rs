//! The narrow trusted boundary to the `dipstick` metrics sink.
//!
//! Every call into `dipstick` the library makes goes through one of the
//! wrappers here. Metric and scope handles are opaque: nothing is promised
//! about them, so every property the library proves is stated over its own
//! model of names and amounts, not over the handles.
use vstd::prelude::*;
use dipstick::{InputScope, Prefixed};

verus! {

#[verifier::external_type_specification]
#[verifier::external_body]
/// The `dipstick` aggregating scope handle this library routes metrics into.
pub struct ExAtomicBucket(dipstick::AtomicBucket);

#[verifier::external_type_specification]
#[verifier::external_body]
/// A `dipstick` counter handle.
pub struct ExCounter(dipstick::Counter);

#[verifier::external_type_specification]
#[verifier::external_body]
/// A `dipstick` gauge handle.
pub struct ExGauge(dipstick::Gauge);

#[verifier::external_type_specification]
#[verifier::external_body]
/// A `dipstick` level handle.
pub struct ExLevel(dipstick::Level);

#[verifier::external_type_specification]
#[verifier::external_body]
/// A `dipstick` timer handle.
pub struct ExTimer(dipstick::Timer);

#[verifier::external_type_specification]
#[verifier::external_body]
/// A `dipstick` start-of-interval mark.
pub struct ExTimeHandle(dipstick::TimeHandle);

/// Relies on `Clone` for `dipstick::AtomicBucket`: the clone shares the same
/// underlying bucket and carries the same qualified name.
#[verifier::external_body]
pub(crate) fn bucket_clone(b: &dipstick::AtomicBucket) -> dipstick::AtomicBucket {
    b.clone()
}

/// Relies on `dipstick::Prefixed::add_name`: returns a scope whose qualified
/// name is the receiver's with `segment` appended.
#[verifier::external_body]
pub(crate) fn bucket_add_name(b: &dipstick::AtomicBucket, segment: &str) -> dipstick::AtomicBucket {
    b.add_name(segment)
}

/// Relies on `dipstick::Prefixed::named`: returns a scope whose qualified
/// name is replaced by `name`.
#[verifier::external_body]
pub(crate) fn bucket_named(b: &dipstick::AtomicBucket, name: &str) -> dipstick::AtomicBucket {
    b.named(name)
}

/// Relies on `dipstick::InputScope::counter`: yields the counter handle for
/// `metric` under the scope's qualified name.
#[verifier::external_body]
pub(crate) fn bucket_counter(b: &dipstick::AtomicBucket, metric: &str) -> dipstick::Counter {
    b.counter(metric)
}

/// Relies on `dipstick::InputScope::gauge`: yields the gauge handle for
/// `metric` under the scope's qualified name.
#[verifier::external_body]
pub(crate) fn bucket_gauge(b: &dipstick::AtomicBucket, metric: &str) -> dipstick::Gauge {
    b.gauge(metric)
}

/// Relies on `dipstick::InputScope::level`: yields the level handle for
/// `metric` under the scope's qualified name.
#[verifier::external_body]
pub(crate) fn bucket_level(b: &dipstick::AtomicBucket, metric: &str) -> dipstick::Level {
    b.level(metric)
}

/// Relies on `dipstick::InputScope::timer`: yields the timer handle for
/// `metric` under the scope's qualified name.
#[verifier::external_body]
pub(crate) fn bucket_timer(b: &dipstick::AtomicBucket, metric: &str) -> dipstick::Timer {
    b.timer(metric)
}

/// Relies on `dipstick::Counter::count`, which takes an unsigned amount:
/// a negative amount wraps, the accepted imprecision of the signed-to-
/// unsigned coercion.
#[verifier::external_body]
pub(crate) fn counter_count(c: &dipstick::Counter, amount: i64) {
    c.count(amount as usize)
}

/// Relies on `dipstick::Gauge::value`: records `amount` as the gauge's
/// current value.
#[verifier::external_body]
pub(crate) fn gauge_value(g: &dipstick::Gauge, amount: i64) {
    g.value(amount as isize)
}

/// Relies on `dipstick::Level::adjust`: shifts the level by the signed
/// `amount`.
#[verifier::external_body]
pub(crate) fn level_adjust(l: &dipstick::Level, amount: i64) {
    l.adjust(amount as isize)
}

/// Relies on `dipstick::Timer::start`: records the current instant as the
/// interval's start mark.
#[verifier::external_body]
pub(crate) fn timer_start(t: &dipstick::Timer) -> dipstick::TimeHandle {
    t.start()
}

/// Relies on `dipstick::Timer::stop`: records the microseconds elapsed since
/// `start` under the timer's metric name.
#[verifier::external_body]
pub(crate) fn timer_stop(t: &dipstick::Timer, start: dipstick::TimeHandle) {
    t.stop(start)
}

} // verus!

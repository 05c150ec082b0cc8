//! The trusted boundary to the `dipstick` metrics registry.
//!
//! Each wrapper here makes exactly one `dipstick` call; its contract states
//! only what that crate's source shows. Metric handles are opaque: what a
//! registry call does to the registry's own aggregation state is the
//! registry's business, not modeled here. Name arguments must be non-empty,
//! because `dipstick` refuses empty name segments.

use vstd::prelude::*;

verus! {

/// A hierarchical, shared aggregation scope of the registry.
#[verifier::external_type_specification]
#[verifier::external_body]
pub struct ExAtomicBucket(dipstick::AtomicBucket);

/// A counter handle of the registry.
#[verifier::external_type_specification]
#[verifier::external_body]
pub struct ExCounter(dipstick::Counter);

/// A gauge handle of the registry.
#[verifier::external_type_specification]
#[verifier::external_body]
pub struct ExGauge(dipstick::Gauge);

/// A timer handle of the registry.
#[verifier::external_type_specification]
#[verifier::external_body]
pub struct ExTimer(dipstick::Timer);

/// An adjustable level handle of the registry.
#[verifier::external_type_specification]
#[verifier::external_body]
pub struct ExLevel(dipstick::Level);

/// An opaque marker of a point in time, handed back when stopping a timer.
#[verifier::external_type_specification]
#[verifier::external_body]
pub struct ExTimeHandle(dipstick::TimeHandle);

/// Relies on `Prefixed::add_name`: returns a clone of the bucket with the
/// name segment appended to its prefix. `dipstick` refuses an empty name.
#[verifier::external_body]
pub(crate) fn bucket_child(b: &dipstick::AtomicBucket, name: &str) -> dipstick::AtomicBucket
    requires
        name@.len() > 0,
{
    dipstick::Prefixed::add_name(b, name)
}

/// Relies on `Prefixed::named`: returns a clone of the bucket whose prefix
/// is the single given name. `dipstick` refuses an empty name.
#[verifier::external_body]
pub(crate) fn bucket_renamed(b: &dipstick::AtomicBucket, name: &str) -> dipstick::AtomicBucket
    requires
        name@.len() > 0,
{
    dipstick::Prefixed::named(b, name)
}

/// Relies on `AtomicBucket::clone`: buckets are cheaply cloneable shared
/// handles into one registry.
#[verifier::external_body]
pub(crate) fn bucket_clone(b: &dipstick::AtomicBucket) -> dipstick::AtomicBucket {
    b.clone()
}

/// Relies on `InputScope::counter`: looks up or creates the named counter
/// under the bucket's prefix.
#[verifier::external_body]
pub(crate) fn bucket_counter(b: &dipstick::AtomicBucket, name: &str) -> dipstick::Counter
    requires
        name@.len() > 0,
{
    dipstick::InputScope::counter(b, name)
}

/// Relies on `InputScope::gauge`: looks up or creates the named gauge under
/// the bucket's prefix.
#[verifier::external_body]
pub(crate) fn bucket_gauge(b: &dipstick::AtomicBucket, name: &str) -> dipstick::Gauge
    requires
        name@.len() > 0,
{
    dipstick::InputScope::gauge(b, name)
}

/// Relies on `InputScope::timer`: looks up or creates the named timer under
/// the bucket's prefix.
#[verifier::external_body]
pub(crate) fn bucket_timer(b: &dipstick::AtomicBucket, name: &str) -> dipstick::Timer
    requires
        name@.len() > 0,
{
    dipstick::InputScope::timer(b, name)
}

/// Relies on `InputScope::level`: looks up or creates the named adjustable
/// level under the bucket's prefix.
#[verifier::external_body]
pub(crate) fn bucket_level(b: &dipstick::AtomicBucket, name: &str) -> dipstick::Level
    requires
        name@.len() > 0,
{
    dipstick::InputScope::level(b, name)
}

/// Relies on `Counter::count`: records an amount against the counter.
#[verifier::external_body]
pub(crate) fn counter_count(c: &dipstick::Counter, amount: usize) {
    c.count(amount)
}

/// Relies on `Gauge::value`: records a value point for the gauge. An `isize`
/// argument always converts, so the call cannot fail.
#[verifier::external_body]
pub(crate) fn gauge_value(g: &dipstick::Gauge, value: isize) {
    g.value(value)
}

/// Relies on `Level::adjust`: adds a positive or negative amount to the
/// level. An `isize` argument always converts, so the call cannot fail.
#[verifier::external_body]
pub(crate) fn level_adjust(l: &dipstick::Level, amount: isize) {
    l.adjust(amount)
}

/// Relies on `Timer::start`: reads the clock now and hands back the marker.
/// The result depends on the time, so nothing is stated of it.
#[verifier::external_body]
pub(crate) fn timer_start(t: &dipstick::Timer) -> dipstick::TimeHandle {
    t.start()
}

/// Relies on `Timer::stop`: records the time elapsed since the start marker
/// was obtained. The recorded duration depends on the clock, so nothing is
/// stated of it.
#[verifier::external_body]
pub(crate) fn timer_stop(t: &dipstick::Timer, start: &dipstick::TimeHandle) {
    t.stop(*start)
}

} // verus!

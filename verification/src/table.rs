//! The directive table: the fixed, ordered mapping from attribute-name
//! patterns to metric kinds and value-extraction rules.
//!
//! Bare directive names match string-valued attributes; the string becomes the
//! metric name and the implicit amount is 1. Dotted prefix forms match
//! integer-valued attributes; the rest of the attribute name becomes the
//! metric name and the integer becomes the amount. The timer directive has no
//! prefix form and is meaningful only where scoping applies.
use vstd::prelude::*;
use crate::text::{eq_str, has_prefix, starts_with_str};

verus! {

/// The four metric kinds the directive table can select.
#[derive(Clone, Copy, PartialEq, Eq, Structural, Debug)]
pub enum MetricKind {
    /// A monotonically accumulated count.
    Counter,
    /// A last-write-wins instantaneous value.
    Gauge,
    /// A count of things active now, adjusted up and down.
    Level,
    /// A duration between a start mark and a stop.
    Timer,
}

/// The bare counter directive name.
pub open spec fn counter_name() -> Seq<char> {
    "metrics.counter"@
}

/// The bare gauge directive name.
pub open spec fn gauge_name() -> Seq<char> {
    "metrics.gauge"@
}

/// The bare level directive name.
pub open spec fn level_name() -> Seq<char> {
    "metrics.level"@
}

/// The bare timer directive name.
pub open spec fn timer_name() -> Seq<char> {
    "metrics.time"@
}

/// The dotted counter prefix.
pub open spec fn counter_prefix() -> Seq<char> {
    "metrics.counter."@
}

/// The dotted gauge prefix.
pub open spec fn gauge_prefix() -> Seq<char> {
    "metrics.gauge."@
}

/// The dotted level prefix.
pub open spec fn level_prefix() -> Seq<char> {
    "metrics.level."@
}

/// The scope directive that appends a segment to the parent scope's name.
pub open spec fn scope_append_name() -> Seq<char> {
    "metrics.scope"@
}

/// The scope directive that replaces the scope's qualified name.
pub open spec fn scope_replace_name() -> Seq<char> {
    "metrics.scope.full"@
}

/// Which metric kind a bare (exact-name, string-valued) directive selects.
pub open spec fn bare_kind(n: Seq<char>) -> Option<MetricKind> {
    if n == counter_name() {
        Some(MetricKind::Counter)
    } else if n == gauge_name() {
        Some(MetricKind::Gauge)
    } else if n == level_name() {
        Some(MetricKind::Level)
    } else if n == timer_name() {
        Some(MetricKind::Timer)
    } else {
        None
    }
}

/// A name is recognized when some directive rule (metric or scope naming)
/// could ever react to it; every other attribute name is silently ignored.
pub open spec fn recognized_name(n: Seq<char>) -> bool {
    ||| bare_kind(n) is Some
    ||| n == scope_append_name()
    ||| n == scope_replace_name()
    ||| has_prefix(n, counter_prefix())
    ||| has_prefix(n, gauge_prefix())
    ||| has_prefix(n, level_prefix())
}

/// Which metric kind a bare directive with this name selects, if any.
pub fn match_bare(name: &Vec<char>) -> (r: Option<MetricKind>)
    ensures
        r == bare_kind(name@),
{
    if eq_str(name, "metrics.counter") {
        Some(MetricKind::Counter)
    } else if eq_str(name, "metrics.gauge") {
        Some(MetricKind::Gauge)
    } else if eq_str(name, "metrics.level") {
        Some(MetricKind::Level)
    } else if eq_str(name, "metrics.time") {
        Some(MetricKind::Timer)
    } else {
        None
    }
}

/// The character length of the dotted counter prefix.
pub proof fn counter_prefix_len()
    ensures
        counter_prefix().len() == 16,
{
    reveal_strlit("metrics.counter.");
}

/// The character length of the dotted gauge prefix.
pub proof fn gauge_prefix_len()
    ensures
        gauge_prefix().len() == 14,
{
    reveal_strlit("metrics.gauge.");
}

/// The character length of the dotted level prefix.
pub proof fn level_prefix_len()
    ensures
        level_prefix().len() == 14,
{
    reveal_strlit("metrics.level.");
}

/// Does this name carry the dotted counter prefix?
pub fn match_counter_prefix(name: &Vec<char>) -> (r: bool)
    ensures
        r == has_prefix(name@, counter_prefix()),
{
    starts_with_str(name, "metrics.counter.")
}

/// Does this name carry the dotted gauge prefix?
pub fn match_gauge_prefix(name: &Vec<char>) -> (r: bool)
    ensures
        r == has_prefix(name@, gauge_prefix()),
{
    starts_with_str(name, "metrics.gauge.")
}

/// Does this name carry the dotted level prefix?
pub fn match_level_prefix(name: &Vec<char>) -> (r: bool)
    ensures
        r == has_prefix(name@, level_prefix()),
{
    starts_with_str(name, "metrics.level.")
}

} // verus!

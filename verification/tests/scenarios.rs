//! End-to-end scenarios against a real `dipstick` bucket, observed by
//! flushing all aggregated stats into a map.
use std::collections::BTreeMap;
use std::time::{Duration, Instant};

use dipstick::{stats_all, AtomicBucket, StatsMapScope};
use tracing_dipstick::attrs::Attr;
use tracing_dipstick::router::DipstickLayer;
use tracing_dipstick::scope::MetricScope;

fn drain(bucket: &AtomicBucket) -> BTreeMap<String, isize> {
    let out = StatsMapScope::default();
    bucket.flush_to(&out).expect("flush");
    out.into_map()
}

fn fresh_bucket() -> AtomicBucket {
    let bucket = AtomicBucket::new();
    bucket.stats(stats_all);
    bucket
}

#[test]
fn counter_event_inside_named_span() {
    let bucket = fresh_bucket();
    let root = MetricScope::new(bucket.clone()).add_name("app");
    let mut layer = DipstickLayer::new(root);

    layer.new_span(1, None, &vec![Attr::string("metrics.scope", "jobs")]);
    let skipped = layer.on_event(Some(1), &vec![Attr::string("metrics.counter", "started")]);
    assert_eq!(skipped, 0);

    let map = drain(&bucket);
    assert_eq!(map.get("app.jobs.started.count"), Some(&1));
    assert_eq!(map.get("app.jobs.started.sum"), Some(&1));
}

#[test]
fn span_timer_records_one_duration() {
    let bucket = fresh_bucket();
    let root = MetricScope::new(bucket.clone()).add_name("app");
    let mut layer = DipstickLayer::new(root);

    layer.new_span(1, None, &vec![Attr::string("metrics.scope", "jobs")]);
    layer.new_span(
        2,
        Some(1),
        &vec![
            Attr::string("metrics.scope", "yak"),
            Attr::string("metrics.time", "time"),
        ],
    );
    let start = Instant::now();
    while start.elapsed() < Duration::from_millis(600) {}
    assert!(layer.close_span(2));

    let map = drain(&bucket);
    assert_eq!(map.get("app.jobs.yak.time.count"), Some(&1));
    let sum = *map.get("app.jobs.yak.time.sum").expect("timer sum");
    // Microseconds; roughly the 600 ms the span was open.
    assert!(sum >= 400_000, "timer too short: {} us", sum);
    assert!(sum < 20_000_000, "timer too long: {} us", sum);
}

#[test]
fn span_level_nets_to_zero_after_close() {
    let bucket = fresh_bucket();
    let root = MetricScope::new(bucket.clone());
    let mut layer = DipstickLayer::new(root);

    layer.new_span(3, None, &vec![Attr::string("metrics.level", "active")]);
    assert!(layer.close_span(3));
    // Closing again finds nothing: the record was drained exactly once.
    assert!(!layer.close_span(3));

    let map = drain(&bucket);
    // Two adjustments were recorded (+1 at creation, -1 at close)...
    assert_eq!(map.get("active.count"), Some(&2));
    // ...and they cancel exactly.
    assert_eq!(map.get("active.sum"), Some(&0));
}

#[test]
fn level_on_span_visible_while_open() {
    let bucket = fresh_bucket();
    let root = MetricScope::new(bucket.clone());
    let mut layer = DipstickLayer::new(root);

    layer.new_span(4, None, &vec![Attr::string("metrics.level", "active")]);
    let map = drain(&bucket);
    assert_eq!(map.get("active.sum"), Some(&1));

    assert!(layer.close_span(4));
    let map = drain(&bucket);
    assert_eq!(map.get("active.sum"), Some(&-1));
}

#[test]
fn gauge_event_without_enclosing_span() {
    let bucket = fresh_bucket();
    let root = MetricScope::new(bucket.clone());
    let layer = DipstickLayer::new(root);

    let skipped = layer.on_event(None, &vec![Attr::signed("metrics.gauge.order", 5)]);
    assert_eq!(skipped, 0);

    let map = drain(&bucket);
    assert_eq!(map.get("order.max"), Some(&5));
    assert_eq!(map.get("order.min"), Some(&5));
}

#[test]
fn timer_on_event_is_skipped_but_reported() {
    let bucket = fresh_bucket();
    let root = MetricScope::new(bucket.clone());
    let layer = DipstickLayer::new(root);

    let skipped = layer.on_event(
        None,
        &vec![
            Attr::string("metrics.time", "time"),
            Attr::string("metrics.counter", "started"),
        ],
    );
    assert_eq!(skipped, 1);

    let map = drain(&bucket);
    assert_eq!(map.get("started.count"), Some(&1));
    assert!(map.keys().all(|k| !k.contains("time")));
}

#[test]
fn unrecognized_event_touches_nothing() {
    let bucket = fresh_bucket();
    let root = MetricScope::new(bucket.clone());
    let layer = DipstickLayer::new(root);

    let skipped = layer.on_event(
        None,
        &vec![
            Attr::string("msg", "hello"),
            Attr::signed("metrics.counters.typo", 2),
        ],
    );
    assert_eq!(skipped, 0);
    assert!(drain(&bucket).is_empty());
}

#[test]
fn scope_composition_spells_the_same_name() {
    // Append "b" then "c" under root "a"...
    let b1 = fresh_bucket();
    let mut l1 = DipstickLayer::new(MetricScope::new(b1.clone()).add_name("a"));
    l1.new_span(1, None, &vec![Attr::string("metrics.scope", "b")]);
    l1.new_span(2, Some(1), &vec![Attr::string("metrics.scope", "c")]);
    l1.on_event(Some(2), &vec![Attr::string("metrics.counter", "m")]);

    // ...or append "b.c" at once...
    let b2 = fresh_bucket();
    let mut l2 = DipstickLayer::new(MetricScope::new(b2.clone()).add_name("a"));
    l2.new_span(1, None, &vec![Attr::string("metrics.scope", "b.c")]);
    l2.on_event(Some(1), &vec![Attr::string("metrics.counter", "m")]);

    // ...or replace the whole name with "a.b.c".
    let b3 = fresh_bucket();
    let mut l3 = DipstickLayer::new(MetricScope::new(b3.clone()).add_name("a"));
    l3.new_span(1, None, &vec![Attr::string("metrics.scope.full", "a.b.c")]);
    l3.on_event(Some(1), &vec![Attr::string("metrics.counter", "m")]);

    // The per-second "rate" stat depends on wall time; everything named does not.
    let stable = |m: BTreeMap<String, isize>| -> BTreeMap<String, isize> {
        m.into_iter().filter(|(k, _)| !k.ends_with(".rate")).collect()
    };
    let (m1, m2, m3) = (stable(drain(&b1)), stable(drain(&b2)), stable(drain(&b3)));
    assert_eq!(m1.get("a.b.c.m.count"), Some(&1));
    assert_eq!(m1, m2);
    assert_eq!(m1, m3);
}

#[test]
fn last_scope_directive_wins() {
    let bucket = fresh_bucket();
    let root = MetricScope::new(bucket.clone()).add_name("app");
    let mut layer = DipstickLayer::new(root);

    layer.new_span(
        1,
        None,
        &vec![
            Attr::string("metrics.scope", "ignored"),
            Attr::string("metrics.scope.full", "replaced"),
        ],
    );
    layer.on_event(Some(1), &vec![Attr::string("metrics.counter", "m")]);

    let map = drain(&bucket);
    assert_eq!(map.get("replaced.m.count"), Some(&1));
}

#[test]
fn level_on_event_is_permanent() {
    let bucket = fresh_bucket();
    let root = MetricScope::new(bucket.clone());
    let layer = DipstickLayer::new(root);

    // An event's level adjustment has no span end to reverse it.
    let skipped = layer.on_event(None, &vec![Attr::string("metrics.level", "active")]);
    assert_eq!(skipped, 0);

    let map = drain(&bucket);
    assert_eq!(map.get("active.count"), Some(&1));
    assert_eq!(map.get("active.sum"), Some(&1));
}

#[test]
fn events_never_alter_scope_naming() {
    let bucket = fresh_bucket();
    let root = MetricScope::new(bucket.clone()).add_name("app");
    let mut layer = DipstickLayer::new(root);

    layer.new_span(1, None, &vec![Attr::string("metrics.scope", "jobs")]);
    // The scope directives on the event itself are ignored: the counter
    // lands on the enclosing span's scope, and nothing is renamed.
    layer.on_event(
        Some(1),
        &vec![
            Attr::string("metrics.scope", "elsewhere"),
            Attr::string("metrics.scope.full", "other"),
            Attr::string("metrics.counter", "m"),
        ],
    );
    layer.on_event(Some(1), &vec![Attr::string("metrics.counter", "m")]);

    let map = drain(&bucket);
    assert_eq!(map.get("app.jobs.m.count"), Some(&2));
    assert!(map.keys().all(|k| !k.contains("elsewhere") && !k.contains("other")));
}

#[test]
fn missing_ancestor_record_falls_back_to_root() {
    let bucket = fresh_bucket();
    let root = MetricScope::new(bucket.clone()).add_name("app");
    let mut layer = DipstickLayer::new(root);

    // The claimed ancestor was never installed: never an error, just root.
    layer.new_span(7, Some(999), &vec![Attr::string("metrics.counter", "c")]);
    layer.on_event(Some(999), &vec![Attr::string("metrics.counter", "e")]);

    let map = drain(&bucket);
    assert_eq!(map.get("app.c.count"), Some(&1));
    assert_eq!(map.get("app.e.count"), Some(&1));
}

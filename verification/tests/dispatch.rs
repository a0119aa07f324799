//! Dispatcher-level tests: what the directive table plans for an attribute
//! set, before anything touches a sink.
use tracing_dipstick::attrs::Attr;
use tracing_dipstick::ops::{plan, PlannedOp};

fn names(ops: &[PlannedOp]) -> Vec<String> {
    ops.iter()
        .map(|op| match op {
            PlannedOp::Count { metric, amount } => format!("count:{}:{}", metric, amount),
            PlannedOp::GaugeValue { metric, amount } => format!("gauge:{}:{}", metric, amount),
            PlannedOp::AdjustLevel { metric, amount } => format!("level:{}:{}", metric, amount),
            PlannedOp::StartTimer { metric } => format!("timer:{}", metric),
        })
        .collect()
}

#[test]
fn unrecognized_names_plan_nothing() {
    let attrs = vec![
        Attr::string("message", "hello"),
        Attr::signed("retries", 3),
        Attr::unsigned("metrics", 1),
        Attr::string("metrics.counters", "typo"),
        Attr::opaque("weird"),
    ];
    for scoped in [false, true] {
        let (ops, skipped) = plan(&attrs, scoped);
        assert!(ops.is_empty());
        assert_eq!(skipped, 0);
    }
}

#[test]
fn junk_attributes_change_nothing() {
    let recognized = vec![
        Attr::string("metrics.counter", "started"),
        Attr::signed("metrics.gauge.order", 7),
    ];
    let padded = vec![
        Attr::opaque("noise"),
        Attr::string("metrics.counter", "started"),
        Attr::string("msg", "shaving"),
        Attr::signed("metrics.gauge.order", 7),
        Attr::unsigned("metrics.gauges.typo", 9),
    ];
    let (plain, s1) = plan(&recognized, true);
    let (noisy, s2) = plan(&padded, true);
    assert_eq!(names(&plain), names(&noisy));
    assert_eq!(s1, s2);
}

#[test]
fn bare_directives_use_amount_one() {
    let attrs = vec![
        Attr::string("metrics.counter", "started"),
        Attr::string("metrics.gauge", "warm"),
        Attr::string("metrics.level", "active"),
    ];
    let (ops, skipped) = plan(&attrs, false);
    assert_eq!(
        names(&ops),
        vec!["count:started:1", "gauge:warm:1", "level:active:1"]
    );
    assert_eq!(skipped, 0);
}

#[test]
fn dotted_directives_take_suffix_and_value() {
    let attrs = vec![
        Attr::signed("metrics.counter.legs", 4),
        Attr::signed("metrics.gauge.order", 5),
        Attr::signed("metrics.level.depth", -2),
    ];
    let (ops, skipped) = plan(&attrs, true);
    assert_eq!(
        names(&ops),
        vec!["count:legs:4", "gauge:order:5", "level:depth:-2"]
    );
    assert_eq!(skipped, 0);
}

#[test]
fn unsigned_value_wraps_into_signed() {
    let attrs = vec![Attr::unsigned("metrics.gauge.huge", u64::MAX)];
    let (ops, _) = plan(&attrs, true);
    assert_eq!(names(&ops), vec!["gauge:huge:-1"]);
}

#[test]
fn timer_allowed_on_spans_only() {
    let attrs = vec![Attr::string("metrics.time", "time")];
    let (ops, skipped) = plan(&attrs, true);
    assert_eq!(names(&ops), vec!["timer:time"]);
    assert_eq!(skipped, 0);

    let (ops, skipped) = plan(&attrs, false);
    assert!(ops.is_empty());
    assert_eq!(skipped, 1);
}

#[test]
fn misused_timer_does_not_block_other_attributes() {
    let attrs = vec![
        Attr::string("metrics.time", "time"),
        Attr::string("metrics.counter", "started"),
    ];
    let (ops, skipped) = plan(&attrs, false);
    assert_eq!(names(&ops), vec!["count:started:1"]);
    assert_eq!(skipped, 1);
}

#[test]
fn value_shape_must_match_the_rule() {
    let attrs = vec![
        // A bare directive slot with a non-string value: ignored.
        Attr::signed("metrics.counter", 4),
        // A dotted directive slot with a string value: ignored.
        Attr::string("metrics.counter.legs", "four"),
        // A timer with an integer value: there is no dotted timer form.
        Attr::signed("metrics.time", 9),
        // An opaque value on a recognized name: ignored.
        Attr::opaque("metrics.gauge"),
    ];
    for scoped in [false, true] {
        let (ops, skipped) = plan(&attrs, scoped);
        assert!(ops.is_empty());
        assert_eq!(skipped, 0);
    }
}

#[test]
fn near_miss_names_are_ignored() {
    let attrs = vec![
        // A bare name with trailing characters is not the bare directive...
        Attr::string("metrics.counterextra", "x"),
        // ...and without the separating dot it is not the dotted form either.
        Attr::signed("metrics.counterextra", 2),
        // Non-ASCII look-alikes differ character by character.
        Attr::string("metrics.countér", "x"),
        Attr::signed("métrics.counter.legs", 4),
    ];
    for scoped in [false, true] {
        let (ops, skipped) = plan(&attrs, scoped);
        assert!(ops.is_empty());
        assert_eq!(skipped, 0);
    }
}

#[test]
fn dotted_suffix_may_be_anything() {
    // The suffix becomes the metric name verbatim, dots and all.
    let attrs = vec![Attr::signed("metrics.counter.a.b", 1)];
    let (ops, _) = plan(&attrs, true);
    assert_eq!(names(&ops), vec!["count:a.b:1"]);

    // An empty suffix is still applied; naming it is the caller's business.
    let attrs = vec![Attr::signed("metrics.counter.", 3)];
    let (ops, _) = plan(&attrs, true);
    assert_eq!(names(&ops), vec!["count::3"]);
}

#[test]
fn empty_attribute_set_is_a_no_op() {
    let attrs: Vec<Attr> = Vec::new();
    let (ops, skipped) = plan(&attrs, true);
    assert!(ops.is_empty());
    assert_eq!(skipped, 0);
}

#[test]
fn every_attribute_processed_in_order() {
    let attrs = vec![
        Attr::string("metrics.counter", "a"),
        Attr::string("metrics.counter", "b"),
        Attr::signed("metrics.counter.c", 2),
    ];
    let (ops, _) = plan(&attrs, true);
    assert_eq!(names(&ops), vec!["count:a:1", "count:b:1", "count:c:2"]);
}

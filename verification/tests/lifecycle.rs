use std::collections::BTreeMap;

use dipstick::{AtomicBucket, InputKind, MetricName, MetricValue, ScoreType, StatsMapScope};
use metrics_bridge::{AppliedAction, DipstickLayer, Field, FieldValue, MetricScope};

fn sfield(name: &str, v: &str) -> Field {
    Field { name: name.to_string(), value: FieldValue::Str(v.to_string()) }
}

fn ifield(name: &str, v: i64) -> Field {
    Field { name: name.to_string(), value: FieldValue::I64(v) }
}

/// Publishes, for every metric, its sum under the metric's own name, its hit
/// count under a "count" suffix, and its maximum under a "max" suffix (the
/// only score a gauge reports besides its mean).
fn sum_and_count(
    kind: InputKind,
    name: MetricName,
    score: ScoreType,
) -> Option<(InputKind, MetricName, MetricValue)> {
    match score {
        ScoreType::Sum(sum) => Some((kind, name, sum)),
        ScoreType::Count(hit) => Some((InputKind::Counter, name.make_name("count"), hit)),
        ScoreType::Max(max) => Some((kind, name.make_name("max"), max)),
        _ => None,
    }
}

/// A fresh registry bucket whose flushes report sums and hit counts.
fn test_bucket() -> AtomicBucket {
    let bucket = AtomicBucket::new();
    bucket.stats(sum_and_count);
    bucket
}

/// Takes a snapshot of everything recorded since the last drain.
fn drain(bucket: &AtomicBucket) -> BTreeMap<String, MetricValue> {
    let out = StatsMapScope::default();
    bucket.flush_to(&out).expect("flush failed");
    out.into()
}

#[test]
fn relative_rename_composes() {
    let bucket = test_bucket();
    let mut layer = DipstickLayer::new(MetricScope::new(bucket).child("a"));
    layer.new_span(None, 1, &vec![sfield("metrics.scope", "b")]);
    layer.new_span(Some(1), 2, &vec![sfield("metrics.scope", "c")]);
    let (path, _) = layer.on_event(Some(1), &vec![]);
    assert_eq!(path, vec!["a".to_string(), "b".to_string()]);
    let (path, _) = layer.on_event(Some(2), &vec![]);
    assert_eq!(path, vec!["a".to_string(), "b".to_string(), "c".to_string()]);
}

#[test]
fn absolute_rename_overrides_ancestry() {
    let bucket = test_bucket();
    let mut layer = DipstickLayer::new(MetricScope::new(bucket).child("deep").child("parent"));
    layer.new_span(None, 1, &vec![sfield("metrics.scope", "mid")]);
    layer.new_span(Some(1), 2, &vec![sfield("metrics.scope.full", "x.y")]);
    let (path, _) = layer.on_event(Some(2), &vec![]);
    assert_eq!(path, vec!["x.y".to_string()]);
}

#[test]
fn last_naming_field_wins_on_span() {
    let bucket = test_bucket();
    let mut layer = DipstickLayer::new(MetricScope::new(bucket).child("p"));
    layer.new_span(
        None,
        1,
        &vec![sfield("metrics.scope", "a"), sfield("metrics.scope.full", "x")],
    );
    let (path, _) = layer.on_event(Some(1), &vec![]);
    assert_eq!(path, vec!["x".to_string()]);
}

#[test]
fn event_without_span_counts_at_root() {
    let bucket = test_bucket();
    let layer = DipstickLayer::new(MetricScope::new(bucket.clone()));
    let (path, actions) = layer.on_event(None, &vec![sfield("metrics.counter", "requests")]);
    assert!(path.is_empty());
    assert_eq!(
        actions,
        vec![AppliedAction::Counted { name: "requests".to_string(), amount: 1 }]
    );
    let snapshot = drain(&bucket);
    assert_eq!(snapshot.get("requests"), Some(&1));
}

#[test]
fn event_with_missing_context_falls_back_to_root() {
    let bucket = test_bucket();
    let layer = DipstickLayer::new(MetricScope::new(bucket).child("root"));
    let (path, actions) = layer.on_event(Some(99), &vec![sfield("metrics.counter", "x")]);
    assert_eq!(path, vec!["root".to_string()]);
    assert_eq!(actions.len(), 1);
}

#[test]
fn span_with_timer_and_nested_weighted_counter() {
    let bucket = test_bucket();
    let mut layer = DipstickLayer::new(MetricScope::new(bucket.clone()).child("app"));
    let started = layer.new_span(
        None,
        1,
        &vec![sfield("metrics.scope", "db"), sfield("metrics.time", "query")],
    );
    assert_eq!(started, vec![AppliedAction::TimerStarted { name: "query".to_string() }]);

    let (path, actions) = layer.on_event(
        Some(1),
        &vec![sfield("metrics.counter", "rows"), ifield("metrics.value", 5)],
    );
    assert_eq!(path, vec!["app".to_string(), "db".to_string()]);
    assert_eq!(actions, vec![AppliedAction::Counted { name: "rows".to_string(), amount: 5 }]);

    let receipt = layer.on_close(1);
    assert_eq!(receipt.timer_stopped, Some("query".to_string()));
    assert_eq!(receipt.level_adjusted, None);

    let snapshot = drain(&bucket);
    assert_eq!(snapshot.get("app.db.rows"), Some(&5));
    assert!(*snapshot.get("app.db.query").expect("no timer sample") >= 0);
    assert_eq!(snapshot.get("app.db.query.count"), Some(&1));
}

#[test]
fn level_reads_higher_while_open_and_reverts_on_close() {
    let bucket = test_bucket();
    let mut layer = DipstickLayer::new(MetricScope::new(bucket.clone()).child("svc"));
    layer.new_span(None, 7, &vec![sfield("metrics.level", "inflight")]);

    let while_open = drain(&bucket);
    assert_eq!(while_open.get("svc.inflight"), Some(&1));

    let receipt = layer.on_close(7);
    assert_eq!(receipt.level_adjusted, Some(("inflight".to_string(), -1)));

    let after_close = drain(&bucket);
    let reversal = *after_close.get("svc.inflight").expect("no reversal sample");
    assert_eq!(1 + reversal, 0);
}

#[test]
fn weighted_level_round_trip_nets_zero() {
    let bucket = test_bucket();
    let mut layer = DipstickLayer::new(MetricScope::new(bucket.clone()));
    let started = layer.new_span(
        None,
        3,
        &vec![sfield("metrics.level", "load"), ifield("metrics.value", 7)],
    );
    assert_eq!(
        started,
        vec![AppliedAction::LevelRaised { name: "load".to_string(), amount: 7 }]
    );
    let receipt = layer.on_close(3);
    assert_eq!(receipt.level_adjusted, Some(("load".to_string(), -7)));

    let snapshot = drain(&bucket);
    assert_eq!(snapshot.get("load"), Some(&0));
    assert_eq!(snapshot.get("load.count"), Some(&2));
}

#[test]
fn gauge_is_set_to_the_weight() {
    let bucket = test_bucket();
    let layer = DipstickLayer::new(MetricScope::new(bucket.clone()));
    let (_, actions) = layer.on_event(
        None,
        &vec![sfield("metrics.gauge", "queue"), ifield("metrics.value", 42)],
    );
    assert_eq!(
        actions,
        vec![AppliedAction::GaugeSet { name: "queue".to_string(), value: 42 }]
    );
    let snapshot = drain(&bucket);
    assert_eq!(snapshot.get("queue.max"), Some(&42));
}

#[test]
fn timer_and_level_fields_are_ignored_on_events() {
    let bucket = test_bucket();
    let layer = DipstickLayer::new(MetricScope::new(bucket.clone()));
    let (_, actions) = layer.on_event(
        None,
        &vec![sfield("metrics.time", "t"), sfield("metrics.level", "l")],
    );
    assert!(actions.is_empty());
    let snapshot = drain(&bucket);
    assert!(snapshot.is_empty());
}

#[test]
fn unknown_fields_make_no_registry_call() {
    let bucket = test_bucket();
    let mut layer = DipstickLayer::new(MetricScope::new(bucket.clone()));
    let started = layer.new_span(None, 1, &vec![sfield("foo.bar", "baz")]);
    assert!(started.is_empty());
    let (_, actions) = layer.on_event(Some(1), &vec![sfield("foo.bar", "baz")]);
    assert!(actions.is_empty());
    let receipt = layer.on_close(1);
    assert_eq!(receipt.timer_stopped, None);
    assert_eq!(receipt.level_adjusted, None);
    let snapshot = drain(&bucket);
    assert!(snapshot.is_empty());
}

#[test]
fn only_the_last_timer_is_retained_for_the_stop() {
    let bucket = test_bucket();
    let mut layer = DipstickLayer::new(MetricScope::new(bucket));
    let started = layer.new_span(
        None,
        1,
        &vec![sfield("metrics.time", "t1"), sfield("metrics.time", "t2")],
    );
    assert_eq!(
        started,
        vec![
            AppliedAction::TimerStarted { name: "t1".to_string() },
            AppliedAction::TimerStarted { name: "t2".to_string() },
        ]
    );
    let receipt = layer.on_close(1);
    assert_eq!(receipt.timer_stopped, Some("t2".to_string()));
}

#[test]
fn empty_metric_names_are_dropped() {
    let bucket = test_bucket();
    let mut layer = DipstickLayer::new(MetricScope::new(bucket.clone()));
    let started = layer.new_span(
        None,
        1,
        &vec![sfield("metrics.time", ""), sfield("metrics.counter", "")],
    );
    assert!(started.is_empty());
    let receipt = layer.on_close(1);
    assert_eq!(receipt.timer_stopped, None);
    let snapshot = drain(&bucket);
    assert!(snapshot.is_empty());
}

#[test]
fn contexts_are_stored_once_and_removed_at_close() {
    let bucket = test_bucket();
    let mut layer = DipstickLayer::new(MetricScope::new(bucket));
    assert!(!layer.has_span(1));
    layer.new_span(None, 1, &vec![]);
    assert!(layer.has_span(1));
    layer.on_close(1);
    assert!(!layer.has_span(1));
}

#[test]
fn negative_weight_survives_the_counter_cast() {
    let bucket = test_bucket();
    let layer = DipstickLayer::new(MetricScope::new(bucket.clone()));
    let (_, actions) = layer.on_event(
        None,
        &vec![sfield("metrics.counter", "delta"), ifield("metrics.value", -2)],
    );
    assert_eq!(
        actions,
        vec![AppliedAction::Counted { name: "delta".to_string(), amount: -2 }]
    );
    let snapshot = drain(&bucket);
    assert_eq!(snapshot.get("delta"), Some(&-2));
}

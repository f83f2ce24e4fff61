use std::fmt;

use vector::metrics::{DatadogMetricsNormalizer, Metric, MetricKind, MetricSet, MetricValue};

/// Metric sample values are fixed-point integers in millionths.
fn scale(value: f64) -> i64 {
    (value * 1_000_000.0).round() as i64
}

fn get_counter(value: f64, kind: MetricKind) -> Metric {
    Metric::new("counter", kind, MetricValue::Counter { value: scale(value) })
}

fn get_gauge(value: f64, kind: MetricKind) -> Metric {
    Metric::new("gauge", kind, MetricValue::Gauge { value: scale(value) })
}

fn get_set<S, N>(values: S, kind: MetricKind) -> Metric
where
    S: IntoIterator<Item = N>,
    N: fmt::Display,
{
    Metric::new(
        "set",
        kind,
        MetricValue::SetValue { values: values.into_iter().map(|i| i.to_string()).collect() },
    )
}

#[test]
fn absolute_counter() {
    let mut metric_set = MetricSet::default();

    let first_value = 3.14;
    let second_value = 8.675309;

    let counters = vec![
        get_counter(first_value, MetricKind::Absolute),
        get_counter(second_value, MetricKind::Absolute),
    ];

    let expected_counters = vec![
        None,
        Some(get_counter(second_value - first_value, MetricKind::Incremental)),
    ];

    for (input, expected) in counters.into_iter().zip(expected_counters) {
        let result = DatadogMetricsNormalizer::apply_state(&mut metric_set, input);
        assert_eq!(result, expected);
    }
}

#[test]
fn incremental_counter() {
    let mut metric_set = MetricSet::default();

    let first_value = 3.14;
    let second_value = 8.675309;

    let counters = vec![
        get_counter(first_value, MetricKind::Incremental),
        get_counter(second_value, MetricKind::Incremental),
    ];

    let expected_counters = counters.clone().into_iter().map(Option::Some).collect::<Vec<_>>();

    for (input, expected) in counters.into_iter().zip(expected_counters) {
        let result = DatadogMetricsNormalizer::apply_state(&mut metric_set, input);
        assert_eq!(result, expected);
    }
}

#[test]
fn mixed_counter() {
    let mut metric_set = MetricSet::default();

    let first_value = 3.14;
    let second_value = 8.675309;
    let third_value = 16.19;

    let counters = vec![
        get_counter(first_value, MetricKind::Incremental),
        get_counter(second_value, MetricKind::Absolute),
        get_counter(third_value, MetricKind::Absolute),
        get_counter(first_value, MetricKind::Absolute),
        get_counter(second_value, MetricKind::Incremental),
        get_counter(third_value, MetricKind::Incremental),
    ];

    let expected_counters = vec![
        Some(get_counter(first_value, MetricKind::Incremental)),
        None,
        Some(get_counter(third_value - second_value, MetricKind::Incremental)),
        None,
        Some(get_counter(second_value, MetricKind::Incremental)),
        Some(get_counter(third_value, MetricKind::Incremental)),
    ];

    for (input, expected) in counters.into_iter().zip(expected_counters) {
        let result = DatadogMetricsNormalizer::apply_state(&mut metric_set, input);
        assert_eq!(result, expected);
    }
}

#[test]
fn absolute_gauge() {
    let mut metric_set = MetricSet::default();

    let first_value = 3.14;
    let second_value = 8.675309;

    let gauges = vec![
        get_gauge(first_value, MetricKind::Absolute),
        get_gauge(second_value, MetricKind::Absolute),
    ];

    let expected_gauges = gauges.clone().into_iter().map(Option::Some).collect::<Vec<_>>();

    for (input, expected) in gauges.into_iter().zip(expected_gauges) {
        let result = DatadogMetricsNormalizer::apply_state(&mut metric_set, input);
        assert_eq!(result, expected);
    }
}

#[test]
fn incremental_gauge() {
    let mut metric_set = MetricSet::default();

    let first_value = 3.14;
    let second_value = 8.675309;

    let gauges = vec![
        get_gauge(first_value, MetricKind::Incremental),
        get_gauge(second_value, MetricKind::Incremental),
    ];

    let expected_gauges = vec![
        Some(get_gauge(first_value, MetricKind::Absolute)),
        Some(get_gauge(first_value + second_value, MetricKind::Absolute)),
    ];

    for (input, expected) in gauges.into_iter().zip(expected_gauges) {
        let result = DatadogMetricsNormalizer::apply_state(&mut metric_set, input);
        assert_eq!(result, expected);
    }
}

#[test]
fn mixed_gauge() {
    let mut metric_set = MetricSet::default();

    let first_value = 3.14;
    let second_value = 8.675309;
    let third_value = 16.19;

    let gauges = vec![
        get_gauge(first_value, MetricKind::Incremental),
        get_gauge(second_value, MetricKind::Absolute),
        get_gauge(third_value, MetricKind::Absolute),
        get_gauge(first_value, MetricKind::Absolute),
        get_gauge(second_value, MetricKind::Incremental),
        get_gauge(third_value, MetricKind::Incremental),
    ];

    let expected_gauges = vec![
        Some(get_gauge(first_value, MetricKind::Absolute)),
        Some(get_gauge(second_value, MetricKind::Absolute)),
        Some(get_gauge(third_value, MetricKind::Absolute)),
        Some(get_gauge(first_value, MetricKind::Absolute)),
        Some(get_gauge(first_value + second_value, MetricKind::Absolute)),
        Some(get_gauge(first_value + second_value + third_value, MetricKind::Absolute)),
    ];

    for (input, expected) in gauges.into_iter().zip(expected_gauges) {
        let result = DatadogMetricsNormalizer::apply_state(&mut metric_set, input);
        assert_eq!(result, expected);
    }
}

#[test]
fn absolute_set() {
    let mut metric_set = MetricSet::default();

    let sets = vec![get_set(1..=20, MetricKind::Absolute), get_set(15..=25, MetricKind::Absolute)];

    let expected_sets = vec![None, Some(get_set(21..=25, MetricKind::Incremental))];

    for (input, expected) in sets.into_iter().zip(expected_sets) {
        let result = DatadogMetricsNormalizer::apply_state(&mut metric_set, input);
        assert_eq!(result, expected);
    }
}

#[test]
fn incremental_set() {
    let mut metric_set = MetricSet::default();

    let sets = vec![
        get_set(1..=20, MetricKind::Incremental),
        get_set(15..=25, MetricKind::Incremental),
    ];

    let expected_sets = vec![
        Some(get_set(1..=20, MetricKind::Incremental)),
        Some(get_set(15..=25, MetricKind::Incremental)),
    ];

    for (input, expected) in sets.into_iter().zip(expected_sets) {
        let result = DatadogMetricsNormalizer::apply_state(&mut metric_set, input);
        assert_eq!(result, expected);
    }
}

#[test]
fn mixed_set() {
    let mut metric_set = MetricSet::default();

    let sets = vec![
        get_set(1..=20, MetricKind::Incremental),
        get_set(10..=16, MetricKind::Absolute),
        get_set(15..=25, MetricKind::Absolute),
        get_set(1..5, MetricKind::Incremental),
        get_set(3..=42, MetricKind::Incremental),
    ];

    let expected_sets = vec![
        Some(get_set(1..=20, MetricKind::Incremental)),
        None,
        Some(get_set(17..=25, MetricKind::Incremental)),
        Some(get_set(1..5, MetricKind::Incremental)),
        Some(get_set(3..=42, MetricKind::Incremental)),
    ];

    for (input, expected) in sets.into_iter().zip(expected_sets) {
        let result = DatadogMetricsNormalizer::apply_state(&mut metric_set, input);
        assert_eq!(result, expected);
    }
}

#[test]
fn counter_overflow_counts_as_reset() {
    // A subtraction that cannot be represented is treated like a counter
    // reset: nothing comes out, the new sample becomes the reference.
    let mut metric_set = MetricSet::default();
    let huge = Metric::new("counter", MetricKind::Absolute, MetricValue::Counter {
        value: i64::MIN,
    });
    let later = Metric::new("counter", MetricKind::Absolute, MetricValue::Counter {
        value: i64::MAX,
    });
    assert_eq!(DatadogMetricsNormalizer::apply_state(&mut metric_set, huge), None);
    assert_eq!(DatadogMetricsNormalizer::apply_state(&mut metric_set, later), None);
    let next = Metric::new("counter", MetricKind::Absolute, MetricValue::Counter {
        value: i64::MAX,
    });
    assert_eq!(
        DatadogMetricsNormalizer::apply_state(&mut metric_set, next),
        Some(Metric::new("counter", MetricKind::Incremental, MetricValue::Counter { value: 0 })),
    );
}

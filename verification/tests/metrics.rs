use proc_daemon::metrics::{MetricsCollector, MAX_HISTOGRAM_SAMPLES};
use std::time::Duration;

#[test]
fn test_metrics_collector() {
    let mut collector = MetricsCollector::new();

    // Test counter
    collector.increment_counter("test_counter", 5);
    collector.increment_counter("test_counter", 3);

    // Test gauge
    collector.set_gauge("test_gauge", 42);

    // Test histogram
    collector.record_histogram("test_histogram", Duration::from_millis(100));
    collector.record_histogram("test_histogram", Duration::from_millis(200));

    let snapshot = collector.get_metrics();

    assert_eq!(snapshot.counters.get("test_counter"), Some(&8));
    assert_eq!(snapshot.gauges.get("test_gauge"), Some(&42));
    assert_eq!(snapshot.histograms.get("test_histogram").unwrap().len(), 2);
}

#[test]
fn counters_wrap_around() {
    let mut collector = MetricsCollector::new();
    collector.increment_counter("c", u64::MAX);
    collector.increment_counter("c", 2);
    assert_eq!(collector.get_metrics().counters.get("c"), Some(&1));
}

#[test]
fn gauges_keep_the_last_value_and_names_stay_apart() {
    let mut collector = MetricsCollector::new();
    collector.set_gauge("g", 1);
    collector.set_gauge("g", 9);
    collector.set_gauge("h", 4);
    collector.increment_counter("g", 3);
    let snapshot = collector.get_metrics();
    assert_eq!(snapshot.gauges.get("g"), Some(&9));
    assert_eq!(snapshot.gauges.get("h"), Some(&4));
    assert_eq!(snapshot.gauges.len(), 2);
    assert_eq!(snapshot.counters.get("g"), Some(&3));
    assert_eq!(snapshot.counters.get("h"), None);
}

#[test]
fn histograms_keep_order_and_reset_clears() {
    let mut collector = MetricsCollector::default();
    collector.record_histogram("h", Duration::from_millis(3));
    collector.record_histogram("other", Duration::from_millis(7));
    collector.record_histogram("h", Duration::from_millis(1));
    let snapshot = collector.get_metrics();
    assert_eq!(
        snapshot.histograms.get("h").unwrap(),
        &vec![Duration::from_millis(3), Duration::from_millis(1)]
    );
    let mut names = snapshot.histograms.names();
    names.sort();
    assert_eq!(names, vec!["h".to_string(), "other".to_string()]);
    collector.reset();
    let snapshot = collector.get_metrics();
    assert_eq!(snapshot.histograms.len(), 0);
    assert_eq!(snapshot.counters.len(), 0);
    assert_eq!(snapshot.gauges.len(), 0);
}

#[test]
fn histograms_are_capped_and_drop_the_oldest_sample() {
    let mut collector = MetricsCollector::new();
    let total = MAX_HISTOGRAM_SAMPLES as u64 + 6;
    for ms in 0..total {
        collector.record_histogram("h", Duration::from_millis(ms));
    }
    let snapshot = collector.get_metrics();
    let series = snapshot.histograms.get("h").unwrap();
    assert_eq!(series.len(), MAX_HISTOGRAM_SAMPLES);
    assert_eq!(series[0], Duration::from_millis(6));
    assert_eq!(series[series.len() - 1], Duration::from_millis(total - 1));
}

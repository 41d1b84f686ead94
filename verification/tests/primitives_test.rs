use prom_metrics::IntCounter;
use prom_metrics::IntGauge;
use prom_metrics::MetricType;
use std::sync::Arc;

#[test]
fn counter_starts_at_zero() {
    assert_eq!(IntCounter::new().load(), 0);
    assert_eq!(IntCounter::default().load(), 0);
    assert_eq!(IntGauge::new().load(), 0);
    assert_eq!(IntGauge::default().load(), 0);
}

#[test]
fn counter_sums_owned_and_shared_increments() {
    let counter = IntCounter::new();
    counter.owned_inc();
    counter.inc();
    counter.shared_inc();
    counter.inc_by(10);
    counter.owned_inc_by(100);
    counter.shared_inc_by(1000);
    assert_eq!(counter.load(), 1113);
}

#[test]
fn gauge_sums_increments_and_decrements() {
    let gauge = IntGauge::new();
    gauge.set(50);
    gauge.inc();
    gauge.shared_inc();
    gauge.owned_inc_by(10);
    gauge.shared_inc_by(20);
    assert_eq!(gauge.load(), 82);
    gauge.dec();
    gauge.owned_dec();
    gauge.shared_dec();
    gauge.owned_dec_by(4);
    gauge.shared_dec_by(5);
    assert_eq!(gauge.load(), 70);
    gauge.set(7);
    assert_eq!(gauge.load(), 7);
}

#[test]
fn arithmetic_wraps() {
    let counter = IntCounter::new();
    counter.inc_by(u64::MAX);
    counter.inc_by(2);
    assert_eq!(counter.load(), 1);
    let gauge = IntGauge::new();
    gauge.dec();
    assert_eq!(gauge.load(), u64::MAX);
    gauge.inc_by_two_steps();
}

trait TwoSteps {
    fn inc_by_two_steps(&self);
}

impl TwoSteps for IntGauge {
    fn inc_by_two_steps(&self) {
        self.inc();
        self.inc();
        assert_eq!(self.load(), 1);
    }
}

#[test]
fn clone_shares_the_value() {
    let counter = IntCounter::new();
    let other = counter.clone();
    counter.inc_by(3);
    other.inc_by(4);
    assert_eq!(counter.load(), 7);
    assert_eq!(other.load(), 7);
    let gauge = IntGauge::new();
    let other = gauge.clone();
    other.set(9);
    assert_eq!(gauge.load(), 9);
    let cell = gauge.handle();
    cell.store(11, std::sync::atomic::Ordering::Relaxed);
    assert_eq!(gauge.load(), 11);
    assert_eq!(counter.handle().load(std::sync::atomic::Ordering::Relaxed), 7);
}

#[test]
fn no_update_is_lost_between_handles() {
    let counter = Arc::new(IntCounter::new());
    let gauge = Arc::new(IntGauge::new());
    gauge.set(1_000_000);
    let mut counters = Vec::new();
    let mut gauges = Vec::new();
    for _ in 0..8 {
        counters.push(Arc::clone(&counter));
        gauges.push(Arc::clone(&gauge));
    }
    for i in 0..10_000u64 {
        for k in 0..8 {
            counters[k].shared_inc();
            counters[(k + 3) % 8].owned_inc_by(2);
            gauges[(k + 5) % 8].shared_inc_by(3);
            gauges[k].owned_dec_by(1);
            if i % 2 == 0 {
                gauges[(k + 1) % 8].dec();
            }
        }
    }
    assert_eq!(counter.load(), 8 * 10_000 * 3);
    assert_eq!(gauge.load(), 1_000_000 + 8 * (10_000 * 2 - 5_000));
}

#[test]
fn metric_type_words_and_order() {
    assert_eq!(MetricType::IntCounter.as_str(), "counter");
    assert_eq!(MetricType::IntGauge.as_str(), "gauge");
    assert!(MetricType::IntCounter.precedes(&MetricType::IntGauge));
    assert!(!MetricType::IntGauge.precedes(&MetricType::IntCounter));
    assert!(!MetricType::IntCounter.precedes(&MetricType::IntCounter));
    assert!(!MetricType::IntGauge.precedes(&MetricType::IntGauge));
    assert!(MetricType::IntCounter < MetricType::IntGauge);
    assert_eq!(MetricType::IntGauge, MetricType::IntGauge);
}

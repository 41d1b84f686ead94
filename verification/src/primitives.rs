//! The two atomic primitives every metric is built from.
//!
//! Both wrap one shared 64-bit unsigned atomic. The value behind a shared
//! reference may change at any moment, so no contract here speaks of it: what
//! the contracts do pin down is *which* cell a handle refers to.

use std::sync::atomic::AtomicU64;
use std::sync::atomic::Ordering;
use std::sync::Arc;
use vstd::prelude::*;

verus! {

/// A monotonically non-decreasing 64-bit unsigned metric.
#[derive(Default, Debug)]
pub struct IntCounter(Arc<AtomicU64>);

/// A free-running 64-bit unsigned metric that can rise, fall and be set.
#[derive(Default, Debug)]
pub struct IntGauge(Arc<AtomicU64>);

impl IntCounter {
    /// The atomic cell this counter reads and writes.
    pub closed spec fn cell(&self) -> Arc<AtomicU64> {
        self.0
    }

    /// A counter on a fresh cell that starts at zero.
    pub fn new() -> Self {
        IntCounter(Arc::new(AtomicU64::new(0)))
    }

    /// Another handle on the same cell.
    pub fn handle(&self) -> (shared: Arc<AtomicU64>)
        ensures
            shared == self.cell(),
    {
        self.0.clone()
    }

    /// The current value, read with relaxed ordering.
    pub fn load(&self) -> u64 {
        self.0.load(Ordering::Relaxed)
    }

    pub fn owned_inc(&self) {
        self.owned_inc_by(1);
    }

    pub fn inc(&self) {
        self.shared_inc();
    }

    pub fn inc_by(&self, amount: u64) {
        self.shared_inc_by(amount);
    }

    pub fn shared_inc(&self) {
        self.shared_inc_by(1);
    }

    /// Adds `amount` with relaxed ordering: for the metric's sole writer.
    pub fn owned_inc_by(&self, amount: u64) {
        self.0.fetch_add(amount, Ordering::Relaxed);
    }

    /// Adds `amount` with acquire-release ordering: for a metric that is
    /// written from several call sites at once.
    pub fn shared_inc_by(&self, amount: u64) {
        self.0.fetch_add(amount, Ordering::AcqRel);
    }
}

impl Clone for IntCounter {
    /// The clone is a second handle on the same cell, not a copy of the value.
    fn clone(&self) -> (other: Self)
        ensures
            other.cell() == self.cell(),
    {
        IntCounter(self.0.clone())
    }
}

impl IntGauge {
    /// The atomic cell this gauge reads and writes.
    pub closed spec fn cell(&self) -> Arc<AtomicU64> {
        self.0
    }

    /// A gauge on a fresh cell that starts at zero.
    pub fn new() -> Self {
        IntGauge(Arc::new(AtomicU64::new(0)))
    }

    /// Another handle on the same cell.
    pub fn handle(&self) -> (shared: Arc<AtomicU64>)
        ensures
            shared == self.cell(),
    {
        self.0.clone()
    }

    /// The current value, read with relaxed ordering.
    pub fn load(&self) -> u64 {
        self.0.load(Ordering::Relaxed)
    }

    pub fn set(&self, value: u64) {
        self.0.store(value, Ordering::Relaxed);
    }

    pub fn owned_dec(&self) {
        self.owned_dec_by(1);
    }

    pub fn dec(&self) {
        self.shared_dec();
    }

    pub fn shared_dec(&self) {
        self.shared_dec_by(1);
    }

    /// Subtracts `amount` with relaxed ordering, wrapping below zero.
    pub fn owned_dec_by(&self, amount: u64) {
        self.0.fetch_sub(amount, Ordering::Relaxed);
    }

    /// Subtracts `amount` with acquire-release ordering, wrapping below zero.
    pub fn shared_dec_by(&self, amount: u64) {
        self.0.fetch_sub(amount, Ordering::AcqRel);
    }

    pub fn inc(&self) {
        self.shared_inc();
    }

    pub fn shared_inc(&self) {
        self.shared_inc_by(1);
    }

    /// Adds `amount` with relaxed ordering, wrapping past the maximum.
    pub fn owned_inc_by(&self, amount: u64) {
        self.0.fetch_add(amount, Ordering::Relaxed);
    }

    /// Adds `amount` with acquire-release ordering, wrapping past the maximum.
    pub fn shared_inc_by(&self, amount: u64) {
        self.0.fetch_add(amount, Ordering::AcqRel);
    }
}

impl Clone for IntGauge {
    /// The clone is a second handle on the same cell, not a copy of the value.
    fn clone(&self) -> (other: Self)
        ensures
            other.cell() == self.cell(),
    {
        IntGauge(self.0.clone())
    }
}

} // verus!

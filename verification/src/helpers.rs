//! Scope helpers and the self-registration capability.
//!
//! A scope helper is made when an operation begins and finished when it
//! ends: `finish` takes the helper, so it runs once.

use crate::child::ChildMetric;
use crate::clock::truncate_elapsed;
use crate::primitives::IntCounter;
use crate::primitives::IntGauge;
use crate::registry::extends;
use crate::registry::RegisterAction;
use std::sync::atomic::AtomicU64;
use std::sync::Arc;
use std::time::Instant;
use vstd::prelude::*;

verus! {

/// Counts an operation as active from `new` to `finish`.
pub struct ActiveGauge<M>(ChildMetric<M, IntGauge>);

impl<M> ActiveGauge<M> {
    /// The cell of the gauge that counts the operation.
    pub closed spec fn cell(&self) -> Arc<AtomicU64> {
        self.0.target().cell()
    }

    /// Increments the gauge that `get` selects in `metrics`, with
    /// acquire-release ordering, and keeps `metrics` alive until `finish`.
    pub fn new<F: Fn(&M) -> &IntGauge>(metrics: &Arc<M>, get: F) -> (active: Self)
        requires
            call_requires(get, (&**metrics,)),
        ensures
            exists|selected: &IntGauge| #[trigger]
                call_ensures(get, (&**metrics,), selected) && active.cell() == selected.cell(),
    {
        let metric = ChildMetric::create(metrics, get);
        metric.inc();
        ActiveGauge(metric)
    }

    /// Decrements the gauge again, with acquire-release ordering.
    pub fn finish(self) {
        self.0.dec();
    }
}

/// Adds the milliseconds between `new` and `finish` to a counter.
pub struct DurationIncMs<M> {
    start: Instant,
    count: ChildMetric<M, IntCounter>,
}

impl<M> DurationIncMs<M> {
    /// The cell of the counter that takes the elapsed time.
    pub closed spec fn cell(&self) -> Arc<AtomicU64> {
        self.count.target().cell()
    }

    /// Starts the timer on the monotonic clock, for the counter that `get`
    /// selects in `metrics`, and keeps `metrics` alive until `finish`.
    pub fn new<F: Fn(&M) -> &IntCounter>(metrics: &Arc<M>, get: F) -> (timer: Self)
        requires
            call_requires(get, (&**metrics,)),
        ensures
            exists|selected: &IntCounter| #[trigger]
                call_ensures(get, (&**metrics,), selected) && timer.cell() == selected.cell(),
    {
        DurationIncMs { start: Instant::now(), count: ChildMetric::create(metrics, get) }
    }

    /// Adds the whole milliseconds elapsed since `new`, truncated to 64
    /// bits, to the counter, with acquire-release ordering.
    pub fn finish(self) {
        let elapsed = truncate_elapsed(self.start.elapsed().as_millis());
        self.count.shared_inc_by(elapsed);
    }
}

/// Adds the microseconds between `new` and `finish` to a counter.
pub struct DurationIncUs<M> {
    start: Instant,
    count: ChildMetric<M, IntCounter>,
}

impl<M> DurationIncUs<M> {
    /// The cell of the counter that takes the elapsed time.
    pub closed spec fn cell(&self) -> Arc<AtomicU64> {
        self.count.target().cell()
    }

    /// Starts the timer on the monotonic clock, for the counter that `get`
    /// selects in `metrics`, and keeps `metrics` alive until `finish`.
    pub fn new<F: Fn(&M) -> &IntCounter>(metrics: &Arc<M>, get: F) -> (timer: Self)
        requires
            call_requires(get, (&**metrics,)),
        ensures
            exists|selected: &IntCounter| #[trigger]
                call_ensures(get, (&**metrics,), selected) && timer.cell() == selected.cell(),
    {
        DurationIncUs { start: Instant::now(), count: ChildMetric::create(metrics, get) }
    }

    /// Adds the whole microseconds elapsed since `new`, truncated to 64
    /// bits, to the counter, with acquire-release ordering.
    pub fn finish(self) {
        let elapsed = truncate_elapsed(self.start.elapsed().as_micros());
        self.count.shared_inc_by(elapsed);
    }
}

/// An aggregate that knows how to describe its own metrics.
pub trait RegisterableMetric {
    /// Declares the aggregate's metrics under `register`. The routine may
    /// narrow the context and open groups and nested contexts from it; it
    /// keeps a sorted list sorted and takes nothing out of it.
    fn register(&self, register: &mut RegisterAction<'_>)
        ensures
            *final(final(register).sink()) == *final(old(register).sink()),
            extends(old(register)@.list, final(register)@.list),
    ;
}

/// An aggregate without metrics.
#[derive(Default, Copy, Clone)]
pub struct NoMetrics;

impl RegisterableMetric for NoMetrics {
    fn register(&self, _register: &mut RegisterAction<'_>) {
    }
}

} // verus!

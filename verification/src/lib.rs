//! Lock-free integer metrics, a hierarchical registration mechanism that
//! composes name prefixes and label attributes, and a renderer that lays the
//! registered metrics out in a line-oriented text exposition format.

pub mod child;
pub mod clock;
pub mod helpers;
pub mod laws;
pub mod metric;
pub mod order;
pub mod primitives;
pub mod registry;
pub mod render;
pub mod sorting;

pub use child::ChildMetric;
pub use metric::MetricType;
pub use primitives::IntCounter;
pub use primitives::IntGauge;
pub use registry::PromMetricRegistry;
pub use registry::RegisterAction;
pub use registry::RegisterHelper;

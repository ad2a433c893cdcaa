//! Batching, retention and query rules of a metrics pipeline that persists
//! samples into a time-series store.
//!
//! Producers turn each change of a counter, gauge or histogram into an
//! event ([`recorder`]). A single worker takes the events in, aggregates
//! counters and gauges, queues one sample for each event and decides when
//! the queue is flushed and when housekeeping runs ([`worker`],
//! [`housekeeping`]). The query layer cuts the stored samples into sessions
//! and retrieves the samples of a key and their rate of change
//! ([`metrics_db`]).
//!
//! The library reads no clock and touches no store. Whoever drives it hands
//! in what the clock reads and what the store returned, and carries out what
//! the library decides.

pub mod error;
pub mod event;
pub mod housekeeping;
pub mod metrics_db;
pub mod models;
pub mod recorder;
pub mod time;
pub mod worker;

pub use error::MetricsError;
pub use event::{Directive, Event, GaugeOp, Input, MetricKind, Request};
pub use housekeeping::{HousekeepingJob, HousekeepingStep, Purge};
pub use metrics_db::{DerivMetric, JoinedMetric, MetricsDb, Session};
pub use models::{KeyLookup, Metric, MetricKey, NewMetric, NewMetricKey, SampleValue, Scalar};
pub use time::Span;
pub use worker::{ImportRow, InnerState, QueuedSample};

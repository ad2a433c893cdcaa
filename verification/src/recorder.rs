//! The producers' side: handles that turn a change of a metric into an
//! event for the worker.
//!
//! Every handle is told what the wall clock reads. Where the clock could
//! not be read there is no event: the change is dropped. An event that the
//! channel to the worker has no room for is dropped as well, by whoever
//! offers it; a producer never waits.

use crate::event::{Event, GaugeOp, MetricKind};
use crate::models::Scalar;
use crate::time::Span;
use vstd::prelude::*;
use vstd::string::StringExecFns;

verus! {

/// Number of events that the channel to the worker holds before further
/// events are dropped.
pub const BACKGROUND_CHANNEL_LIMIT: usize = 8000;

/// The producers' handle on a counter.
#[derive(Debug, PartialEq, Eq)]
pub struct CounterHandle {
    key: String,
}

/// The producers' handle on a gauge.
#[derive(Debug, PartialEq, Eq)]
pub struct GaugeHandle {
    key: String,
}

/// The producers' handle on a histogram.
#[derive(Debug, PartialEq, Eq)]
pub struct HistogramHandle {
    key: String,
}

impl CounterHandle {
    /// Name of the counter.
    pub closed spec fn name(&self) -> Seq<char> {
        self.key@
    }

    /// The event that the counter grew by `value`, taken at `clock`.
    pub fn increment(&self, clock: Option<Span>, value: u64) -> (event: Option<Event>)
        ensures
            match clock {
                Some(timestamp) => event matches Some(Event::IncrementCounter(at, key, delta))
                    && at == timestamp && key@ == self.name() && delta == value,
                None => event.is_none(),
            },
    {
        match clock {
            Some(timestamp) => Some(Event::IncrementCounter(timestamp, self.key.clone(), value)),
            None => None,
        }
    }

    /// The event that the counter had reached `value`, taken at `clock`.
    pub fn absolute(&self, clock: Option<Span>, value: u64) -> (event: Option<Event>)
        ensures
            match clock {
                Some(timestamp) => event matches Some(Event::AbsoluteCounter(at, key, total))
                    && at == timestamp && key@ == self.name() && total == value,
                None => event.is_none(),
            },
    {
        match clock {
            Some(timestamp) => Some(Event::AbsoluteCounter(timestamp, self.key.clone(), value)),
            None => None,
        }
    }
}

impl GaugeHandle {
    /// Name of the gauge.
    pub closed spec fn name(&self) -> Seq<char> {
        self.key@
    }

    /// The event of a change `op` to the gauge, taken at `clock`.
    fn update(&self, clock: Option<Span>, op: GaugeOp) -> (event: Option<Event>)
        ensures
            match clock {
                Some(timestamp) => event matches Some(Event::UpdateGauge(at, key, change))
                    && at == timestamp && key@ == self.name() && change == op,
                None => event.is_none(),
            },
    {
        match clock {
            Some(timestamp) => Some(Event::UpdateGauge(timestamp, self.key.clone(), op)),
            None => None,
        }
    }

    /// The event that the gauge rose by `value`, taken at `clock`.
    pub fn increment(&self, clock: Option<Span>, value: Scalar) -> (event: Option<Event>)
        ensures
            match clock {
                Some(timestamp) => event matches Some(Event::UpdateGauge(at, key, change))
                    && at == timestamp && key@ == self.name() && change == GaugeOp::Increment(
                    value,
                ),
                None => event.is_none(),
            },
    {
        self.update(clock, GaugeOp::Increment(value))
    }

    /// The event that the gauge fell by `value`, taken at `clock`.
    pub fn decrement(&self, clock: Option<Span>, value: Scalar) -> (event: Option<Event>)
        ensures
            match clock {
                Some(timestamp) => event matches Some(Event::UpdateGauge(at, key, change))
                    && at == timestamp && key@ == self.name() && change == GaugeOp::Decrement(
                    value,
                ),
                None => event.is_none(),
            },
    {
        self.update(clock, GaugeOp::Decrement(value))
    }

    /// The event that the gauge was set to `value`, taken at `clock`.
    pub fn set(&self, clock: Option<Span>, value: Scalar) -> (event: Option<Event>)
        ensures
            match clock {
                Some(timestamp) => event matches Some(Event::UpdateGauge(at, key, change))
                    && at == timestamp && key@ == self.name() && change == GaugeOp::Absolute(value),
                None => event.is_none(),
            },
    {
        self.update(clock, GaugeOp::Absolute(value))
    }
}

impl HistogramHandle {
    /// Name of the histogram.
    pub closed spec fn name(&self) -> Seq<char> {
        self.key@
    }

    /// The event that the histogram observed `value`, taken at `clock`.
    pub fn record(&self, clock: Option<Span>, value: Scalar) -> (event: Option<Event>)
        ensures
            match clock {
                Some(timestamp) => event matches Some(Event::UpdateHistogram(at, key, seen))
                    && at == timestamp && key@ == self.name() && seen == value,
                None => event.is_none(),
            },
    {
        match clock {
            Some(timestamp) => Some(Event::UpdateHistogram(timestamp, self.key.clone(), value)),
            None => None,
        }
    }
}

/// The event that describes a metric of the given kind.
fn describe(kind: MetricKind, key: &str, unit: Option<String>, description: &str) -> (event: Event)
    ensures
        event matches Event::DescribeKey(of, name, with, Some(said)) && of == kind && name@ == key@
            && with == unit && said@ == description@,
{
    Event::DescribeKey(kind, String::from_str(key), unit, Some(String::from_str(description)))
}

/// The event that gives the counter `key` a unit and a description.
pub fn describe_counter(key: &str, unit: Option<String>, description: &str) -> (event: Event)
    ensures
        event matches Event::DescribeKey(of, name, with, Some(said)) && of == MetricKind::Counter
            && name@ == key@ && with == unit && said@ == description@,
{
    describe(MetricKind::Counter, key, unit, description)
}

/// The event that gives the gauge `key` a unit and a description.
pub fn describe_gauge(key: &str, unit: Option<String>, description: &str) -> (event: Event)
    ensures
        event matches Event::DescribeKey(of, name, with, Some(said)) && of == MetricKind::Gauge && name@
            == key@ && with == unit && said@ == description@,
{
    describe(MetricKind::Gauge, key, unit, description)
}

/// The event that gives the histogram `key` a unit and a description.
pub fn describe_histogram(key: &str, unit: Option<String>, description: &str) -> (event: Event)
    ensures
        event matches Event::DescribeKey(of, name, with, Some(said)) && of == MetricKind::Histogram
            && name@ == key@ && with == unit && said@ == description@,
{
    describe(MetricKind::Histogram, key, unit, description)
}

/// A handle on the counter `key`, and the event that announces the counter
/// to the worker.
pub fn register_counter(key: &str) -> (registered: (CounterHandle, Event))
    ensures
        registered.0.name() == key@,
        registered.1 matches Event::RegisterKey(of, name) && of == MetricKind::Counter && name@
            == key@,
{
    (
        CounterHandle { key: String::from_str(key) },
        Event::RegisterKey(MetricKind::Counter, String::from_str(key)),
    )
}

/// A handle on the gauge `key`, and the event that announces the gauge to
/// the worker.
pub fn register_gauge(key: &str) -> (registered: (GaugeHandle, Event))
    ensures
        registered.0.name() == key@,
        registered.1 matches Event::RegisterKey(of, name) && of == MetricKind::Gauge && name@
            == key@,
{
    (
        GaugeHandle { key: String::from_str(key) },
        Event::RegisterKey(MetricKind::Gauge, String::from_str(key)),
    )
}

/// A handle on the histogram `key`, and the event that announces the
/// histogram to the worker.
pub fn register_histogram(key: &str) -> (registered: (HistogramHandle, Event))
    ensures
        registered.0.name() == key@,
        registered.1 matches Event::RegisterKey(of, name) && of == MetricKind::Histogram && name@
            == key@,
{
    (
        HistogramHandle { key: String::from_str(key) },
        Event::RegisterKey(MetricKind::Histogram, String::from_str(key)),
    )
}

/// The event that replaces the worker's housekeeping settings.
///
/// `periodic_duration` is the time between two passes, `None` to run none;
/// `retention` the age at which a sample is deleted; `record_limit` the
/// number of samples above which the oldest are deleted.
pub fn set_periodic_housekeeping(
    periodic_duration: Option<Span>,
    retention: Option<Span>,
    record_limit: Option<usize>,
) -> (event: Event)
    ensures
        event == (Event::SetHousekeeping {
            retention_period: retention,
            housekeeping_period: periodic_duration,
            record_limit,
        }),
{
    Event::SetHousekeeping {
        retention_period: retention,
        housekeeping_period: periodic_duration,
        record_limit,
    }
}

} // verus!

//! What producers send to the worker, and what the worker asks of its
//! surroundings in return.

use crate::models::Scalar;
use crate::time::Span;
use vstd::prelude::*;

verus! {

/// The kind of a metric.
#[derive(Clone, Copy, Debug, PartialEq, Eq, Hash, Structural)]
pub enum MetricKind {
    Counter,
    Gauge,
    Histogram,
}

/// A change to a gauge.
#[derive(Clone, Copy, Debug, PartialEq, Eq, Hash, Structural)]
pub enum GaugeOp {
    /// Sets the gauge to this level.
    Absolute(Scalar),
    /// Raises the gauge by this amount.
    Increment(Scalar),
    /// Lowers the gauge by this amount.
    Decrement(Scalar),
}

/// A message from a producer to the worker.
#[derive(Clone, Debug, PartialEq, Eq)]
pub enum Event {
    /// Flush what is queued, then end.
    Stop,
    /// A metric of this kind and name is in use.
    RegisterKey(MetricKind, String),
    /// A metric of this kind and name has this unit and description.
    DescribeKey(MetricKind, String, Option<String>, Option<String>),
    /// The counter of this name grew by the given amount at the given time.
    IncrementCounter(Span, String, u64),
    /// The counter of this name had reached the given total at the given time.
    AbsoluteCounter(Span, String, u64),
    /// The gauge of this name changed at the given time.
    UpdateGauge(Span, String, GaugeOp),
    /// The histogram of this name observed the given value at the given time.
    UpdateHistogram(Span, String, Scalar),
    /// Replaces the housekeeping settings.
    SetHousekeeping {
        retention_period: Option<Span>,
        housekeeping_period: Option<Span>,
        record_limit: Option<usize>,
    },
}

/// What a wait on the event channel came back with.
#[derive(Clone, Debug, PartialEq, Eq)]
pub enum Input {
    /// A producer's event.
    Event(Event),
    /// Nothing arrived within the flush interval.
    Timeout,
    /// Every producer is gone.
    Disconnected,
}

/// Work that only the worker's surroundings can do for it.
#[derive(Clone, Debug, PartialEq, Eq)]
pub enum Request {
    /// Make sure that the store holds a key of this name, and give it the
    /// unit and description that are present.
    UpsertKey { name: String, unit: Option<String>, description: Option<String> },
    /// Add `operand` to `base`, or subtract it where `subtract` is set, and
    /// send the result back as an absolute update of the gauge `key` taken
    /// at `timestamp`.
    CombineGauge { timestamp: Span, key: String, base: Scalar, operand: Scalar, subtract: bool },
}

/// A request with its texts as sequences of characters.
pub enum RequestView {
    UpsertKey { name: Seq<char>, unit: Option<Seq<char>>, description: Option<Seq<char>> },
    CombineGauge { timestamp: Span, key: Seq<char>, base: Scalar, operand: Scalar, subtract: bool },
}

/// The characters of a text that may be absent.
pub open spec fn text_of(text: Option<String>) -> Option<Seq<char>> {
    match text {
        Some(present) => Some(present@),
        None => None,
    }
}

impl View for Request {
    type V = RequestView;

    open spec fn view(&self) -> RequestView {
        match self {
            Request::UpsertKey { name, unit, description } => RequestView::UpsertKey {
                name: name@,
                unit: text_of(*unit),
                description: text_of(*description),
            },
            Request::CombineGauge {
                timestamp,
                key,
                base,
                operand,
                subtract,
            } => RequestView::CombineGauge {
                timestamp: *timestamp,
                key: key@,
                base: *base,
                operand: *operand,
                subtract: *subtract,
            },
        }
    }
}

/// What the worker's surroundings are to do after one input.
#[derive(Clone, Debug, PartialEq, Eq)]
pub struct Directive {
    /// Whether to flush the queue now.
    pub flush: bool,
    /// Whether to end the worker once the flush is done.
    pub exit: bool,
    /// Work to do for the worker before anything else.
    pub request: Option<Request>,
}

} // verus!

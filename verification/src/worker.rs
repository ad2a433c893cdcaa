//! The worker's state and its reaction to each input: aggregation, batching,
//! and the decisions to flush, to keep house and to end.

use crate::event::{Directive, Event, GaugeOp, Input, Request, RequestView, text_of};
use crate::housekeeping::HousekeepingJob;
use crate::models::{NewMetric, SampleValue, Scalar};
use crate::time::{elapsed_between, Span};
use std::collections::VecDeque;
use vstd::hash_map::StringHashMap;
use vstd::prelude::*;
use vstd::string::StringExecFns;

verus! {

/// Number of queued samples at which the queue is flushed whatever the time.
pub const FLUSH_QUEUE_LIMIT: usize = 1000;

/// A sample that waits in the worker's queue.
#[derive(Debug, PartialEq, Eq)]
pub struct QueuedSample {
    /// When the sample was taken, since the epoch.
    pub timestamp: Span,
    /// Name of the sample's metric.
    pub key: String,
    /// Value of the sample.
    pub value: SampleValue,
}

/// A queued sample with its name as a sequence of characters.
pub struct QueuedSampleView {
    pub timestamp: Span,
    pub key: Seq<char>,
    pub value: SampleValue,
}

impl View for QueuedSample {
    type V = QueuedSampleView;

    open spec fn view(&self) -> QueuedSampleView {
        QueuedSampleView { timestamp: self.timestamp, key: self.key@, value: self.value }
    }
}

/// The worker's state as mathematics.
#[verifier::ext_equal]
pub struct WorkerModel {
    /// The monotonic clock's reading when housekeeping last ran or was set.
    pub last_housekeeping: Span,
    /// Time between two housekeeping passes; `None` runs none.
    pub housekeeping: Option<Span>,
    /// Age at which housekeeping deletes a sample.
    pub retention: Option<Span>,
    /// Most samples that housekeeping leaves in the store.
    pub record_limit: Option<usize>,
    /// Longest time between two flushes.
    pub flush_duration: Span,
    /// The monotonic clock's reading at the last flush.
    pub last_flush: Span,
    /// Level of each gauge that was set since the worker started.
    pub last_values: Map<Seq<char>, Scalar>,
    /// Total of each counter that was moved since the worker started.
    pub counters: Map<Seq<char>, u64>,
    /// Identifier of each metric key that is known to be in the store.
    pub key_ids: Map<Seq<char>, i64>,
    /// The samples that wait to be stored, oldest first.
    pub queue: Seq<QueuedSampleView>,
}

/// The total of a counter; a counter that never moved stands at zero.
pub open spec fn counter_total(m: WorkerModel, key: Seq<char>) -> u64 {
    if m.counters.contains_key(key) {
        m.counters[key]
    } else {
        0
    }
}

/// The level of a gauge; a gauge that was never set stands at positive zero.
pub open spec fn gauge_level(m: WorkerModel, key: Seq<char>) -> Scalar {
    if m.last_values.contains_key(key) {
        m.last_values[key]
    } else {
        Scalar { bits: 0 }
    }
}

/// `a + b`, held at the largest total that a counter can show.
pub open spec fn saturating_sum(a: u64, b: u64) -> u64 {
    if a + b > u64::MAX {
        u64::MAX
    } else {
        (a + b) as u64
    }
}

/// The larger of two totals.
pub open spec fn larger(a: u64, b: u64) -> u64 {
    if a >= b {
        a
    } else {
        b
    }
}

/// The state with one more sample at the end of the queue.
pub open spec fn enqueue(m: WorkerModel, timestamp: Span, key: Seq<char>, value: SampleValue)
    -> WorkerModel {
    WorkerModel { queue: m.queue.push(QueuedSampleView { timestamp, key, value }), ..m }
}

/// The state with a counter moved to `total` and a sample of that total
/// queued.
pub open spec fn count(m: WorkerModel, timestamp: Span, key: Seq<char>, total: u64) -> WorkerModel {
    enqueue(
        WorkerModel { counters: m.counters.insert(key, total), ..m },
        timestamp,
        key,
        SampleValue::Count(total),
    )
}

/// The state after an event that arrived when the monotonic clock read
/// `now`.
pub open spec fn after_event(m: WorkerModel, event: Event, now: Span) -> WorkerModel {
    match event {
        Event::Stop => m,
        Event::RegisterKey(_, _) => m,
        Event::DescribeKey(_, _, _, _) => m,
        Event::IncrementCounter(timestamp, key, delta) => count(
            m,
            timestamp,
            key@,
            saturating_sum(counter_total(m, key@), delta),
        ),
        Event::AbsoluteCounter(timestamp, key, total) => count(
            m,
            timestamp,
            key@,
            larger(counter_total(m, key@), total),
        ),
        Event::UpdateGauge(timestamp, key, GaugeOp::Absolute(level)) => enqueue(
            WorkerModel { last_values: m.last_values.insert(key@, level), ..m },
            timestamp,
            key@,
            SampleValue::Scalar(level),
        ),
        Event::UpdateGauge(_, _, _) => m,
        Event::UpdateHistogram(timestamp, key, value) => enqueue(
            m,
            timestamp,
            key@,
            SampleValue::Scalar(value),
        ),
        Event::SetHousekeeping { retention_period, housekeeping_period, record_limit } => WorkerModel {
            retention: retention_period,
            housekeeping: housekeeping_period,
            record_limit,
            last_housekeeping: now,
            ..m
        },
    }
}

/// The state after an input.
pub open spec fn after_input(m: WorkerModel, input: Input, now: Span) -> WorkerModel {
    match input {
        Input::Event(event) => after_event(m, event, now),
        Input::Timeout => m,
        Input::Disconnected => m,
    }
}

/// Whether an event puts a sample into the queue.
pub open spec fn queues_sample(event: Event) -> bool {
    match event {
        Event::IncrementCounter(_, _, _) => true,
        Event::AbsoluteCounter(_, _, _) => true,
        Event::UpdateGauge(_, _, GaugeOp::Absolute(_)) => true,
        Event::UpdateHistogram(_, _, _) => true,
        _ => false,
    }
}

/// Whether the queue is due for a flush: the flush interval has passed
/// since the last flush, or the queue has reached its limit.
pub open spec fn flush_due(m: WorkerModel, now: Span) -> bool {
    elapsed_between(m.last_flush, now) > m.flush_duration@ || m.queue.len() >= FLUSH_QUEUE_LIMIT
}

/// Whether housekeeping is due: a period is set and has passed since the
/// last pass.
pub open spec fn housekeeping_due(m: WorkerModel, now: Span) -> bool {
    match m.housekeeping {
        Some(period) => elapsed_between(m.last_housekeeping, now) > period@,
        None => false,
    }
}

/// Whether an event asks for a metric key to be put into the store.
pub open spec fn upserts_key(event: Event) -> bool {
    event is RegisterKey || event is DescribeKey
}

/// Whether the worker weighs a flush once it has taken the event in: it
/// does after every event that queues a sample and after every registration
/// and description.
pub open spec fn weighs_flush(event: Event) -> bool {
    queues_sample(event) || upserts_key(event)
}

/// Whether the worker flushes after an input.
///
/// It always does after a timeout, a stop and a disconnection. After an
/// event that queues a sample, a registration and a description it does
/// where the queue is due once the event has been taken in. New housekeeping
/// settings direct no flush, and neither does a gauge that is raised or
/// lowered: the flush is weighed when its level comes back.
pub open spec fn directs_flush(m: WorkerModel, input: Input, now: Span) -> bool {
    match input {
        Input::Timeout => true,
        Input::Disconnected => true,
        Input::Event(Event::Stop) => true,
        Input::Event(event) => weighs_flush(event) && flush_due(after_event(m, event, now), now),
    }
}

/// Whether the worker ends after an input.
pub open spec fn directs_exit(input: Input) -> bool {
    match input {
        Input::Disconnected => true,
        Input::Event(Event::Stop) => true,
        _ => false,
    }
}

/// What the worker asks of its surroundings after an input.
pub open spec fn request_of(m: WorkerModel, input: Input) -> Option<RequestView> {
    match input {
        Input::Event(Event::RegisterKey(_, name)) => Some(
            RequestView::UpsertKey { name: name@, unit: None, description: None },
        ),
        Input::Event(Event::DescribeKey(_, name, unit, description)) => Some(
            RequestView::UpsertKey {
                name: name@,
                unit: text_of(unit),
                description: text_of(description),
            },
        ),
        Input::Event(Event::UpdateGauge(timestamp, key, GaugeOp::Increment(operand))) => Some(
            RequestView::CombineGauge {
                timestamp,
                key: key@,
                base: gauge_level(m, key@),
                operand,
                subtract: false,
            },
        ),
        Input::Event(Event::UpdateGauge(timestamp, key, GaugeOp::Decrement(operand))) => Some(
            RequestView::CombineGauge {
                timestamp,
                key: key@,
                base: gauge_level(m, key@),
                operand,
                subtract: true,
            },
        ),
        _ => None,
    }
}

/// The view of a request that may be absent.
pub open spec fn request_view(request: Option<Request>) -> Option<RequestView> {
    match request {
        Some(present) => Some(present@),
        None => None,
    }
}

/// Whether the store's identifier is known for the key of every queued
/// sample.
pub open spec fn resolved(m: WorkerModel) -> bool {
    forall|i: int| 0 <= i < m.queue.len() ==> m.key_ids.contains_key((#[trigger] m.queue[i]).key)
}

/// Position of the first queued sample whose key has no known identifier,
/// or the length of the queue where there is none.
pub open spec fn first_unresolved(m: WorkerModel) -> int {
    if resolved(m) {
        m.queue.len() as int
    } else {
        choose|i: int|
            0 <= i < m.queue.len() && !m.key_ids.contains_key((#[trigger] m.queue[i]).key)
                && forall|j: int|
                0 <= j < i ==> m.key_ids.contains_key((#[trigger] m.queue[j]).key)
    }
}

/// The rows that a flush inserts: one for each queued sample, in the order
/// of the queue, under the identifier of the sample's key.
pub open spec fn batch_of(m: WorkerModel) -> Seq<NewMetric> {
    Seq::new(
        m.queue.len(),
        |i: int|
            NewMetric {
                timestamp: m.queue[i].timestamp,
                metric_key_id: m.key_ids[m.queue[i].key],
                value: m.queue[i].value,
            },
    )
}

/// The state after a flush whose rows the store took, ended when the
/// monotonic clock read `now`: the queue is empty and the flush clock
/// restarts.
pub open spec fn flushed(m: WorkerModel, now: Span) -> WorkerModel {
    WorkerModel { queue: Seq::empty(), last_flush: now, ..m }
}

/// The state after a flush, whether the store took the rows or refused
/// them: a flush that the store refused leaves the worker as it was, queue
/// and flush clock included, so that the same rows are tried again when the
/// next flush is due.
pub open spec fn after_flush(m: WorkerModel, stored: bool, now: Span) -> WorkerModel {
    if stored {
        flushed(m, now)
    } else {
        m
    }
}

/// Number of rows of a bulk import that are stored in one transaction.
pub const IMPORT_FLUSH_ROWS: usize = 200;

/// One row of a bulk import: a sample with the name of its metric.
#[derive(Debug, PartialEq, Eq)]
pub struct ImportRow {
    /// When the sample was taken, since the epoch.
    pub timestamp: Span,
    /// Name of the sample's metric.
    pub key: String,
    /// Value of the sample.
    pub value: Scalar,
}

/// The rows of a bulk import as the samples that they queue.
pub open spec fn imported(rows: Seq<ImportRow>) -> Seq<QueuedSampleView> {
    rows.map_values(
        |row: ImportRow|
            QueuedSampleView {
                timestamp: row.timestamp,
                key: row.key@,
                value: SampleValue::Scalar(row.value),
            },
    )
}

/// Where the block of rows that starts at `from` ends, in an import of
/// `rows` rows: at the next multiple of the block size, or at the end of the
/// rows where that comes first. Past the end there is nothing to import.
pub open spec fn import_stop(rows: nat, from: nat) -> nat {
    if from >= rows {
        from
    } else if rows - from <= IMPORT_FLUSH_ROWS - from % (IMPORT_FLUSH_ROWS as nat) {
        rows
    } else {
        (from + IMPORT_FLUSH_ROWS - from % (IMPORT_FLUSH_ROWS as nat)) as nat
    }
}

/// The worker's state.
pub struct InnerState {
    last_housekeeping: Span,
    housekeeping: Option<Span>,
    retention: Option<Span>,
    record_limit: Option<usize>,
    flush_duration: Span,
    last_flush: Span,
    last_values: StringHashMap<Scalar>,
    counters: StringHashMap<u64>,
    key_ids: StringHashMap<i64>,
    queue: VecDeque<QueuedSample>,
}

impl View for InnerState {
    type V = WorkerModel;

    closed spec fn view(&self) -> WorkerModel {
        WorkerModel {
            last_housekeeping: self.last_housekeeping,
            housekeeping: self.housekeeping,
            retention: self.retention,
            record_limit: self.record_limit,
            flush_duration: self.flush_duration,
            last_flush: self.last_flush,
            last_values: self.last_values@,
            counters: self.counters@,
            key_ids: self.key_ids@,
            queue: self.queue@.map_values(|sample: QueuedSample| sample@),
        }
    }
}

impl InnerState {
    /// A worker that starts when the monotonic clock reads `now`: nothing is
    /// queued or aggregated, no key is known, housekeeping is off, and both
    /// the flush and the housekeeping clock start at `now`.
    pub fn new(flush_duration: Span, now: Span) -> (state: InnerState)
        ensures
            state@ == (WorkerModel {
                last_housekeeping: now,
                housekeeping: None,
                retention: None,
                record_limit: None,
                flush_duration,
                last_flush: now,
                last_values: Map::empty(),
                counters: Map::empty(),
                key_ids: Map::empty(),
                queue: Seq::empty(),
            }),
    {
        InnerState {
            last_housekeeping: now,
            housekeeping: None,
            retention: None,
            record_limit: None,
            flush_duration,
            last_flush: now,
            last_values: StringHashMap::new(),
            counters: StringHashMap::new(),
            key_ids: StringHashMap::new(),
            queue: VecDeque::with_capacity(FLUSH_QUEUE_LIMIT),
        }
    }

    /// Replaces the housekeeping settings and restarts the housekeeping
    /// clock at `now`.
    pub fn set_housekeeping(
        &mut self,
        retention: Option<Span>,
        housekeeping_duration: Option<Span>,
        record_limit: Option<usize>,
        now: Span,
    )
        ensures
            final(self)@ == (WorkerModel {
                retention,
                housekeeping: housekeeping_duration,
                record_limit,
                last_housekeeping: now,
                ..old(self)@
            }),
    {
        self.retention = retention;
        self.housekeeping = housekeeping_duration;
        self.last_housekeeping = now;
        self.record_limit = record_limit;
    }

    /// Whether housekeeping is due when the monotonic clock reads `now`.
    pub fn should_housekeep(&self, now: Span) -> (due: bool)
        ensures
            due == housekeeping_due(self@, now),
    {
        match self.housekeeping {
            Some(duration) => self.last_housekeeping.elapsed(now).exceeds(duration),
            None => false,
        }
    }

    /// Starts a housekeeping pass when the monotonic clock reads `now`:
    /// hands out the pass to run, which does not compact, and restarts the
    /// housekeeping clock.
    pub fn housekeep(&mut self, now: Span) -> (job: HousekeepingJob)
        ensures
            job == (HousekeepingJob {
                retention: old(self)@.retention,
                record_limit: old(self)@.record_limit,
                vacuum: false,
            }),
            final(self)@ == (WorkerModel { last_housekeeping: now, ..old(self)@ }),
    {
        self.last_housekeeping = now;
        HousekeepingJob { retention: self.retention, record_limit: self.record_limit, vacuum: false }
    }

    /// Whether the queue is due for a flush when the monotonic clock reads
    /// `now`.
    pub fn should_flush(&self, now: Span) -> (due: bool)
        ensures
            due == flush_due(self@, now),
    {
        if self.last_flush.elapsed(now).exceeds(self.flush_duration) {
            true
        } else {
            self.queue.len() >= FLUSH_QUEUE_LIMIT
        }
    }

    /// Puts a sample at the end of the queue.
    pub fn queue_metric(&mut self, timestamp: Span, key: &str, value: SampleValue)
        ensures
            final(self)@ == enqueue(old(self)@, timestamp, key@, value),
    {
        let sample = QueuedSample { timestamp, key: String::from_str(key), value };
        self.queue.push_back(sample);
        assert(self.queue@.map_values(|sample: QueuedSample| sample@) =~= old(self).queue@.map_values(
            |sample: QueuedSample| sample@,
        ).push(sample@));
    }

    /// The name of the first queued sample whose key has no known
    /// identifier; `None` where every queued sample can be stored.
    pub fn unresolved_key(&self) -> (name: Option<String>)
        ensures
            match name {
                Some(key) => !resolved(self@) && key@ == self@.queue[first_unresolved(self@)].key,
                None => resolved(self@),
            },
    {
        let mut index: usize = 0;
        while index < self.queue.len()
            invariant
                index <= self.queue.len(),
                forall|j: int|
                    0 <= j < index ==> self@.key_ids.contains_key((#[trigger] self@.queue[j]).key),
            decreases self.queue.len() - index,
        {
            if !self.key_ids.contains_key(self.queue[index].key.as_str()) {
                proof {
                    let at = index as int;
                    assert(!self@.key_ids.contains_key(self@.queue[at].key));
                    let chosen = first_unresolved(self@);
                    assert(0 <= chosen < self@.queue.len() && !self@.key_ids.contains_key(
                        self@.queue[chosen].key,
                    ) && forall|j: int|
                        0 <= j < chosen ==> self@.key_ids.contains_key(
                            (#[trigger] self@.queue[j]).key,
                        ));
                    assert(chosen == at);
                }
                return Some(self.queue[index].key.clone());
            }
            index += 1;
        }
        None
    }

    /// Records the store's identifier of a metric key.
    pub fn cache_key(&mut self, name: &str, id: i64)
        ensures
            final(self)@ == (WorkerModel {
                key_ids: old(self)@.key_ids.insert(name@, id),
                ..old(self)@
            }),
    {
        self.key_ids.insert(String::from_str(name), id);
    }

    /// The rows to insert in one transaction to store the queue; `None`
    /// while the key of a queued sample has no known identifier.
    pub fn batch(&self) -> (rows: Option<Vec<NewMetric>>)
        ensures
            match rows {
                Some(batch) => resolved(self@) && batch@ == batch_of(self@),
                None => !resolved(self@),
            },
    {
        let mut rows: Vec<NewMetric> = Vec::new();
        let mut index: usize = 0;
        while index < self.queue.len()
            invariant
                index <= self.queue.len(),
                rows.len() == index,
                forall|j: int|
                    0 <= j < index ==> self@.key_ids.contains_key((#[trigger] self@.queue[j]).key),
                forall|j: int| 0 <= j < index ==> rows[j] == batch_of(self@)[j],
            decreases self.queue.len() - index,
        {
            let sample = &self.queue[index];
            match self.key_ids.get(sample.key.as_str()) {
                Some(id) => {
                    rows.push(
                        NewMetric {
                            timestamp: sample.timestamp,
                            metric_key_id: *id,
                            value: sample.value,
                        },
                    );
                },
                None => {
                    proof {
                        assert(!self@.key_ids.contains_key(self@.queue[index as int].key));
                    }
                    return None;
                },
            }
            index += 1;
        }
        assert(rows@ =~= batch_of(self@));
        Some(rows)
    }

    /// Ends a flush when the monotonic clock reads `now`. `stored` says
    /// whether the store took the rows of `batch` in one transaction.
    ///
    /// Where it did, the queue is emptied and the flush clock restarts.
    /// Where it did not, nothing changes: the queue stays as it is and is
    /// tried again when the next flush is due.
    pub fn flush(&mut self, stored: bool, now: Span)
        ensures
            final(self)@ == after_flush(old(self)@, stored, now),
    {
        if stored {
            self.queue.clear();
            self.last_flush = now;
            assert(self.queue@.map_values(|sample: QueuedSample| sample@) =~= Seq::empty());
        }
    }

    /// Queues the next block of a bulk import: the rows from `from` up to
    /// where the block ends, which is returned. The queue is to be flushed
    /// after each block, so that a block is stored in one transaction.
    pub fn queue_rows(&mut self, rows: &Vec<ImportRow>, from: usize) -> (next: usize)
        ensures
            next == import_stop(rows.len() as nat, from as nat),
            from < rows.len() ==> final(self)@ == (WorkerModel {
                queue: old(self)@.queue + imported(rows@.subrange(from as int, next as int)),
                ..old(self)@
            }),
            from >= rows.len() ==> final(self)@ == old(self)@,
    {
        if from >= rows.len() {
            return from;
        }
        let room = IMPORT_FLUSH_ROWS - from % IMPORT_FLUSH_ROWS;
        let next = if rows.len() - from <= room {
            rows.len()
        } else {
            from + room
        };
        let mut index = from;
        assert(old(self)@.queue + imported(rows@.subrange(from as int, from as int)) =~= old(
            self,
        )@.queue);
        while index < next
            invariant
                from <= index <= next <= rows.len(),
                self@ == (WorkerModel {
                    queue: old(self)@.queue + imported(rows@.subrange(from as int, index as int)),
                    ..old(self)@
                }),
            decreases next - index,
        {
            let row = &rows[index];
            self.queue_metric(row.timestamp, row.key.as_str(), SampleValue::Scalar(row.value));
            assert(imported(rows@.subrange(from as int, index + 1)) =~= imported(
                rows@.subrange(from as int, index as int),
            ).push(
                QueuedSampleView {
                    timestamp: row.timestamp,
                    key: row.key@,
                    value: SampleValue::Scalar(row.value),
                },
            ));
            index += 1;
        }
        next
    }

    /// Number of samples that wait in the queue.
    pub fn queue_len(&self) -> (len: usize)
        ensures
            len == self@.queue.len(),
    {
        self.queue.len()
    }

    /// The total of the counter of this name; zero where it never moved.
    pub fn counter(&self, key: &str) -> (total: u64)
        ensures
            total == counter_total(self@, key@),
    {
        match self.counters.get(key) {
            Some(total) => *total,
            None => 0,
        }
    }

    /// The level of the gauge of this name; positive zero where it was
    /// never set.
    pub fn gauge(&self, key: &str) -> (level: Scalar)
        ensures
            level == gauge_level(self@, key@),
    {
        match self.last_values.get(key) {
            Some(level) => *level,
            None => Scalar::zero(),
        }
    }

    /// Moves a counter to `total` and queues a sample of that total.
    fn count(&mut self, timestamp: Span, key: String, total: u64)
        ensures
            final(self)@ == count(old(self)@, timestamp, key@, total),
    {
        self.queue_metric(timestamp, key.as_str(), SampleValue::Count(total));
        self.counters.insert(key, total);
    }

    /// Takes one input in, when the monotonic clock reads `now`, and says
    /// what is to follow.
    ///
    /// A counter event moves the counter's total and queues a sample of the
    /// new total; a total never passes the largest that it can show, and an
    /// absolute total never lowers it. A gauge that is set, and a histogram
    /// observation, queue a sample of the value given. A gauge that is
    /// raised or lowered changes nothing yet: the sum is asked of the
    /// surroundings, which send it back as a level to set. A registration or
    /// description asks for the key to be put into the store. New
    /// housekeeping settings take effect at once.
    ///
    /// A flush is directed after a timeout, a stop and a disconnection. It is
    /// directed after a sample was queued, and after a registration or
    /// description, where the queue is then due: the flush interval has
    /// passed since the last flush, or the queue has reached its limit. New
    /// housekeeping settings direct none, and a gauge that is raised or
    /// lowered directs none before its level has come back. The worker ends
    /// after a stop and after a disconnection.
    pub fn handle(&mut self, input: Input, now: Span) -> (directive: Directive)
        ensures
            final(self)@ == after_input(old(self)@, input, now),
            directive.flush == directs_flush(old(self)@, input, now),
            directive.exit == directs_exit(input),
            request_view(directive.request) == request_of(old(self)@, input),
    {
        match input {
            Input::Timeout => Directive { flush: true, exit: false, request: None },
            Input::Disconnected => Directive { flush: true, exit: true, request: None },
            Input::Event(event) => match event {
                Event::Stop => Directive { flush: true, exit: true, request: None },
                Event::RegisterKey(_, name) => Directive {
                    flush: self.should_flush(now),
                    exit: false,
                    request: Some(Request::UpsertKey { name, unit: None, description: None }),
                },
                Event::DescribeKey(_, name, unit, description) => Directive {
                    flush: self.should_flush(now),
                    exit: false,
                    request: Some(Request::UpsertKey { name, unit, description }),
                },
                Event::IncrementCounter(timestamp, key, delta) => {
                    let total = self.counter(key.as_str()).saturating_add(delta);
                    self.count(timestamp, key, total);
                    Directive { flush: self.should_flush(now), exit: false, request: None }
                },
                Event::AbsoluteCounter(timestamp, key, total) => {
                    let current = self.counter(key.as_str());
                    let raised = if current >= total {
                        current
                    } else {
                        total
                    };
                    self.count(timestamp, key, raised);
                    Directive { flush: self.should_flush(now), exit: false, request: None }
                },
                Event::UpdateGauge(timestamp, key, op) => match op {
                    GaugeOp::Absolute(level) => {
                        self.queue_metric(timestamp, key.as_str(), SampleValue::Scalar(level));
                        self.last_values.insert(key, level);
                        Directive { flush: self.should_flush(now), exit: false, request: None }
                    },
                    GaugeOp::Increment(operand) => {
                        let base = self.gauge(key.as_str());
                        Directive {
                            flush: false,
                            exit: false,
                            request: Some(
                                Request::CombineGauge {
                                    timestamp,
                                    key,
                                    base,
                                    operand,
                                    subtract: false,
                                },
                            ),
                        }
                    },
                    GaugeOp::Decrement(operand) => {
                        let base = self.gauge(key.as_str());
                        Directive {
                            flush: false,
                            exit: false,
                            request: Some(
                                Request::CombineGauge {
                                    timestamp,
                                    key,
                                    base,
                                    operand,
                                    subtract: true,
                                },
                            ),
                        }
                    },
                },
                Event::UpdateHistogram(timestamp, key, value) => {
                    self.queue_metric(timestamp, key.as_str(), SampleValue::Scalar(value));
                    Directive { flush: self.should_flush(now), exit: false, request: None }
                },
                Event::SetHousekeeping { retention_period, housekeeping_period, record_limit } => {
                    self.set_housekeeping(retention_period, housekeeping_period, record_limit, now);
                    Directive { flush: false, exit: false, request: None }
                },
            },
        }
    }
}

/// The state after a run of events, the `i`-th of which arrived when the
/// monotonic clock read `nows[i]`.
pub open spec fn after_events(m: WorkerModel, events: Seq<Event>, nows: Seq<Span>) -> WorkerModel
    decreases events.len(),
{
    if events.len() == 0 {
        m
    } else {
        after_event(
            after_events(m, events.drop_last(), nows),
            events.last(),
            nows[events.len() - 1],
        )
    }
}

/// The increments of the counter `key` among `events`, in their order: the
/// time and the amount of each.
pub open spec fn increments_of(events: Seq<Event>, key: Seq<char>) -> Seq<(Span, u64)>
    decreases events.len(),
{
    if events.len() == 0 {
        Seq::empty()
    } else {
        let before = increments_of(events.drop_last(), key);
        match events.last() {
            Event::IncrementCounter(timestamp, name, delta) => if name@ == key {
                before.push((timestamp, delta))
            } else {
                before
            },
            _ => before,
        }
    }
}

/// Whether the event reports an absolute total of the counter `key`.
pub open spec fn sets_total(event: Event, key: Seq<char>) -> bool {
    event matches Event::AbsoluteCounter(_, name, _) && name@ == key
}

/// Whether none of `events` reports an absolute total of the counter `key`.
pub open spec fn only_increments(events: Seq<Event>, key: Seq<char>) -> bool {
    forall|i: int| 0 <= i < events.len() ==> !sets_total(#[trigger] events[i], key)
}

/// The sum of the first `n` of the given increments.
pub open spec fn total_after(increments: Seq<(Span, u64)>, n: int) -> int
    decreases n,
{
    if n <= 0 {
        0
    } else {
        total_after(increments, n - 1) + increments[n - 1].1
    }
}

/// The test for a sample that shows a total of the counter `key`.
pub open spec fn shows_total(key: Seq<char>) -> spec_fn(QueuedSampleView) -> bool {
    |sample: QueuedSampleView| sample.key == key && sample.value is Count
}

/// The queued samples that show a total of the counter `key`, in the order
/// of the queue.
pub open spec fn counter_samples(queue: Seq<QueuedSampleView>, key: Seq<char>) -> Seq<
    QueuedSampleView,
> {
    queue.filter(shows_total(key))
}

/// The samples of the running totals of the given increments of the counter
/// `key`, which stood at `start` before: the `i`-th sample shows `start`
/// plus the sum of the first `i + 1` increments, at the time of the `i`-th.
pub open spec fn running_totals(start: u64, key: Seq<char>, increments: Seq<(Span, u64)>) -> Seq<
    QueuedSampleView,
> {
    Seq::new(
        increments.len(),
        |i: int|
            QueuedSampleView {
                timestamp: increments[i].0,
                key,
                value: SampleValue::Count((start + total_after(increments, i + 1)) as u64),
            },
    )
}

proof fn lemma_total_after_grows(increments: Seq<(Span, u64)>, n: int, k: int)
    requires
        0 <= n <= k,
    ensures
        0 <= total_after(increments, n) <= total_after(increments, k),
    decreases k,
{
    if n < k {
        lemma_total_after_grows(increments, n, k - 1);
    } else if n > 0 {
        lemma_total_after_grows(increments, n - 1, n - 1);
    }
}

proof fn lemma_total_after_of_prefix(
    increments: Seq<(Span, u64)>,
    shorter: Seq<(Span, u64)>,
    n: int,
)
    requires
        0 <= n <= shorter.len() <= increments.len(),
        forall|i: int| 0 <= i < shorter.len() ==> shorter[i] == increments[i],
    ensures
        total_after(shorter, n) == total_after(increments, n),
    decreases n,
{
    if n > 0 {
        lemma_total_after_of_prefix(increments, shorter, n - 1);
    }
}

/// What one more queued sample adds to the samples that show a total of the
/// counter `key`.
proof fn lemma_counter_samples_push(
    queue: Seq<QueuedSampleView>,
    sample: QueuedSampleView,
    key: Seq<char>,
)
    ensures
        counter_samples(queue.push(sample), key) == if sample.key == key && sample.value is Count {
            counter_samples(queue, key).push(sample)
        } else {
            counter_samples(queue, key)
        },
{
    reveal(Seq::filter);
    assert(queue.push(sample).drop_last() =~= queue);
}

/// What one more increment adds to the running totals.
proof fn lemma_running_totals_push(
    start: u64,
    key: Seq<char>,
    increments: Seq<(Span, u64)>,
    timestamp: Span,
    delta: u64,
)
    ensures
        running_totals(start, key, increments.push((timestamp, delta))) == running_totals(
            start,
            key,
            increments,
        ).push(
            QueuedSampleView {
                timestamp,
                key,
                value: SampleValue::Count(
                    (start + total_after(increments, increments.len() as int) + delta) as u64,
                ),
            },
        ),
{
    let longer = increments.push((timestamp, delta));
    let expected = running_totals(start, key, increments).push(
        QueuedSampleView {
            timestamp,
            key,
            value: SampleValue::Count(
                (start + total_after(increments, increments.len() as int) + delta) as u64,
            ),
        },
    );
    assert forall|i: int| 0 <= i < longer.len() implies #[trigger] running_totals(
        start,
        key,
        longer,
    )[i] == expected[i] by {
        if i < increments.len() {
            lemma_total_after_of_prefix(longer, increments, i + 1);
        } else {
            lemma_total_after_of_prefix(longer, increments, i);
        }
    }
    assert(running_totals(start, key, longer) =~= expected);
}

/// The samples that show a counter's total carry the running totals of the
/// counter's increments.
///
/// Take any run of events, of whatever metrics, among which the counter
/// `key` is only ever incremented, by amounts whose sum the counter can
/// still show. Then the samples that the run queues for the counter are, in
/// order, one for each increment, taken at the time of the increment, and
/// the `i`-th shows what the counter stood at before the run plus the sum
/// of the first `i + 1` increments. They stand behind the counter's samples
/// that were queued before the run, and the counter ends at the sum of all.
pub proof fn law_counter_samples_are_running_totals(
    m: WorkerModel,
    events: Seq<Event>,
    nows: Seq<Span>,
    key: Seq<char>,
)
    requires
        only_increments(events, key),
        counter_total(m, key) + total_after(
            increments_of(events, key),
            increments_of(events, key).len() as int,
        ) <= u64::MAX,
    ensures
        counter_total(after_events(m, events, nows), key) == counter_total(m, key) + total_after(
            increments_of(events, key),
            increments_of(events, key).len() as int,
        ),
        counter_samples(after_events(m, events, nows).queue, key) == counter_samples(m.queue, key)
            + running_totals(counter_total(m, key), key, increments_of(events, key)),
    decreases events.len(),
{
    let start = counter_total(m, key);
    let increments = increments_of(events, key);
    if events.len() == 0 {
        assert(counter_samples(m.queue, key) + running_totals(start, key, increments)
            =~= counter_samples(m.queue, key));
    } else {
        let earlier = events.drop_last();
        let last = events.last();
        let now = nows[events.len() - 1];
        let before = increments_of(earlier, key);
        let mid = after_events(m, earlier, nows);
        let end = after_events(m, events, nows);
        assert(end == after_event(mid, last, now));
        assert(only_increments(earlier, key)) by {
            assert forall|i: int| 0 <= i < earlier.len() implies !sets_total(
                #[trigger] earlier[i],
                key,
            ) by {
                assert(earlier[i] == events[i]);
            }
        }
        assert(!sets_total(events[events.len() - 1], key));
        assert(before.len() <= increments.len());
        assert forall|i: int| 0 <= i < before.len() implies before[i] == increments[i] by {}
        lemma_total_after_of_prefix(increments, before, before.len() as int);
        lemma_total_after_grows(increments, before.len() as int, increments.len() as int);
        law_counter_samples_are_running_totals(m, earlier, nows, key);
        let so_far = counter_samples(m.queue, key) + running_totals(start, key, before);
        match last {
            Event::IncrementCounter(timestamp, name, delta) => {
                let total = saturating_sum(counter_total(mid, name@), delta);
                let sample = QueuedSampleView {
                    timestamp,
                    key: name@,
                    value: SampleValue::Count(total),
                };
                assert(end.queue == mid.queue.push(sample));
                lemma_counter_samples_push(mid.queue, sample, key);
                if name@ == key {
                    assert(increments == before.push((timestamp, delta)));
                    lemma_running_totals_push(start, key, before, timestamp, delta);
                    assert(so_far.push(sample) =~= counter_samples(m.queue, key) + running_totals(
                        start,
                        key,
                        increments,
                    ));
                }
            },
            Event::AbsoluteCounter(timestamp, name, total) => {
                let sample = QueuedSampleView {
                    timestamp,
                    key: name@,
                    value: SampleValue::Count(larger(counter_total(mid, name@), total)),
                };
                assert(end.queue == mid.queue.push(sample));
                lemma_counter_samples_push(mid.queue, sample, key);
            },
            Event::UpdateGauge(timestamp, name, GaugeOp::Absolute(level)) => {
                let sample = QueuedSampleView {
                    timestamp,
                    key: name@,
                    value: SampleValue::Scalar(level),
                };
                assert(end.queue == mid.queue.push(sample));
                lemma_counter_samples_push(mid.queue, sample, key);
            },
            Event::UpdateHistogram(timestamp, name, value) => {
                let sample = QueuedSampleView {
                    timestamp,
                    key: name@,
                    value: SampleValue::Scalar(value),
                };
                assert(end.queue == mid.queue.push(sample));
                lemma_counter_samples_push(mid.queue, sample, key);
            },
            _ => {},
        }
    }
}

/// No event lowers the total of any counter.
pub proof fn law_counters_never_decrease(m: WorkerModel, event: Event, now: Span, key: Seq<char>)
    ensures
        counter_total(after_event(m, event, now), key) >= counter_total(m, key),
{
}

/// Setting a gauge to a level makes that level the gauge's state and the
/// value of the sample queued, whatever the gauge stood at before; no other
/// gauge moves.
pub proof fn law_absolute_resets_gauge(
    m: WorkerModel,
    timestamp: Span,
    key: String,
    level: Scalar,
    now: Span,
)
    ensures
        ({
            let end = after_event(m, Event::UpdateGauge(timestamp, key, GaugeOp::Absolute(level)), now);
            &&& gauge_level(end, key@) == level
            &&& end.queue == m.queue.push(
                QueuedSampleView { timestamp, key: key@, value: SampleValue::Scalar(level) },
            )
            &&& forall|other: Seq<char>| other != key@ ==> gauge_level(end, other) == gauge_level(m, other)
        }),
{
}

/// Raising or lowering a gauge leaves the worker's state as it is and asks
/// for the sum of the gauge's present level and the amount given.
pub proof fn law_relative_gauge_asks_for_sum(
    m: WorkerModel,
    timestamp: Span,
    key: String,
    amount: Scalar,
    now: Span,
)
    ensures
        after_event(m, Event::UpdateGauge(timestamp, key, GaugeOp::Increment(amount)), now) == m,
        after_event(m, Event::UpdateGauge(timestamp, key, GaugeOp::Decrement(amount)), now) == m,
        request_of(m, Input::Event(Event::UpdateGauge(timestamp, key, GaugeOp::Increment(amount))))
            == Some(
            RequestView::CombineGauge {
                timestamp,
                key: key@,
                base: gauge_level(m, key@),
                operand: amount,
                subtract: false,
            },
        ),
        request_of(m, Input::Event(Event::UpdateGauge(timestamp, key, GaugeOp::Decrement(amount))))
            == Some(
            RequestView::CombineGauge {
                timestamp,
                key: key@,
                base: gauge_level(m, key@),
                operand: amount,
                subtract: true,
            },
        ),
{
}

/// A registration and a description change nothing in the worker, so that
/// repeating one does no harm: each asks for the same key to be put into
/// the store, and neither ends the worker.
pub proof fn law_registration_is_idempotent(m: WorkerModel, event: Event, now: Span)
    requires
        upserts_key(event),
    ensures
        after_event(m, event, now) == m,
        request_of(after_event(m, event, now), Input::Event(event)) == request_of(
            m,
            Input::Event(event),
        ),
        request_of(m, Input::Event(event)) is Some,
        !directs_exit(Input::Event(event)),
{
}

/// An event that queues a sample, a registration and a description direct
/// a flush exactly when, once the event has been taken in, the flush
/// interval has passed since the last flush or the queue has reached its
/// limit. A timeout always directs one. So no sample waits in the queue
/// past the first such input that arrives more than the flush interval after
/// the last flush, and none waits once the queue is full.
pub proof fn law_flush_triggers(m: WorkerModel, event: Event, now: Span)
    requires
        weighs_flush(event),
    ensures
        after_event(m, event, now).queue.len() == m.queue.len() + if queues_sample(event) {
            1int
        } else {
            0int
        },
        after_event(m, event, now).last_flush == m.last_flush,
        after_event(m, event, now).flush_duration == m.flush_duration,
        directs_flush(m, Input::Event(event), now) <==> (elapsed_between(m.last_flush, now)
            > m.flush_duration@ || after_event(m, event, now).queue.len() >= FLUSH_QUEUE_LIMIT),
        directs_flush(m, Input::Timeout, now),
{
}

/// New housekeeping settings direct no flush, and neither does a gauge that
/// is raised or lowered before its level has come back.
pub proof fn law_no_flush_without_obligation(m: WorkerModel, event: Event, now: Span)
    requires
        event is SetHousekeeping || event matches Event::UpdateGauge(_, _, GaugeOp::Increment(_))
            || event matches Event::UpdateGauge(_, _, GaugeOp::Decrement(_)),
    ensures
        !directs_flush(m, Input::Event(event), now),
        !directs_exit(Input::Event(event)),
{
}

/// A queue that was below its limit is below it again once the input has
/// been taken in and the flush that it directs, if any, has been taken by
/// the store: the queue never holds more than the limit between two
/// inputs.
pub proof fn law_queue_stays_below_limit(m: WorkerModel, input: Input, now: Span, later: Span)
    requires
        m.queue.len() < FLUSH_QUEUE_LIMIT,
    ensures
        ({
            let taken = after_input(m, input, now);
            let end = if directs_flush(m, input, now) {
                after_flush(taken, true, later)
            } else {
                taken
            };
            &&& taken.queue.len() <= FLUSH_QUEUE_LIMIT
            &&& end.queue.len() < FLUSH_QUEUE_LIMIT
        }),
{
}

/// A stop, and a disconnection, leave the queue as it is, direct a flush
/// and end the worker; the flush inserts one row for each queued sample, in
/// the order of the queue, with the sample's time and value, and leaves the
/// queue empty. Nothing that was queued before the stop is lost.
pub proof fn law_stop_flushes_every_sample(m: WorkerModel, now: Span, later: Span)
    ensures
        after_input(m, Input::Event(Event::Stop), now) == m,
        after_input(m, Input::Disconnected, now) == m,
        directs_flush(m, Input::Event(Event::Stop), now) && directs_exit(Input::Event(Event::Stop)),
        directs_flush(m, Input::Disconnected, now) && directs_exit(Input::Disconnected),
        batch_of(m).len() == m.queue.len(),
        forall|i: int|
            0 <= i < m.queue.len() ==> (#[trigger] batch_of(m)[i]).timestamp == m.queue[i].timestamp
                && batch_of(m)[i].value == m.queue[i].value && batch_of(m)[i].metric_key_id
                == m.key_ids[m.queue[i].key],
        flushed(m, later).queue.len() == 0,
{
}

/// A worker followed over a run of inputs: its state, the samples that
/// were stored so far, and every sample that was ever queued, both in the
/// order of their queueing.
#[verifier::ext_equal]
pub struct Run {
    pub state: WorkerModel,
    pub persisted: Seq<QueuedSampleView>,
    pub history: Seq<QueuedSampleView>,
}

/// The samples that an input puts into the queue: one or none.
pub open spec fn queued_by(m: WorkerModel, input: Input, now: Span) -> Seq<QueuedSampleView> {
    after_input(m, input, now).queue.skip(m.queue.len() as int)
}

/// One turn of the worker's loop: the input is taken in, and where it
/// directs a flush the queue is handed to the store and the flush is ended.
/// `stored` says whether the store took the rows; where it did not, the
/// queue stays.
pub open spec fn turn(run: Run, input: Input, now: Span, stored: bool) -> Run {
    let taken = after_input(run.state, input, now);
    let history = run.history + queued_by(run.state, input, now);
    if directs_flush(run.state, input, now) {
        Run {
            state: after_flush(taken, stored, now),
            persisted: if stored {
                run.persisted + taken.queue
            } else {
                run.persisted
            },
            history,
        }
    } else {
        Run { state: taken, persisted: run.persisted, history }
    }
}

/// The turns of the worker's loop over a run of inputs, the `i`-th of which
/// arrived at `nows[i]` and found the store as `stored[i]` says.
pub open spec fn turns(start: Run, inputs: Seq<Input>, nows: Seq<Span>, stored: Seq<bool>) -> Run
    decreases inputs.len(),
{
    if inputs.len() == 0 {
        start
    } else {
        turn(
            turns(start, inputs.drop_last(), nows, stored),
            inputs.last(),
            nows[inputs.len() - 1],
            stored[inputs.len() - 1],
        )
    }
}

/// A worker at the start of a run: nothing was stored yet, and what waits in
/// the queue is all that was ever queued.
pub open spec fn starting(m: WorkerModel) -> Run {
    Run { state: m, persisted: Seq::empty(), history: m.queue }
}

/// An input leaves what was queued before in its place.
proof fn lemma_input_appends(m: WorkerModel, input: Input, now: Span)
    ensures
        after_input(m, input, now).queue == m.queue + queued_by(m, input, now),
{
    let taken = after_input(m, input, now);
    assert(taken.queue.len() >= m.queue.len());
    assert(taken.queue =~= m.queue + taken.queue.skip(m.queue.len() as int));
}

/// No sample is lost, stored twice or stored out of order: at every point of
/// a run the samples that were stored, followed by those that still wait in
/// the queue, are the samples that were queued, in the order of their
/// queueing. This holds whether or not the store took every flush.
///
/// A run that ends with a stop or a disconnection whose flush the store took
/// leaves nothing in the queue: every sample that was ever queued is
/// stored.
pub proof fn law_every_sample_is_stored_once(
    m: WorkerModel,
    inputs: Seq<Input>,
    nows: Seq<Span>,
    stored: Seq<bool>,
)
    ensures
        ({
            let end = turns(starting(m), inputs, nows, stored);
            &&& end.persisted + end.state.queue == end.history
            &&& inputs.len() > 0 && directs_exit(inputs.last()) && stored[inputs.len() - 1] ==> {
                &&& end.state.queue.len() == 0
                &&& end.persisted == end.history
            }
        }),
    decreases inputs.len(),
{
    let end = turns(starting(m), inputs, nows, stored);
    if inputs.len() == 0 {
        assert(end.persisted + end.state.queue =~= end.history);
    } else {
        let before = turns(starting(m), inputs.drop_last(), nows, stored);
        let input = inputs.last();
        let now = nows[inputs.len() - 1];
        law_every_sample_is_stored_once(m, inputs.drop_last(), nows, stored);
        lemma_input_appends(before.state, input, now);
        assert(end == turn(before, input, now, stored[inputs.len() - 1]));
        assert(end.persisted + end.state.queue =~= end.history);
        if directs_exit(input) && stored[inputs.len() - 1] {
            assert(directs_flush(before.state, input, now));
            assert(end.persisted =~= end.history);
        }
    }
}

/// The blocks of a bulk import cover the rows one after the other: a block
/// that starts before the end holds at least one row and at most the block
/// size, and ends at a multiple of the block size or at the end of the rows.
pub proof fn law_import_blocks(rows: nat, from: nat)
    requires
        from < rows,
    ensures
        from < import_stop(rows, from) <= rows,
        import_stop(rows, from) - from <= IMPORT_FLUSH_ROWS,
        import_stop(rows, from) == rows || import_stop(rows, from) % (IMPORT_FLUSH_ROWS as nat) == 0,
{
}

} // verus!

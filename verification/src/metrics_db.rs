//! The query layer: sessions, the samples of a key, and their rate of
//! change, all answered from the rows that the store has returned.

use crate::error::{MetricsError, MetricsErrorView};
use crate::models::{first_named, none_named, Metric, MetricKey, Scalar};
use crate::time::{elapsed_between, Span};
use vstd::prelude::*;
use vstd::string::StringExecFns;

verus! {

/// Two samples further apart than this, in nanoseconds, belong to different
/// sessions: thirty seconds.
pub const SESSION_TIME_GAP_THRESHOLD: u128 = 30_000_000_000;

/// A stretch of samples with no gap longer than the threshold between two
/// neighbours.
#[derive(Clone, Copy, Debug, PartialEq, Eq, Structural)]
pub struct Session {
    /// Time of the session's first sample.
    pub start_time: Span,
    /// Time of the session's last sample.
    pub end_time: Span,
    /// Time from the first sample to the last.
    pub duration: Span,
}

/// The session from `start_time` to `end_time`.
pub open spec fn session_between(start_time: Span, end_time: Span) -> Session {
    Session {
        start_time,
        end_time,
        duration: Span { nanos: (end_time.nanos - start_time.nanos) as u128 },
    }
}

impl Session {
    /// The session from `start_time` to `end_time`, with its duration.
    pub fn new(start_time: Span, end_time: Span) -> (session: Session)
        requires
            start_time@ <= end_time@,
        ensures
            session == session_between(start_time, end_time),
    {
        Session {
            start_time,
            end_time,
            duration: Span { nanos: end_time.nanos - start_time.nanos },
        }
    }

    /// Whether a sample taken at `timestamp` lies in the session, both ends
    /// included.
    pub open spec fn spec_contains(&self, timestamp: Span) -> bool {
        self.start_time@ <= timestamp@ <= self.end_time@
    }

    /// Whether a sample taken at `timestamp` lies in the session, both ends
    /// included.
    #[verifier::when_used_as_spec(spec_contains)]
    pub fn contains(&self, timestamp: Span) -> (inside: bool)
        ensures
            inside == self.spec_contains(timestamp),
    {
        self.start_time.nanos <= timestamp.nanos && timestamp.nanos <= self.end_time.nanos
    }
}

/// What a store is told whose samples do not come in ascending order of
/// time.
pub const OUT_OF_ORDER: &'static str = "samples are not in ascending order of time";

/// Why sample times cannot be cut into sessions: there are none, or they do
/// not ascend.
pub open spec fn refusal_of(timestamps: Seq<Span>) -> MetricsErrorView {
    if timestamps.len() == 0 {
        MetricsErrorView::EmptyDatabase
    } else {
        MetricsErrorView::QueryError(OUT_OF_ORDER@)
    }
}

/// Whether no time is followed by an earlier one.
pub open spec fn ascending(timestamps: Seq<Span>) -> bool {
    forall|i: int, j: int| 0 <= i <= j < timestamps.len() ==> timestamps[i]@ <= timestamps[j]@
}

/// The times of the given samples.
pub open spec fn times_of(samples: Seq<Metric>) -> Seq<Span> {
    samples.map_values(|sample: Metric| sample.timestamp)
}

/// The sessions of samples taken at the given ascending times.
///
/// The first time opens the first session. Each further time either
/// extends the last session to itself or, where it lies more than the
/// threshold after its predecessor, opens a new session.
pub open spec fn sessions_of(timestamps: Seq<Span>) -> Seq<Session>
    decreases timestamps.len(),
{
    if timestamps.len() == 0 {
        Seq::empty()
    } else if timestamps.len() == 1 {
        seq![session_between(timestamps[0], timestamps[0])]
    } else {
        let before = sessions_of(timestamps.drop_last());
        let previous = timestamps[timestamps.len() - 2];
        let last = timestamps.last();
        if last@ - previous@ > SESSION_TIME_GAP_THRESHOLD {
            before.push(session_between(last, last))
        } else {
            before.drop_last().push(session_between(before.last().start_time, last))
        }
    }
}

/// Whether a sample belongs to the key `key_id` and, where a session is
/// given, lies in it.
pub open spec fn selected(sample: Metric, key_id: i64, session: Option<&Session>) -> bool {
    sample.metric_key_id == key_id && match session {
        Some(within) => within.spec_contains(sample.timestamp),
        None => true,
    }
}

/// The test that `selected` makes for a key and a session.
pub open spec fn selector(key_id: i64, session: Option<&Session>) -> spec_fn(Metric) -> bool {
    |sample: Metric| selected(sample, key_id, session)
}

/// The samples of the key `key_id`, within the session where one is given,
/// in the order in which `samples` holds them.
pub open spec fn samples_of_key(samples: Seq<Metric>, key_id: i64, session: Option<&Session>) -> Seq<
    Metric,
> {
    samples.filter(selector(key_id, session))
}

/// One step of a derived series: the change between two neighbouring
/// samples of a key.
///
/// The rate of change over the step is `(to_value - from_value) / elapsed`.
/// The division is left to the reader of the step, who can compute on
/// scalars.
#[derive(Debug, PartialEq, Eq)]
pub struct DerivMetric {
    /// Time of the later sample.
    pub timestamp: Span,
    /// Name of the derived series: the key's name with `.deriv` behind it.
    pub key: String,
    /// Value of the earlier sample.
    pub from_value: Scalar,
    /// Value of the later sample.
    pub to_value: Scalar,
    /// Time from the earlier sample to the later.
    pub elapsed: Span,
}

/// A derived step with its name as a sequence of characters.
pub struct DerivMetricView {
    pub timestamp: Span,
    pub key: Seq<char>,
    pub from_value: Scalar,
    pub to_value: Scalar,
    pub elapsed: Span,
}

impl View for DerivMetric {
    type V = DerivMetricView;

    open spec fn view(&self) -> DerivMetricView {
        DerivMetricView {
            timestamp: self.timestamp,
            key: self.key@,
            from_value: self.from_value,
            to_value: self.to_value,
            elapsed: self.elapsed,
        }
    }
}

/// The derived series of the given samples of the key `key_name`: one step
/// for each pair of neighbours, stamped with the time of the later one.
pub open spec fn derivative_of(samples: Seq<Metric>, key_name: Seq<char>) -> Seq<DerivMetricView> {
    Seq::new(
        if samples.len() > 0 {
            (samples.len() - 1) as nat
        } else {
            0
        },
        |i: int|
            DerivMetricView {
                timestamp: samples[i + 1].timestamp,
                key: key_name + ".deriv"@,
                from_value: samples[i].value,
                to_value: samples[i + 1].value,
                elapsed: Span {
                    nanos: elapsed_between(samples[i].timestamp, samples[i + 1].timestamp) as u128,
                },
            },
    )
}

/// A sample with the name of its metric key, as a bulk export writes it.
#[derive(Debug, PartialEq, Eq)]
pub struct JoinedMetric {
    /// Identifier that the store gave the sample.
    pub id: i64,
    /// When the sample was taken, since the epoch.
    pub timestamp: Span,
    /// Name of the sample's metric.
    pub key: String,
    /// Value of the sample.
    pub value: Scalar,
}

/// A joined sample with its name as a sequence of characters.
pub struct JoinedMetricView {
    pub id: i64,
    pub timestamp: Span,
    pub key: Seq<char>,
    pub value: Scalar,
}

impl View for JoinedMetric {
    type V = JoinedMetricView;

    open spec fn view(&self) -> JoinedMetricView {
        JoinedMetricView {
            id: self.id,
            timestamp: self.timestamp,
            key: self.key@,
            value: self.value,
        }
    }
}

/// The name of the first of `keys` that has the identifier `id`.
pub open spec fn name_of_key(keys: Seq<MetricKey>, id: i64) -> Option<Seq<char>>
    decreases keys.len(),
{
    if keys.len() == 0 {
        None
    } else if keys[0].id == id {
        Some(keys[0].key@)
    } else {
        name_of_key(keys.drop_first(), id)
    }
}

/// The join of one sample with `keys`: the sample under the name of its
/// key, or nothing where no key has the sample's key identifier.
pub open spec fn join_with(keys: Seq<MetricKey>) -> spec_fn(Metric) -> Option<JoinedMetricView> {
    |sample: Metric|
        match name_of_key(keys, sample.metric_key_id) {
            Some(name) => Some(
                JoinedMetricView {
                    id: sample.id,
                    timestamp: sample.timestamp,
                    key: name,
                    value: sample.value,
                },
            ),
            None => None,
        }
}

/// The samples joined with their keys, in the order of the samples; a
/// sample without a key is left out.
pub open spec fn export_of(samples: Seq<Metric>, keys: Seq<MetricKey>) -> Seq<JoinedMetricView> {
    samples.filter_map(join_with(keys))
}

/// The given joined samples, each by its view.
pub open spec fn joined_views(rows: Seq<JoinedMetric>) -> Seq<JoinedMetricView> {
    rows.map_values(|row: JoinedMetric| row@)
}

/// Whether `name` is among `names`.
pub open spec fn listed(names: Seq<String>, name: Seq<char>) -> bool {
    exists|i: int| 0 <= i < names.len() && (#[trigger] names[i])@ == name
}

/// The given steps, each by its view.
pub open spec fn deriv_views(steps: Seq<DerivMetric>) -> Seq<DerivMetricView> {
    steps.map_values(|step: DerivMetric| step@)
}

/// The query layer's view of a store: the sessions of the samples that the
/// store held when it was opened, and the metric keys and samples that it
/// held when it was last read.
pub struct MetricsDb {
    keys: Vec<MetricKey>,
    metrics: Vec<Metric>,
    sessions: Vec<Session>,
    opened: Ghost<Seq<Span>>,
}

impl MetricsDb {
    #[verifier::type_invariant]
    spec fn well_formed(self) -> bool {
        &&& ascending(times_of(self.metrics@))
        &&& self.opened@.len() > 0
        &&& ascending(self.opened@)
        &&& self.sessions@ == sessions_of(self.opened@)
    }

    /// The metric keys that the store held when it was last read.
    pub closed spec fn keys(&self) -> Seq<MetricKey> {
        self.keys@
    }

    /// The samples that the store held when it was last read, oldest first.
    pub closed spec fn samples(&self) -> Seq<Metric> {
        self.metrics@
    }

    /// The times of the samples that the store held when it was opened, in
    /// ascending order.
    pub closed spec fn opened_times(&self) -> Seq<Span> {
        self.opened@
    }

    /// The times of the given samples.
    fn times(metrics: &Vec<Metric>) -> (timestamps: Vec<Span>)
        ensures
            timestamps@ == times_of(metrics@),
    {
        let mut timestamps: Vec<Span> = Vec::new();
        let mut index: usize = 0;
        while index < metrics.len()
            invariant
                index <= metrics.len(),
                timestamps@ == times_of(metrics@).subrange(0, index as int),
            decreases metrics.len() - index,
        {
            timestamps.push(metrics[index].timestamp);
            index += 1;
            assert(timestamps@ =~= times_of(metrics@).subrange(0, index as int));
        }
        assert(timestamps@ =~= times_of(metrics@));
        timestamps
    }

    /// Whether no time is followed by an earlier one.
    fn is_ascending(timestamps: &Vec<Span>) -> (sorted: bool)
        ensures
            sorted == ascending(timestamps@),
    {
        let mut index: usize = 1;
        while index < timestamps.len()
            invariant
                1 <= index,
                forall|i: int, j: int|
                    0 <= i <= j < index && j < timestamps.len() ==> timestamps[i]@
                        <= timestamps[j]@,
            decreases timestamps.len() - index,
        {
            if timestamps[index - 1].nanos > timestamps[index].nanos {
                return false;
            }
            index += 1;
        }
        true
    }

    /// Opens the query layer on what the store holds: its metric keys, and
    /// its samples in ascending order of time.
    ///
    /// A store without samples is refused with `EmptyDatabase`, and samples
    /// out of order with `QueryError`.
    pub fn new(keys: Vec<MetricKey>, metrics: Vec<Metric>) -> (db: Result<MetricsDb, MetricsError>)
        ensures
            match db {
                Ok(opened) => metrics.len() > 0 && ascending(times_of(metrics@)) && opened.keys()
                    == keys@ && opened.samples() == metrics@ && opened.opened_times() == times_of(
                    metrics@,
                ),
                Err(e) => e@ == refusal_of(times_of(metrics@)),
            },
            db is Err <==> metrics.len() == 0 || !ascending(times_of(metrics@)),
    {
        let timestamps = Self::times(&metrics);
        match Self::process_sessions(&timestamps) {
            Ok(sessions) => Ok(
                MetricsDb { keys, metrics, sessions, opened: Ghost(times_of(metrics@)) },
            ),
            Err(e) => Err(e),
        }
    }

    /// Reads the store again: takes in the metric keys and the samples, in
    /// ascending order of time, that the store holds now. The sessions stay
    /// those of the samples that the store held when it was opened.
    ///
    /// A store that has lost all its samples since is taken in as it is.
    /// Samples out of order are refused with `QueryError`, and the keys and
    /// samples of the last reading stay.
    pub fn refresh(&mut self, keys: Vec<MetricKey>, metrics: Vec<Metric>) -> (taken: Result<(), MetricsError>)
        ensures
            final(self).opened_times() == old(self).opened_times(),
            match taken {
                Ok(_) => {
                    &&& ascending(times_of(metrics@))
                    &&& final(self).keys() == keys@
                    &&& final(self).samples() == metrics@
                },
                Err(e) => {
                    &&& !ascending(times_of(metrics@))
                    &&& e@ == MetricsErrorView::QueryError(OUT_OF_ORDER@)
                    &&& final(self).keys() == old(self).keys()
                    &&& final(self).samples() == old(self).samples()
                },
            },
    {
        let timestamps = Self::times(&metrics);
        if !Self::is_ascending(&timestamps) {
            return Err(MetricsError::QueryError(String::from_str(OUT_OF_ORDER)));
        }
        proof {
            use_type_invariant(&*self);
        }
        self.keys = keys;
        self.metrics = metrics;
        Ok(())
    }

    /// The sessions of the samples that the store held when it was opened,
    /// oldest first.
    pub fn sessions(&self) -> (sessions: Vec<Session>)
        ensures
            sessions@ == sessions_of(self.opened_times()),
            partitions(self.opened_times(), sessions@),
    {
        proof {
            use_type_invariant(self);
            law_sessions_partition(self.opened@);
        }
        let mut copy: Vec<Session> = Vec::new();
        let mut index: usize = 0;
        while index < self.sessions.len()
            invariant
                index <= self.sessions.len(),
                copy@ == self.sessions@.subrange(0, index as int),
            decreases self.sessions.len() - index,
        {
            copy.push(self.sessions[index]);
            index += 1;
            assert(copy@ =~= self.sessions@.subrange(0, index as int));
        }
        assert(copy@ =~= self.sessions@);
        copy
    }

    /// Cuts ascending sample times into sessions.
    ///
    /// No times at all are refused with `EmptyDatabase`, and times out of
    /// order with `QueryError`.
    pub fn process_sessions(timestamps: &Vec<Span>) -> (sessions: Result<Vec<Session>, MetricsError>)
        ensures
            match sessions {
                Ok(found) => timestamps.len() > 0 && ascending(timestamps@) && found@
                    == sessions_of(timestamps@) && partitions(timestamps@, found@),
                Err(e) => e@ == refusal_of(timestamps@),
            },
            sessions is Err <==> timestamps.len() == 0 || !ascending(timestamps@),
    {
        if timestamps.len() == 0 {
            return Err(MetricsError::EmptyDatabase);
        }
        if !Self::is_ascending(timestamps) {
            return Err(MetricsError::QueryError(String::from_str(OUT_OF_ORDER)));
        }
        proof {
            law_sessions_partition(timestamps@);
        }
        let mut sessions: Vec<Session> = Vec::new();
        let mut current_start = timestamps[0];
        let mut index: usize = 1;
        assert(timestamps@.subrange(0, 1).len() == 1);
        assert(sessions_of(timestamps@.subrange(0, 1)) =~= sessions@.push(
            session_between(current_start, timestamps[0]),
        ));
        while index < timestamps.len()
            invariant
                1 <= index <= timestamps.len(),
                ascending(timestamps@),
                current_start@ <= timestamps[index - 1]@,
                sessions_of(timestamps@.subrange(0, index as int)) == sessions@.push(
                    session_between(current_start, timestamps[index - 1]),
                ),
            decreases timestamps.len() - index,
        {
            let previous = timestamps[index - 1];
            let current = timestamps[index];
            proof {
                let shorter = timestamps@.subrange(0, index as int);
                let longer = timestamps@.subrange(0, index + 1);
                assert(longer.drop_last() =~= shorter);
                assert(longer.last() == current);
                assert(longer[longer.len() - 2] == previous);
                assert(sessions@.push(session_between(current_start, previous)).drop_last()
                    =~= sessions@);
            }
            if current.nanos - previous.nanos > SESSION_TIME_GAP_THRESHOLD {
                sessions.push(Session::new(current_start, previous));
                current_start = current;
            }
            index += 1;
        }
        assert(timestamps@.subrange(0, index as int) =~= timestamps@);
        sessions.push(Session::new(current_start, timestamps[index - 1]));
        Ok(sessions)
    }

    /// The names of the store's metric keys, each once.
    pub fn available_keys(&self) -> (names: Vec<String>)
        ensures
            forall|i: int, j: int| 0 <= i < j < names.len() ==> names[i]@ != names[j]@,
            forall|i: int|
                0 <= i < names.len() ==> !none_named(self.keys(), (#[trigger] names[i])@),
            forall|k: int|
                0 <= k < self.keys().len() ==> listed(names@, (#[trigger] self.keys()[k]).key@),
    {
        let mut names: Vec<String> = Vec::new();
        let mut index: usize = 0;
        while index < self.keys.len()
            invariant
                index <= self.keys.len(),
                forall|i: int, j: int| 0 <= i < j < names.len() ==> names[i]@ != names[j]@,
                forall|i: int|
                    0 <= i < names.len() ==> !none_named(self.keys@, (#[trigger] names[i])@),
                forall|k: int| 0 <= k < index ==> listed(names@, (#[trigger] self.keys@[k]).key@),
            decreases self.keys.len() - index,
        {
            let name = &self.keys[index].key;
            let mut seen = false;
            let mut at: usize = 0;
            while at < names.len()
                invariant
                    at <= names.len(),
                    seen ==> listed(names@, name@),
                    !seen ==> forall|i: int| 0 <= i < at ==> (#[trigger] names[i])@ != name@,
                decreases names.len() - at,
            {
                if names[at] == *name {
                    seen = true;
                }
                at += 1;
            }
            if !seen {
                let ghost before = names@;
                names.push(name.clone());
                proof {
                    let last = names.len() - 1;
                    assert(names[last]@ == self.keys@[index as int].key@);
                    assert forall|k: int| 0 <= k <= index implies listed(
                        names@,
                        (#[trigger] self.keys@[k]).key@,
                    ) by {
                        if k < index {
                            let i = choose|i: int|
                                0 <= i < before.len() && (#[trigger] before[i])@
                                    == self.keys@[k].key@;
                            assert(names[i] == before[i]);
                        }
                    }
                }
            }
            index += 1;
        }
        names
    }

    /// The name of the first metric key that has the identifier `id`.
    fn key_name(&self, id: i64) -> (name: Option<String>)
        ensures
            match name {
                Some(text) => name_of_key(self.keys(), id) == Some(text@),
                None => name_of_key(self.keys(), id).is_none(),
            },
    {
        let mut index: usize = 0;
        assert(self.keys@.subrange(0, self.keys@.len() as int) =~= self.keys@);
        while index < self.keys.len()
            invariant
                index <= self.keys.len(),
                name_of_key(self.keys@, id) == name_of_key(
                    self.keys@.subrange(index as int, self.keys@.len() as int),
                    id,
                ),
            decreases self.keys.len() - index,
        {
            proof {
                let rest = self.keys@.subrange(index as int, self.keys@.len() as int);
                assert(rest[0] == self.keys@[index as int]);
                assert(rest.drop_first() =~= self.keys@.subrange(
                    index + 1,
                    self.keys@.len() as int,
                ));
            }
            if self.keys[index].id == id {
                return Some(self.keys[index].key.clone());
            }
            index += 1;
        }
        None
    }

    /// Every sample with the name of its metric key, oldest first, as a
    /// bulk export writes them. A sample whose key the store does not hold
    /// is left out.
    pub fn export_rows(&self) -> (rows: Vec<JoinedMetric>)
        ensures
            joined_views(rows@) == export_of(self.samples(), self.keys()),
    {
        let mut rows: Vec<JoinedMetric> = Vec::new();
        let mut index: usize = 0;
        assert(self.metrics@.subrange(0, 0) =~= Seq::<Metric>::empty());
        assert(joined_views(rows@) =~= Seq::<JoinedMetricView>::empty());
        while index < self.metrics.len()
            invariant
                index <= self.metrics.len(),
                joined_views(rows@) == export_of(
                    self.metrics@.subrange(0, index as int),
                    self.keys@,
                ),
            decreases self.metrics.len() - index,
        {
            let sample = self.metrics[index];
            proof {
                let shorter = self.metrics@.subrange(0, index as int);
                let longer = self.metrics@.subrange(0, index + 1);
                assert(longer.drop_last() =~= shorter);
                assert(longer.last() == sample);
            }
            match self.key_name(sample.metric_key_id) {
                Some(name) => {
                    let ghost before = rows@;
                    let row = JoinedMetric {
                        id: sample.id,
                        timestamp: sample.timestamp,
                        key: name,
                        value: sample.value,
                    };
                    rows.push(row);
                    assert(joined_views(rows@) =~= joined_views(before) + seq![row@]);
                },
                None => {},
            }
            index += 1;
        }
        assert(self.metrics@.subrange(0, index as int) =~= self.metrics@);
        rows
    }

    /// The samples of the key `key_id`, within the session where one is
    /// given, oldest first.
    fn select(&self, key_id: i64, session: Option<&Session>) -> (rows: Vec<Metric>)
        ensures
            rows@ == samples_of_key(self.samples(), key_id, session),
            ascending(times_of(rows@)),
    {
        proof {
            use_type_invariant(self);
            reveal(Seq::filter);
        }
        let mut rows: Vec<Metric> = Vec::new();
        let mut index: usize = 0;
        assert(self.metrics@.subrange(0, 0) =~= Seq::<Metric>::empty());
        while index < self.metrics.len()
            invariant
                index <= self.metrics.len(),
                ascending(times_of(self.metrics@)),
                rows@ == self.metrics@.subrange(0, index as int).filter(selector(key_id, session)),
                ascending(times_of(rows@)),
                rows.len() > 0 ==> exists|k: int|
                    0 <= k < index && rows[rows.len() - 1] == #[trigger] self.metrics[k],
            decreases self.metrics.len() - index,
        {
            let sample = self.metrics[index];
            let inside = match session {
                Some(within) => within.contains(sample.timestamp),
                None => true,
            };
            proof {
                reveal(Seq::filter);
                let shorter = self.metrics@.subrange(0, index as int);
                let longer = self.metrics@.subrange(0, index + 1);
                assert(longer.drop_last() =~= shorter);
                assert(longer.last() == sample);
            }
            if sample.metric_key_id == key_id && inside {
                proof {
                    if rows.len() > 0 {
                        let k = choose|k: int|
                            0 <= k < index && rows[rows.len() - 1] == #[trigger] self.metrics[k];
                        let times = times_of(self.metrics@);
                        assert(times[k]@ <= times[index as int]@);
                    }
                }
                let ghost before = rows@;
                rows.push(sample);
                proof {
                    assert(rows[rows.len() - 1] == self.metrics[index as int]);
                    assert forall|i: int, j: int| 0 <= i <= j < rows.len() implies times_of(
                        rows@,
                    )[i]@ <= times_of(rows@)[j]@ by {
                        let old_times = times_of(before);
                        if j < before.len() {
                            assert(old_times[i]@ <= old_times[j]@);
                        } else if i < before.len() {
                            assert(old_times[i]@ <= old_times[before.len() - 1]@);
                        }
                    }
                }
            }
            index += 1;
        }
        assert(self.metrics@.subrange(0, index as int) =~= self.metrics@);
        rows
    }

    /// The samples of the key named `key_name`, oldest first; where a
    /// session is given, those of them that lie in the session, both ends
    /// included.
    ///
    /// A name that no metric key bears is refused with `KeyNotFound`.
    pub fn metrics_for_key(&self, key_name: &str, session: Option<&Session>) -> (found: Result<
        Vec<Metric>,
        MetricsError,
    >)
        ensures
            match found {
                Ok(rows) => ascending(times_of(rows@)) && exists|at: int| #[trigger]
                    first_named(self.keys(), key_name@, at) && rows@ == samples_of_key(
                        self.samples(),
                        self.keys()[at].id,
                        session,
                    ),
                Err(e) => e@ == MetricsErrorView::KeyNotFound(key_name@) && none_named(
                    self.keys(),
                    key_name@,
                ),
            },
    {
        match MetricKey::key_by_name_inner(key_name, &self.keys) {
            Ok(key) => {
                let rows = self.select(key.id, session);
                proof {
                    let at = choose|at: int| #[trigger]
                        first_named(self.keys@, key_name@, at) && key@ == self.keys@[at]@;
                    assert(first_named(self.keys(), key_name@, at));
                }
                Ok(rows)
            },
            Err(e) => Err(e),
        }
    }

    /// The rate of change of the key named `key_name`, as one step for each
    /// pair of neighbours among the samples that `metrics_for_key` gives for
    /// the same key and session: none for fewer than two samples.
    ///
    /// A name that no metric key bears is refused with `KeyNotFound`.
    pub fn deriv_metrics_for_key(&self, key_name: &str, session: Option<&Session>) -> (found: Result<
        Vec<DerivMetric>,
        MetricsError,
    >)
        ensures
            match found {
                Ok(steps) => exists|at: int| #[trigger]
                    first_named(self.keys(), key_name@, at) && deriv_views(steps@) == derivative_of(
                        samples_of_key(self.samples(), self.keys()[at].id, session),
                        key_name@,
                    ),
                Err(e) => e@ == MetricsErrorView::KeyNotFound(key_name@) && none_named(
                    self.keys(),
                    key_name@,
                ),
            },
    {
        match self.metrics_for_key(key_name, session) {
            Ok(rows) => {
                let mut steps: Vec<DerivMetric> = Vec::new();
                let mut index: usize = 1;
                while index < rows.len()
                    invariant
                        1 <= index,
                        index <= rows.len() || index == 1,
                        steps.len() == index - 1,
                        forall|i: int|
                            0 <= i < steps.len() ==> (#[trigger] steps[i])@ == derivative_of(
                                rows@,
                                key_name@,
                            )[i],
                    decreases rows.len() - index,
                {
                    let earlier = rows[index - 1];
                    let later = rows[index];
                    steps.push(
                        DerivMetric {
                            timestamp: later.timestamp,
                            key: String::from_str(key_name).concat(".deriv"),
                            from_value: earlier.value,
                            to_value: later.value,
                            elapsed: earlier.timestamp.elapsed(later.timestamp),
                        },
                    );
                    index += 1;
                }
                assert(deriv_views(steps@) =~= derivative_of(rows@, key_name@));
                Ok(steps)
            },
            Err(e) => Err(e),
        }
    }
}

/// Whether one of `sessions` holds a sample taken at `timestamp`.
pub open spec fn covered(sessions: Seq<Session>, timestamp: Span) -> bool {
    exists|k: int| 0 <= k < sessions.len() && (#[trigger] sessions[k]).spec_contains(timestamp)
}

/// Whether one of `sessions` holds samples taken at both times.
pub open spec fn joined(sessions: Seq<Session>, earlier: Span, later: Span) -> bool {
    exists|k: int|
        0 <= k < sessions.len() && (#[trigger] sessions[k]).spec_contains(earlier)
            && sessions[k].spec_contains(later)
}

/// Whether one of `sessions` ends at `earlier` and the next starts at
/// `later`.
pub open spec fn parted(sessions: Seq<Session>, earlier: Span, later: Span) -> bool {
    exists|k: int|
        0 <= k && k + 1 < sessions.len() && (#[trigger] sessions[k]).end_time == earlier
            && sessions[k + 1].start_time == later
}

/// Whether two neighbouring samples lie further apart than the threshold.
pub open spec fn gap_between(earlier: Span, later: Span) -> bool {
    later@ - earlier@ > SESSION_TIME_GAP_THRESHOLD
}

/// Whether the session at `k` does not end before it starts and has the
/// time from its start to its end as its duration.
pub open spec fn well_timed(sessions: Seq<Session>, k: int) -> bool {
    sessions[k].start_time@ <= sessions[k].end_time@ && sessions[k] == session_between(
        sessions[k].start_time,
        sessions[k].end_time,
    )
}

/// Whether the session after the one at `k` starts more than the threshold
/// after that one has ended.
pub open spec fn separated(sessions: Seq<Session>, k: int) -> bool {
    gap_between(sessions[k].end_time, sessions[k + 1].start_time)
}

/// Whether the samples at `i` and `i + 1` end one session and start the
/// next where they lie more than the threshold apart, and lie in one
/// session where they do not.
pub open spec fn placed(timestamps: Seq<Span>, sessions: Seq<Session>, i: int) -> bool {
    if gap_between(timestamps[i], timestamps[i + 1]) {
        parted(sessions, timestamps[i], timestamps[i + 1])
    } else {
        joined(sessions, timestamps[i], timestamps[i + 1])
    }
}

/// Whether `sessions` partition the samples taken at `timestamps` at the
/// gaps:
/// - there is at least one session; the first starts at the first time and
///   the last ends at the last time;
/// - no session ends before it starts, and its duration is the time from
///   its start to its end;
/// - each session starts more than the threshold after the one before it
///   has ended;
/// - every sample lies in a session;
/// - two neighbouring samples that lie more than the threshold apart end
///   one session and start the next, and two that do not lie in one
///   session.
pub open spec fn partitions(timestamps: Seq<Span>, sessions: Seq<Session>) -> bool {
    &&& sessions.len() >= 1
    &&& sessions.first().start_time == timestamps.first()
    &&& sessions.last().end_time == timestamps.last()
    &&& forall|k: int| 0 <= k < sessions.len() ==> #[trigger] well_timed(sessions, k)
    &&& forall|k: int| 0 <= k && k + 1 < sessions.len() ==> #[trigger] separated(sessions, k)
    &&& forall|i: int| 0 <= i < timestamps.len() ==> covered(sessions, #[trigger] timestamps[i])
    &&& forall|i: int|
        0 <= i && i + 1 < timestamps.len() ==> #[trigger] placed(timestamps, sessions, i)
}

proof fn lemma_new_session_partitions(timestamps: Seq<Span>, before: Seq<Session>)
    requires
        timestamps.len() >= 2,
        ascending(timestamps),
        partitions(timestamps.drop_last(), before),
        gap_between(timestamps[timestamps.len() - 2], timestamps.last()),
    ensures
        partitions(timestamps, before.push(session_between(timestamps.last(), timestamps.last()))),
{
    let n = timestamps.len() as int;
    let shorter = timestamps.drop_last();
    let last = timestamps[n - 1];
    let found = before.push(session_between(last, last));
    let open = before.len() - 1;
    assert(shorter[n - 2] == timestamps[n - 2]);
    assert(shorter[0] == timestamps[0]);
    assert forall|k: int| 0 <= k < found.len() implies #[trigger] well_timed(found, k) by {
        if k < before.len() {
            assert(well_timed(before, k));
        }
    }
    assert forall|k: int| 0 <= k && k + 1 < found.len() implies #[trigger] separated(found, k) by {
        if k + 1 < before.len() {
            assert(separated(before, k));
        }
    }
    assert forall|i: int| 0 <= i < timestamps.len() implies covered(
        found,
        #[trigger] timestamps[i],
    ) by {
        if i < n - 1 {
            assert(covered(before, shorter[i]));
            let k = choose|k: int|
                0 <= k < before.len() && (#[trigger] before[k]).spec_contains(shorter[i]);
            assert(found[k].spec_contains(timestamps[i]));
        } else {
            assert(found[open + 1].spec_contains(timestamps[i]));
        }
    }
    assert forall|i: int| 0 <= i && i + 1 < timestamps.len() implies #[trigger] placed(
        timestamps,
        found,
        i,
    ) by {
        if i + 1 < n - 1 {
            assert(placed(shorter, before, i));
            assert(shorter[i] == timestamps[i] && shorter[i + 1] == timestamps[i + 1]);
            if gap_between(shorter[i], shorter[i + 1]) {
                let k = choose|k: int|
                    0 <= k && k + 1 < before.len() && (#[trigger] before[k]).end_time == shorter[i]
                        && before[k + 1].start_time == shorter[i + 1];
                assert(found[k].end_time == timestamps[i] && found[k + 1].start_time
                    == timestamps[i + 1]);
            } else {
                let k = choose|k: int|
                    0 <= k < before.len() && (#[trigger] before[k]).spec_contains(shorter[i])
                        && before[k].spec_contains(shorter[i + 1]);
                assert(found[k].spec_contains(timestamps[i]) && found[k].spec_contains(
                    timestamps[i + 1],
                ));
            }
        } else {
            assert(found[open].end_time == timestamps[i] && found[open + 1].start_time
                == timestamps[i + 1]);
        }
    }
}

proof fn lemma_longer_session_partitions(timestamps: Seq<Span>, before: Seq<Session>)
    requires
        timestamps.len() >= 2,
        ascending(timestamps),
        partitions(timestamps.drop_last(), before),
        !gap_between(timestamps[timestamps.len() - 2], timestamps.last()),
    ensures
        partitions(
            timestamps,
            before.drop_last().push(
                session_between(before.last().start_time, timestamps.last()),
            ),
        ),
{
    let n = timestamps.len() as int;
    let shorter = timestamps.drop_last();
    let previous = timestamps[n - 2];
    let last = timestamps[n - 1];
    let open = before.len() - 1;
    let merged = session_between(before[open].start_time, last);
    let found = before.drop_last().push(merged);
    assert(shorter[n - 2] == previous);
    assert(shorter[0] == timestamps[0]);
    assert(found.len() == before.len());
    assert(found[open] == merged);
    assert(well_timed(before, open));
    assert(before[open].start_time@ <= previous@ <= last@);
    assert forall|k: int| 0 <= k < found.len() implies #[trigger] well_timed(found, k) by {
        if k < open {
            assert(well_timed(before, k));
            assert(found[k] == before[k]);
        }
    }
    assert forall|k: int| 0 <= k && k + 1 < found.len() implies #[trigger] separated(found, k) by {
        assert(found[k] == before[k]);
        assert(separated(before, k));
    }
    assert forall|i: int| 0 <= i < timestamps.len() implies covered(
        found,
        #[trigger] timestamps[i],
    ) by {
        if i < n - 1 {
            assert(covered(before, shorter[i]));
            let k = choose|k: int|
                0 <= k < before.len() && (#[trigger] before[k]).spec_contains(shorter[i]);
            if k < open {
                assert(found[k] == before[k]);
            }
            assert(found[k].spec_contains(timestamps[i]));
        } else {
            assert(found[open].spec_contains(timestamps[i]));
        }
    }
    assert forall|i: int| 0 <= i && i + 1 < timestamps.len() implies #[trigger] placed(
        timestamps,
        found,
        i,
    ) by {
        if i + 1 < n - 1 {
            assert(placed(shorter, before, i));
            assert(shorter[i] == timestamps[i] && shorter[i + 1] == timestamps[i + 1]);
            if gap_between(shorter[i], shorter[i + 1]) {
                let k = choose|k: int|
                    0 <= k && k + 1 < before.len() && (#[trigger] before[k]).end_time == shorter[i]
                        && before[k + 1].start_time == shorter[i + 1];
                assert(found[k] == before[k]);
                assert(found[k].end_time == timestamps[i] && found[k + 1].start_time
                    == timestamps[i + 1]);
            } else {
                let k = choose|k: int|
                    0 <= k < before.len() && (#[trigger] before[k]).spec_contains(shorter[i])
                        && before[k].spec_contains(shorter[i + 1]);
                if k < open {
                    assert(found[k] == before[k]);
                }
                assert(found[k].spec_contains(timestamps[i]) && found[k].spec_contains(
                    timestamps[i + 1],
                ));
            }
        } else {
            assert(found[open].spec_contains(timestamps[i]) && found[open].spec_contains(
                timestamps[i + 1],
            ));
        }
    }
    if open > 0 {
        assert(found[0] == before[0]);
    }
}

/// The sessions of ascending sample times partition the samples at the
/// gaps, in the sense of `partitions`.
pub proof fn law_sessions_partition(timestamps: Seq<Span>)
    requires
        timestamps.len() > 0,
        ascending(timestamps),
    ensures
        partitions(timestamps, sessions_of(timestamps)),
    decreases timestamps.len(),
{
    let found = sessions_of(timestamps);
    if timestamps.len() == 1 {
        assert(found[0].spec_contains(timestamps[0]));
        assert(well_timed(found, 0));
    } else {
        let shorter = timestamps.drop_last();
        assert(ascending(shorter));
        law_sessions_partition(shorter);
        if gap_between(timestamps[timestamps.len() - 2], timestamps.last()) {
            lemma_new_session_partitions(timestamps, sessions_of(shorter));
        } else {
            lemma_longer_session_partitions(timestamps, sessions_of(shorter));
        }
    }
}

/// A derived series has one step less than the series it is derived from,
/// and none where that holds fewer than two samples.
pub proof fn law_derivative_length(samples: Seq<Metric>, key_name: Seq<char>)
    ensures
        samples.len() >= 1 ==> derivative_of(samples, key_name).len() == samples.len() - 1,
        samples.len() == 0 ==> derivative_of(samples, key_name).len() == 0,
{
}

} // verus!

//! The records of the store: metric keys and samples.

use crate::error::{MetricsError, MetricsErrorView};
use crate::time::Span;
use vstd::prelude::*;
use vstd::string::StringExecFns;

verus! {

/// A double-precision number, carried by its IEEE-754 bit pattern.
///
/// The library stores and forwards such a number and never computes on it.
#[derive(Clone, Copy, Debug, PartialEq, Eq, Hash, Structural)]
pub struct Scalar {
    pub bits: u64,
}

impl Scalar {
    /// Positive zero, whose bit pattern is all zeros.
    pub fn zero() -> (scalar: Scalar)
        ensures
            scalar == (Scalar { bits: 0 }),
    {
        Scalar { bits: 0 }
    }
}

/// The value of a sample that waits to be stored.
#[derive(Clone, Copy, Debug, PartialEq, Eq, Hash, Structural)]
pub enum SampleValue {
    /// The running total of a counter.
    Count(u64),
    /// A gauge level or a histogram observation.
    Scalar(Scalar),
}

/// A new sample, ready to be inserted into the store.
#[derive(Clone, Copy, Debug, PartialEq, Eq, Structural)]
pub struct NewMetric {
    /// When the sample was taken, since the epoch.
    pub timestamp: Span,
    /// Identifier of the sample's metric key.
    pub metric_key_id: i64,
    /// Value of the sample.
    pub value: SampleValue,
}

/// A sample as the store holds it.
#[derive(Clone, Copy, Debug, PartialEq, Eq, Structural)]
pub struct Metric {
    /// Identifier that the store gave the sample.
    pub id: i64,
    /// When the sample was taken, since the epoch.
    pub timestamp: Span,
    /// Identifier of the sample's metric key.
    pub metric_key_id: i64,
    /// Value of the sample.
    pub value: Scalar,
}

/// A metric key that the store does not hold yet.
#[derive(Debug, PartialEq, Eq)]
pub struct NewMetricKey {
    /// Name of the metric.
    pub key: String,
    /// Unit of the metric, empty where none is known.
    pub unit: String,
    /// Description of the metric, empty where none is known.
    pub description: String,
}

/// A new metric key with its texts as sequences of characters.
pub struct NewMetricKeyView {
    pub key: Seq<char>,
    pub unit: Seq<char>,
    pub description: Seq<char>,
}

impl View for NewMetricKey {
    type V = NewMetricKeyView;

    open spec fn view(&self) -> NewMetricKeyView {
        NewMetricKeyView { key: self.key@, unit: self.unit@, description: self.description@ }
    }
}

/// A metric key as the store holds it.
#[derive(Debug, PartialEq, Eq)]
pub struct MetricKey {
    /// Identifier that the store gave the key; it never changes.
    pub id: i64,
    /// Name of the metric, unique in the store.
    pub key: String,
    /// Unit of the metric, empty where none is known.
    pub unit: String,
    /// Description of the metric, empty where none is known.
    pub description: String,
}

/// A metric key with its texts as sequences of characters.
pub struct MetricKeyView {
    pub id: i64,
    pub key: Seq<char>,
    pub unit: Seq<char>,
    pub description: Seq<char>,
}

impl View for MetricKey {
    type V = MetricKeyView;

    open spec fn view(&self) -> MetricKeyView {
        MetricKeyView {
            id: self.id,
            key: self.key@,
            unit: self.unit@,
            description: self.description@,
        }
    }
}

impl Clone for MetricKey {
    fn clone(&self) -> (copy: Self)
        ensures
            copy == *self,
    {
        MetricKey {
            id: self.id,
            key: self.key.clone(),
            unit: self.unit.clone(),
            description: self.description.clone(),
        }
    }
}

/// What to do after the store was asked for a key by name.
#[derive(Debug, PartialEq, Eq)]
pub enum KeyLookup {
    /// The store holds the key.
    Found(MetricKey),
    /// The store holds no such key: insert this one, then ask again.
    Create(NewMetricKey),
    /// The store failed; give up with this failure.
    Failed(MetricsError),
}

/// Whether `rows[at]` is the first of `rows` that bears `name`.
pub open spec fn first_named(rows: Seq<MetricKey>, name: Seq<char>, at: int) -> bool {
    &&& 0 <= at < rows.len()
    &&& rows[at].key@ == name
    &&& forall|j: int| 0 <= j < at ==> (#[trigger] rows[j]).key@ != name
}

/// Whether none of `rows` bears `name`.
pub open spec fn none_named(rows: Seq<MetricKey>, name: Seq<char>) -> bool {
    forall|i: int| 0 <= i < rows.len() ==> (#[trigger] rows[i]).key@ != name
}

impl MetricKey {
    /// Picks from `rows` the key of the given name.
    ///
    /// Where several rows bear the name the first is taken. Where none does
    /// the lookup fails with `KeyNotFound` and the name.
    pub fn key_by_name_inner(key_name: &str, rows: &Vec<MetricKey>) -> (found: Result<MetricKey, MetricsError>)
        ensures
            match found {
                Ok(key) => exists|at: int| #[trigger]
                    first_named(rows@, key_name@, at) && key@ == rows[at]@,
                Err(e) => e@ == MetricsErrorView::KeyNotFound(key_name@) && none_named(
                    rows@,
                    key_name@,
                ),
            },
    {
        let name = String::from_str(key_name);
        let mut index: usize = 0;
        while index < rows.len()
            invariant
                index <= rows.len(),
                name@ == key_name@,
                forall|j: int| 0 <= j < index ==> (#[trigger] rows[j]).key@ != key_name@,
            decreases rows.len() - index,
        {
            if rows[index].key == name {
                assert(first_named(rows@, key_name@, index as int));
                return Ok(rows[index].clone());
            }
            index += 1;
        }
        Err(MetricsError::KeyNotFound(name))
    }

    /// Decides what follows a lookup by name in the store.
    ///
    /// A key that was found is used as it is. A key that the store does not
    /// know is created with an empty unit and description, after which the
    /// store is asked again. Any other failure ends the lookup.
    pub fn key_by_name(key_name: &str, lookup: Result<MetricKey, MetricsError>) -> (next: KeyLookup)
        ensures
            match lookup {
                Ok(key) => next matches KeyLookup::Found(found) && found@ == key@,
                Err(MetricsError::KeyNotFound(_)) => next matches KeyLookup::Create(fresh)
                    && fresh@ == (NewMetricKeyView {
                    key: key_name@,
                    unit: Seq::empty(),
                    description: Seq::empty(),
                }),
                Err(e) => next matches KeyLookup::Failed(failure) && failure@ == e@,
            },
    {
        match lookup {
            Ok(key) => KeyLookup::Found(key),
            Err(MetricsError::KeyNotFound(_)) => KeyLookup::Create(
                NewMetricKey {
                    key: String::from_str(key_name),
                    unit: String::new(),
                    description: String::new(),
                },
            ),
            Err(e) => KeyLookup::Failed(e),
        }
    }

    /// The key as the store is to hold it once it has been described.
    ///
    /// A unit or description that is given replaces the stored one; one that
    /// is absent leaves it. Identifier and name stay.
    pub fn create_or_update(key: MetricKey, unit: Option<String>, description: Option<String>) -> (updated: MetricKey)
        ensures
            updated.id == key.id,
            updated.key@ == key.key@,
            updated.unit@ == (match unit {
                Some(text) => text@,
                None => key.unit@,
            }),
            updated.description@ == (match description {
                Some(text) => text@,
                None => key.description@,
            }),
    {
        let MetricKey { id, key: name, unit: old_unit, description: old_description } = key;
        MetricKey {
            id,
            key: name,
            unit: match unit {
                Some(text) => text,
                None => old_unit,
            },
            description: match description {
                Some(text) => text,
                None => old_description,
            },
        }
    }
}

} // verus!

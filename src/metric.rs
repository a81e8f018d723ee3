use vstd::prelude::*;
use crate::event::EventMetadata;
use crate::tags::MetricTags;
use crate::time::{latest, spec_latest, Timestamp};
use crate::value::MetricValue;

verus! {

/// Whether a metric value is a delta to accumulate or a total that replaces
/// what came before.
#[derive(Clone, Copy, Debug, PartialEq, Eq, Hash, PartialOrd, Structural)]
pub enum MetricKind {
    Incremental,
    Absolute,
}

/// The name of a metric series, with an optional namespace.
#[derive(Clone, Debug, PartialEq, Eq, Hash, PartialOrd)]
pub struct MetricName {
    pub name: String,
    pub namespace: Option<String>,
}

/// The identity of a metric: its name and its tags.
#[derive(Clone, Debug, PartialEq, Eq, Hash, PartialOrd)]
pub struct MetricSeries {
    pub name: MetricName,
    pub tags: Option<MetricTags>,
}

/// What a metric observed: when, of which kind, and the value.
#[derive(Clone, Debug, PartialEq)]
pub struct MetricData {
    pub timestamp: Option<Timestamp>,
    pub kind: MetricKind,
    pub value: MetricValue,
}

/// A metric: its series, its data, and the delivery bookkeeping it carries.
#[derive(Clone, Debug, PartialEq)]
pub struct Metric {
    pub series: MetricSeries,
    pub data: MetricData,
    pub metadata: EventMetadata,
}

/// The text of an optional string.
pub open spec fn opt_text(s: Option<String>) -> Option<Seq<char>> {
    match s {
        Some(t) => Some(t@),
        None => None,
    }
}

/// The contents of optional tags.
pub open spec fn opt_tags(t: Option<MetricTags>) -> Option<Map<Seq<char>, Seq<char>>> {
    match t {
        Some(m) => Some(m@),
        None => None,
    }
}

impl MetricName {
    /// The name and namespace as text.
    pub open spec fn view(&self) -> (Seq<char>, Option<Seq<char>>) {
        (self.name@, opt_text(self.namespace))
    }

    /// A copy with the same texts.
    pub fn copy(&self) -> (r: MetricName)
        ensures
            r.view() == self.view(),
    {
        let namespace = match &self.namespace {
            Some(ns) => Some(ns.clone()),
            None => None,
        };
        MetricName { name: self.name.clone(), namespace }
    }
}

impl MetricSeries {
    /// Name and tags as plain values.
    pub open spec fn view(&self) -> ((Seq<char>, Option<Seq<char>>), Option<Map<Seq<char>, Seq<char>>>) {
        (self.name.view(), opt_tags(self.tags))
    }

    /// A copy with the same name and tags.
    pub fn copy(&self) -> (r: MetricSeries)
        ensures
            r.view() == self.view(),
    {
        let tags = match &self.tags {
            Some(t) => Some(t.copy()),
            None => None,
        };
        MetricSeries { name: self.name.copy(), tags }
    }
}

impl MetricData {
    /// The value is well formed.
    pub open spec fn wf(&self) -> bool {
        self.value.wf()
    }

    /// The same data, marked absolute.
    pub fn into_absolute(self) -> (r: MetricData)
        ensures
            r.kind == MetricKind::Absolute,
            r.timestamp == self.timestamp,
            r.value == self.value,
    {
        MetricData { timestamp: self.timestamp, kind: MetricKind::Absolute, value: self.value }
    }

    /// The same data, marked incremental.
    pub fn into_incremental(self) -> (r: MetricData)
        ensures
            r.kind == MetricKind::Incremental,
            r.timestamp == self.timestamp,
            r.value == self.value,
    {
        MetricData { timestamp: self.timestamp, kind: MetricKind::Incremental, value: self.value }
    }

    /// Adds the value of `other` into this one and moves the timestamp to
    /// the later of the two. When the values cannot be merged this returns
    /// `false` and changes nothing. The kind stays as it was.
    pub fn update(&mut self, other: &MetricData) -> (r: bool)
        requires
            old(self).wf(),
        ensures
            r == old(self).value.compatible(&other.value),
            r ==> MetricValue::is_sum(old(self).value, other.value, final(self).value),
            r ==> final(self).timestamp == spec_latest(old(self).timestamp, other.timestamp),
            r ==> final(self).kind == old(self).kind,
            !r ==> *final(self) == *old(self),
            final(self).wf(),
    {
        if self.value.add(&other.value) {
            self.timestamp = latest(self.timestamp, other.timestamp);
            true
        } else {
            false
        }
    }

    /// Accumulates the incremental data `other` into this one, as
    /// [`MetricData::update`] does. Absolute data is refused: this returns
    /// `false` and changes nothing.
    pub fn add(&mut self, other: &MetricData) -> (r: bool)
        requires
            old(self).wf(),
        ensures
            r == (other.kind == MetricKind::Incremental && old(self).value.compatible(&other.value)),
            r ==> MetricValue::is_sum(old(self).value, other.value, final(self).value),
            r ==> final(self).timestamp == spec_latest(old(self).timestamp, other.timestamp),
            r ==> final(self).kind == old(self).kind,
            !r ==> *final(self) == *old(self),
            final(self).wf(),
    {
        other.kind == MetricKind::Incremental && self.update(other)
    }

    /// The same data with the value zeroed (see [`MetricValue::zero`]).
    pub fn zero(&self) -> (r: MetricData)
        ensures
            r.timestamp == self.timestamp,
            r.kind == self.kind,
            MetricValue::is_zero_of(self.value, r.value),
            r.wf(),
    {
        MetricData { timestamp: self.timestamp, kind: self.kind, value: self.value.zero() }
    }
}

impl Metric {
    /// The value is well formed.
    pub open spec fn wf(&self) -> bool {
        self.data.wf()
    }

    /// A metric named `name` with no namespace, no tags and no timestamp.
    pub fn new(name: &str, kind: MetricKind, value: MetricValue) -> (r: Metric)
        ensures
            r.series.name.name@ == name@,
            r.series.name.namespace.is_none(),
            r.series.tags.is_none(),
            r.data.timestamp.is_none(),
            r.data.kind == kind,
            r.data.value == value,
            r.metadata@ == (Seq::<u64>::empty(), None::<u64>),
    {
        Self::new_with_metadata(name, kind, value, EventMetadata::new())
    }

    /// As [`Metric::new`], carrying `metadata`.
    pub fn new_with_metadata(name: &str, kind: MetricKind, value: MetricValue, metadata: EventMetadata) -> (r: Metric)
        ensures
            r.series.name.name@ == name@,
            r.series.name.namespace.is_none(),
            r.series.tags.is_none(),
            r.data.timestamp.is_none(),
            r.data.kind == kind,
            r.data.value == value,
            r.metadata == metadata,
    {
        Metric {
            series: MetricSeries {
                name: MetricName { name: name.to_owned(), namespace: None },
                tags: None,
            },
            data: MetricData { timestamp: None, kind, value },
            metadata,
        }
    }

    /// The same metric under another name.
    pub fn with_name(self, name: &str) -> (r: Metric)
        ensures
            r.series.name.name@ == name@,
            r.series.name.namespace == self.series.name.namespace,
            r.series.tags == self.series.tags,
            r.data == self.data,
            r.metadata == self.metadata,
    {
        let mut m = self;
        m.series.name.name = name.to_owned();
        m
    }

    /// The same metric in another namespace, or in none.
    pub fn with_namespace(self, namespace: Option<&str>) -> (r: Metric)
        ensures
            r.series.name.name == self.series.name.name,
            opt_text(r.series.name.namespace) == (match namespace {
                Some(ns) => Some(ns@),
                None => None::<Seq<char>>,
            }),
            r.series.tags == self.series.tags,
            r.data == self.data,
            r.metadata == self.metadata,
    {
        let mut m = self;
        m.series.name.namespace = match namespace {
            Some(ns) => Some(ns.to_owned()),
            None => None,
        };
        m
    }

    /// The same metric with another timestamp, or none.
    pub fn with_timestamp(self, timestamp: Option<Timestamp>) -> (r: Metric)
        ensures
            r.series == self.series,
            r.data.timestamp == timestamp,
            r.data.kind == self.data.kind,
            r.data.value == self.data.value,
            r.metadata == self.metadata,
    {
        let mut m = self;
        m.data.timestamp = timestamp;
        m
    }

    /// The same metric with other tags, or none.
    pub fn with_tags(self, tags: Option<MetricTags>) -> (r: Metric)
        ensures
            r.series.name == self.series.name,
            r.series.tags == tags,
            r.data == self.data,
            r.metadata == self.metadata,
    {
        let mut m = self;
        m.series.tags = tags;
        m
    }

    /// The same metric with another value.
    pub fn with_value(self, value: MetricValue) -> (r: Metric)
        ensures
            r.series == self.series,
            r.data.timestamp == self.data.timestamp,
            r.data.kind == self.data.kind,
            r.data.value == value,
            r.metadata == self.metadata,
    {
        let mut m = self;
        m.data.value = value;
        m
    }

    /// Attaches one more finalizer to the metric.
    pub fn add_finalizer(&mut self, finalizer: u64)
        ensures
            final(self).series == old(self).series,
            final(self).data == old(self).data,
            final(self).metadata@ == (old(self).metadata@.0.push(finalizer), old(self).metadata@.1),
    {
        self.metadata.add_finalizer(finalizer);
    }

    /// The same metric, reporting to batch notifier `batch`.
    pub fn with_batch_notifier(self, batch: u64) -> (r: Metric)
        ensures
            r.series == self.series,
            r.data == self.data,
            r.metadata@ == (self.metadata@.0, Some(batch)),
    {
        let mut m = self;
        m.metadata = m.metadata.with_batch_notifier(batch);
        m
    }

    /// Series, data and metadata, apart.
    pub fn into_parts(self) -> (r: (MetricSeries, MetricData, EventMetadata))
        ensures
            r == (self.series, self.data, self.metadata),
    {
        (self.series, self.data, self.metadata)
    }

    /// A metric from its series, data and metadata.
    pub fn from_parts(series: MetricSeries, data: MetricData, metadata: EventMetadata) -> (r: Metric)
        ensures
            r.series == series,
            r.data == data,
            r.metadata == metadata,
    {
        Metric { series, data, metadata }
    }

    /// The same metric with its data marked absolute.
    pub fn into_absolute(self) -> (r: Metric)
        ensures
            r.series == self.series,
            r.data.kind == MetricKind::Absolute,
            r.data.timestamp == self.data.timestamp,
            r.data.value == self.data.value,
            r.metadata == self.metadata,
    {
        Metric { series: self.series, data: self.data.into_absolute(), metadata: self.metadata }
    }

    /// The same metric with its data marked incremental.
    pub fn into_incremental(self) -> (r: Metric)
        ensures
            r.series == self.series,
            r.data.kind == MetricKind::Incremental,
            r.data.timestamp == self.data.timestamp,
            r.data.value == self.data.value,
            r.metadata == self.metadata,
    {
        Metric { series: self.series, data: self.data.into_incremental(), metadata: self.metadata }
    }

    /// The metric's name.
    pub fn name(&self) -> (r: &str)
        ensures
            r@ == self.series.name.name@,
    {
        self.series.name.name.as_str()
    }

    /// The metric's namespace, if any.
    pub fn namespace(&self) -> (r: Option<&str>)
        ensures
            r.is_some() == self.series.name.namespace.is_some(),
            r.is_some() ==> r.unwrap()@ == self.series.name.namespace.unwrap()@,
    {
        match &self.series.name.namespace {
            Some(ns) => Some(ns.as_str()),
            None => None,
        }
    }

    /// The metric's tags, if any.
    pub fn tags(&self) -> (r: Option<&MetricTags>)
        ensures
            r == match self.series.tags {
                Some(t) => Some(&t),
                None => None::<&MetricTags>,
            },
    {
        match &self.series.tags {
            Some(t) => Some(t),
            None => None,
        }
    }

    /// The metric's tags, for change.
    pub fn tags_mut(&mut self) -> (r: &mut Option<MetricTags>)
        ensures
            *r == old(self).series.tags,
            final(self).series.tags == *final(r),
            final(self).series.name == old(self).series.name,
            final(self).data == old(self).data,
            final(self).metadata == old(self).metadata,
    {
        &mut self.series.tags
    }

    /// The delivery bookkeeping carried by the metric.
    pub fn metadata(&self) -> (r: &EventMetadata)
        ensures
            *r == self.metadata,
    {
        &self.metadata
    }

    /// The delivery bookkeeping carried by the metric, for change.
    pub fn metadata_mut(&mut self) -> (r: &mut EventMetadata)
        ensures
            *r == old(self).metadata,
            final(self).metadata == *final(r),
            final(self).series == old(self).series,
            final(self).data == old(self).data,
    {
        &mut self.metadata
    }

    /// Whether tag `name` is present with value `value`.
    pub fn tag_matches(&self, name: &str, value: &str) -> (r: bool)
        ensures
            r == (self.series.tags.is_some() && self.series.tags.unwrap()@.contains_key(name@)
                && self.series.tags.unwrap()@[name@] == value@),
    {
        match &self.series.tags {
            Some(t) => match t.get(name) {
                Some(v) => crate::text::text_equal(v.as_str(), value),
                None => false,
            },
            None => false,
        }
    }

    /// The value of tag `name`, if present.
    pub fn tag_value(&self, name: &str) -> (r: Option<String>)
        ensures
            r.is_some() == (self.series.tags.is_some() && self.series.tags.unwrap()@.contains_key(name@)),
            r.is_some() ==> r.unwrap()@ == self.series.tags.unwrap()@[name@],
    {
        match &self.series.tags {
            Some(t) => match t.get(name) {
                Some(v) => Some(v.clone()),
                None => None,
            },
            None => None,
        }
    }

    /// Sets tag `name` to `value`, creating the tags where there were none.
    pub fn set_tag_value(&mut self, name: String, value: String)
        ensures
            final(self).series.tags.is_some(),
            final(self).series.tags.unwrap()@ == (match old(self).series.tags {
                Some(t) => t@,
                None => Map::<Seq<char>, Seq<char>>::empty(),
            }).insert(name@, value@),
            final(self).series.name == old(self).series.name,
            final(self).data == old(self).data,
            final(self).metadata == old(self).metadata,
    {
        let mut tags = match self.series.tags.take() {
            Some(t) => t,
            None => MetricTags::new(),
        };
        tags.insert(name, value);
        self.series.tags = Some(tags);
    }

    /// Removes tag `name`, handing back its value. Tags left empty stay as
    /// an empty map.
    pub fn delete_tag(&mut self, name: &str) -> (r: Option<String>)
        ensures
            opt_tags(final(self).series.tags) == (match old(self).series.tags {
                Some(t) => Some(t@.remove(name@)),
                None => None,
            }),
            r.is_some() == (old(self).series.tags.is_some() && old(self).series.tags.unwrap()@.contains_key(name@)),
            r.is_some() ==> r.unwrap()@ == old(self).series.tags.unwrap()@[name@],
            final(self).series.name == old(self).series.name,
            final(self).data == old(self).data,
            final(self).metadata == old(self).metadata,
    {
        match &mut self.series.tags {
            Some(t) => t.remove(name),
            None => None,
        }
    }

    /// A metric with the same series and metadata and the data zeroed.
    pub fn zero(&self) -> (r: Metric)
        requires
            self.wf(),
        ensures
            r.wf(),
            r.series.view() == self.series.view(),
            r.data.timestamp == self.data.timestamp,
            r.data.kind == self.data.kind,
            MetricValue::is_zero_of(self.data.value, r.data.value),
            r.metadata@ == self.metadata@,
    {
        Metric { series: self.series.copy(), data: self.data.zero(), metadata: self.metadata.copy() }
    }
}

/// The message for a text that names no metric kind.
pub open spec fn invalid_kind_message(value: Seq<char>) -> Seq<char> {
    "invalid metric kind "@ + value + ", metric kind must be `absolute` or `incremental`"@
}

impl MetricKind {
    /// The kind's name: `incremental` or `absolute`.
    pub fn name(&self) -> (r: &'static str)
        ensures
            r@ == match *self {
                MetricKind::Incremental => "incremental"@,
                MetricKind::Absolute => "absolute"@,
            },
    {
        match self {
            MetricKind::Incremental => "incremental",
            MetricKind::Absolute => "absolute",
        }
    }

    /// The kind that `value` names, or a message saying it names none.
    pub fn parse(value: &str) -> (r: Result<MetricKind, String>)
        ensures
            value@ == "incremental"@ ==> r == Ok::<MetricKind, String>(MetricKind::Incremental),
            value@ == "absolute"@ ==> r == Ok::<MetricKind, String>(MetricKind::Absolute),
            value@ != "incremental"@ && value@ != "absolute"@ ==> r is Err && r->Err_0@ == invalid_kind_message(value@),
    {
        proof {
            reveal_strlit("incremental");
            reveal_strlit("absolute");
            assert("incremental"@[0] != "absolute"@[0]);
        }
        if crate::text::text_equal(value, "incremental") {
            Ok(MetricKind::Incremental)
        } else if crate::text::text_equal(value, "absolute") {
            Ok(MetricKind::Absolute)
        } else {
            let mut msg = String::new();
            msg.append("invalid metric kind ");
            msg.append(value);
            msg.append(", metric kind must be `absolute` or `incremental`");
            proof {
                assert(msg@ =~= invalid_kind_message(value@));
            }
            Err(msg)
        }
    }
}

} // verus!

use vstd::prelude::*;
use crate::metric::Metric;

verus! {

/// Delivery bookkeeping attached to every event: the finalizers to notify
/// once the event's fate is known, and the batch notifier it reports to.
///
/// Finalizers and notifiers live with the component that tracks delivery;
/// events refer to them by id, so every copy of an event refers to the same
/// ones.
#[derive(Clone, Debug, PartialEq, Eq, Default)]
pub struct EventMetadata {
    finalizers: Vec<u64>,
    batch: Option<u64>,
}

impl View for EventMetadata {
    type V = (Seq<u64>, Option<u64>);

    /// The finalizer ids in the order they were attached, and the batch
    /// notifier id.
    closed spec fn view(&self) -> (Seq<u64>, Option<u64>) {
        (self.finalizers@, self.batch)
    }
}

impl EventMetadata {
    /// Metadata with no finalizer and no batch notifier.
    pub fn new() -> (r: EventMetadata)
        ensures
            r@ == (Seq::<u64>::empty(), None::<u64>),
    {
        EventMetadata { finalizers: Vec::new(), batch: None }
    }

    /// Attaches one more finalizer.
    pub fn add_finalizer(&mut self, finalizer: u64)
        ensures
            final(self)@ == (old(self)@.0.push(finalizer), old(self)@.1),
    {
        self.finalizers.push(finalizer);
    }

    /// The same metadata, reporting to batch notifier `batch`.
    pub fn with_batch_notifier(self, batch: u64) -> (r: EventMetadata)
        ensures
            r@ == (self@.0, Some(batch)),
    {
        EventMetadata { finalizers: self.finalizers, batch: Some(batch) }
    }

    /// The finalizer ids, in the order they were attached.
    pub fn finalizers(&self) -> (r: &Vec<u64>)
        ensures
            r@ == self@.0,
    {
        &self.finalizers
    }

    /// The batch notifier id, if any.
    pub fn batch_notifier(&self) -> (r: Option<u64>)
        ensures
            r == self@.1,
    {
        self.batch
    }

    /// A copy that refers to the same finalizers and notifier.
    pub fn copy(&self) -> (r: EventMetadata)
        ensures
            r@ == self@,
    {
        let mut finalizers: Vec<u64> = Vec::new();
        let mut i: usize = 0;
        while i < self.finalizers.len()
            invariant
                i <= self.finalizers@.len(),
                finalizers@ == self.finalizers@.subrange(0, i as int),
            decreases self.finalizers@.len() - i,
        {
            finalizers.push(self.finalizers[i]);
            proof {
                assert(self.finalizers@.subrange(0, i + 1) =~= self.finalizers@.subrange(0, i as int).push(self.finalizers@[i as int]));
            }
            i = i + 1;
        }
        proof {
            assert(self.finalizers@.subrange(0, self.finalizers@.len() as int) =~= self.finalizers@);
        }
        EventMetadata { finalizers, batch: self.batch }
    }
}

/// A log record: named fields with text values, and its delivery
/// bookkeeping.
#[derive(Clone, Debug, PartialEq)]
pub struct LogEvent {
    pub fields: Vec<(String, String)>,
    pub metadata: EventMetadata,
}

impl LogEvent {
    /// A log record whose `message` field is `message`.
    pub fn from_message(message: &str) -> (r: LogEvent)
        ensures
            r.fields@.len() == 1,
            r.fields@[0].0@ == "message"@,
            r.fields@[0].1@ == message@,
            r.metadata@ == (Seq::<u64>::empty(), None::<u64>),
    {
        let mut fields: Vec<(String, String)> = Vec::new();
        fields.push(("message".to_owned(), message.to_owned()));
        LogEvent { fields, metadata: EventMetadata::new() }
    }
}

/// A unit of observability data: a log record or a metric.
#[derive(Clone, Debug, PartialEq)]
pub enum Event {
    Log(LogEvent),
    Metric(Metric),
}

impl Event {
    /// The metadata the event carries.
    pub open spec fn spec_metadata(&self) -> EventMetadata {
        match self {
            Event::Log(l) => l.metadata,
            Event::Metric(m) => m.metadata,
        }
    }

    /// A log event.
    pub fn from_log(log: LogEvent) -> (r: Event)
        ensures
            r == Event::Log(log),
    {
        Event::Log(log)
    }

    /// A metric event.
    pub fn from_metric(metric: Metric) -> (r: Event)
        ensures
            r == Event::Metric(metric),
    {
        Event::Metric(metric)
    }

    /// Whether this is a log event.
    pub fn is_log(&self) -> (r: bool)
        ensures
            r == self is Log,
    {
        match self {
            Event::Log(_) => true,
            Event::Metric(_) => false,
        }
    }

    /// Whether this is a metric event.
    pub fn is_metric(&self) -> (r: bool)
        ensures
            r == self is Metric,
    {
        match self {
            Event::Log(_) => false,
            Event::Metric(_) => true,
        }
    }

    /// The metric of a metric event. Only a metric event may be asked.
    pub fn as_metric(&self) -> (r: &Metric)
        requires
            self is Metric,
        ensures
            *r == self->Metric_0,
    {
        match self {
            Event::Metric(m) => m,
            Event::Log(_) => vstd::pervasive::unreached(),
        }
    }

    /// The metric of a metric event, for change. Only a metric event may be
    /// asked.
    pub fn as_mut_metric(&mut self) -> (r: &mut Metric)
        requires
            (*old(self)) is Metric,
        ensures
            *r == (*old(self))->Metric_0,
            *final(self) == Event::Metric(*final(r)),
    {
        match self {
            Event::Metric(m) => m,
            Event::Log(_) => vstd::pervasive::unreached(),
        }
    }

    /// The metric of a metric event, taken out. Only a metric event may be
    /// asked.
    pub fn into_metric(self) -> (r: Metric)
        requires
            self is Metric,
        ensures
            r == self->Metric_0,
    {
        match self {
            Event::Metric(m) => m,
            Event::Log(_) => vstd::pervasive::unreached(),
        }
    }

    /// The log record of a log event, taken out. Only a log event may be
    /// asked.
    pub fn into_log(self) -> (r: LogEvent)
        requires
            self is Log,
        ensures
            r == self->Log_0,
    {
        match self {
            Event::Log(l) => l,
            Event::Metric(_) => vstd::pervasive::unreached(),
        }
    }

    /// The metadata the event carries.
    pub fn metadata(&self) -> (r: &EventMetadata)
        ensures
            *r == self.spec_metadata(),
    {
        match self {
            Event::Log(l) => &l.metadata,
            Event::Metric(m) => &m.metadata,
        }
    }

    /// Replaces the metadata the event carries.
    pub fn set_metadata(&mut self, metadata: EventMetadata)
        ensures
            final(self).spec_metadata() == metadata,
            (*old(self)) is Log ==> *final(self) == Event::Log(LogEvent { metadata, ..(*old(self))->Log_0 }),
            (*old(self)) is Metric ==> *final(self) == Event::Metric(Metric { metadata, ..(*old(self))->Metric_0 }),
    {
        match self {
            Event::Log(l) => l.metadata = metadata,
            Event::Metric(m) => m.metadata = metadata,
        }
    }
}

} // verus!

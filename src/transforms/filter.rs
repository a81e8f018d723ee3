use vstd::prelude::*;
use crate::event::Event;
use crate::transform::{DataType, FunctionTransform};

verus! {

/// A predicate over events, supplied by the configuration.
pub trait Condition {
    /// Whether `event` meets the condition.
    spec fn spec_check(&self, event: Event) -> bool;

    /// Whether `event` meets the condition.
    fn check(&self, event: &Event) -> (r: bool)
        ensures
            r == self.spec_check(*event);
}

/// The condition that an event is a log record.
#[derive(Clone, Copy, Debug, PartialEq, Eq)]
pub struct IsLog;

impl Condition for IsLog {
    open spec fn spec_check(&self, event: Event) -> bool {
        event is Log
    }

    fn check(&self, event: &Event) -> (r: bool) {
        event.is_log()
    }
}

/// The configuration of a condition: its type and its options, as name and
/// value texts.
#[derive(Clone, Debug, PartialEq)]
pub struct ConditionConfig {
    pub kind: String,
    pub options: Vec<(String, String)>,
}

/// Configuration of a filtering stage.
#[derive(Clone, Debug, PartialEq)]
pub struct FilterConfig {
    pub condition: ConditionConfig,
}

/// A stage that passes on the events meeting its condition and drops the
/// others.
pub struct Filter<C> {
    condition: C,
}

impl<C> Filter<C> {
    /// A stage filtering on `condition`.
    pub fn new(condition: C) -> (r: Filter<C>)
        ensures
            r.spec_condition() == condition,
    {
        Filter { condition }
    }

    /// The condition the stage filters on.
    pub closed spec fn spec_condition(&self) -> C {
        self.condition
    }

    /// Appends `event`, unchanged and with its metadata, when `passed`;
    /// drops it otherwise.
    pub fn filter_event(&self, output: &mut Vec<Event>, event: Event, passed: bool)
        ensures
            passed ==> final(output)@ == old(output)@.push(event),
            !passed ==> final(output)@ == old(output)@,
    {
        if passed {
            output.push(event);
        }
    }
}

impl<C: Condition> Filter<C> {
    /// Checks `event` against the condition and keeps or drops it. Returns
    /// whether it passed; a driver reports a dropped event as a non-fatal
    /// signal.
    pub fn transform_event(&self, output: &mut Vec<Event>, event: Event) -> (passed: bool)
        ensures
            passed == self.spec_condition().spec_check(event),
            passed ==> final(output)@ == old(output)@.push(event),
            !passed ==> final(output)@ == old(output)@,
    {
        let passed = self.condition.check(&event);
        self.filter_event(output, event, passed);
        passed
    }
}

impl<C: Condition> FunctionTransform for Filter<C> {
    /// Events of any kind.
    open spec fn accepts(&self, event: Event) -> bool {
        true
    }

    fn accepts_event(&self, event: &Event) -> (r: bool) {
        true
    }

    /// Appends `event`, unchanged and with its metadata, when it meets the
    /// condition, and drops it otherwise.
    fn transform(&mut self, output: &mut Vec<Event>, event: Event)
        ensures
            old(self).spec_condition().spec_check(event) ==> final(output)@ == old(output)@.push(event),
            !old(self).spec_condition().spec_check(event) ==> final(output)@ == old(output)@,
            *final(self) == *old(self),
    {
        self.transform_event(output, event);
    }
}

impl FilterConfig {
    /// The name under which the stage is configured.
    pub fn transform_type(&self) -> (r: &'static str)
        ensures
            r@ == "filter"@,
    {
        "filter"
    }

    /// An example configuration: a `check_fields` condition that the
    /// `message` field equals `value`.
    pub fn generate_config() -> (r: FilterConfig)
        ensures
            r.condition.kind@ == "check_fields"@,
            r.condition.options@.len() == 1,
            r.condition.options@[0].0@ == "message.eq"@,
            r.condition.options@[0].1@ == "value"@,
    {
        let mut options: Vec<(String, String)> = Vec::new();
        options.push(("message.eq".to_owned(), "value".to_owned()));
        FilterConfig { condition: ConditionConfig { kind: "check_fields".to_owned(), options } }
    }

    /// The stage takes events of any kind.
    pub fn input_type(&self) -> (r: DataType)
        ensures
            r == DataType::Any,
    {
        DataType::Any
    }

    /// The stage hands on events of any kind.
    pub fn output_type(&self) -> (r: DataType)
        ensures
            r == DataType::Any,
    {
        DataType::Any
    }
}

} // verus!

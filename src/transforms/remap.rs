use vstd::prelude::*;
use crate::event::Event;
use crate::transform::DataType;

verus! {

/// Configuration of a remapping stage: the program's source, and whether
/// an event is dropped when the program fails with an error or aborts.
#[derive(Clone, Debug, PartialEq)]
pub struct RemapConfig {
    pub source: String,
    pub drop_on_error: bool,
    pub drop_on_abort: bool,
}

impl Default for RemapConfig {
    /// No source; events are kept on error and dropped on abort.
    fn default() -> (r: RemapConfig)
        ensures
            r.source@.len() == 0,
            !r.drop_on_error,
            r.drop_on_abort,
    {
        RemapConfig { source: String::new(), drop_on_error: false, drop_on_abort: true }
    }
}

impl RemapConfig {
    /// The name under which the stage is configured.
    pub fn transform_type(&self) -> (r: &'static str)
        ensures
            r@ == "remap"@,
    {
        "remap"
    }

    /// An example configuration: the default one.
    pub fn generate_config() -> (r: RemapConfig)
        ensures
            r.source@.len() == 0,
            !r.drop_on_error,
            r.drop_on_abort,
    {
        RemapConfig::default()
    }

    /// The stage takes events of any kind.
    pub fn input_type(&self) -> (r: DataType)
        ensures
            r == DataType::Any,
    {
        DataType::Any
    }

    /// The stage hands on events of any kind.
    pub fn output_type(&self) -> (r: DataType)
        ensures
            r == DataType::Any,
    {
        DataType::Any
    }
}

/// How a run of the remapping program over one event ended.
pub enum RemapOutcome {
    /// The program finished, leaving these events.
    Done(Vec<Event>),
    /// The program aborted.
    Abort,
    /// The program failed with this error.
    Error(String),
}

/// The error policy of a remapping stage. The program itself runs outside
/// the library; this decides what to keep before a run and what to emit
/// after it.
#[derive(Clone, Copy, Debug, PartialEq, Eq, Structural)]
pub struct Remap {
    pub drop_on_error: bool,
    pub drop_on_abort: bool,
}

/// What the stage emits for one event: the program's events when it
/// finished; when it aborted or failed, nothing where the policy drops
/// such events, and the event as it was before the run otherwise.
pub open spec fn remap_output(policy: Remap, outcome: RemapOutcome, saved: Option<Event>) -> Seq<Event> {
    match outcome {
        RemapOutcome::Done(events) => events@,
        RemapOutcome::Abort => if policy.drop_on_abort { Seq::empty() } else { seq![saved.unwrap()] },
        RemapOutcome::Error(_) => if policy.drop_on_error { Seq::empty() } else { seq![saved.unwrap()] },
    }
}

impl Remap {
    /// The policy a configuration sets.
    pub fn new(config: &RemapConfig) -> (r: Remap)
        ensures
            r.drop_on_error == config.drop_on_error,
            r.drop_on_abort == config.drop_on_abort,
    {
        Remap { drop_on_error: config.drop_on_error, drop_on_abort: config.drop_on_abort }
    }

    /// Whether an event must be copied before the program runs, so that it
    /// can be emitted unchanged should the program fail or abort: only when
    /// such an outcome is possible and is not dropped.
    pub fn needs_copy(&self, can_fail: bool, can_abort: bool) -> (r: bool)
        ensures
            r == ((!self.drop_on_error && can_fail) || (!self.drop_on_abort && can_abort)),
    {
        (!self.drop_on_error && can_fail) || (!self.drop_on_abort && can_abort)
    }

    /// Appends what the stage emits for a run that ended with `outcome`.
    /// `saved` is the copy taken before the run; it must be there when
    /// the outcome is a failure or an abort that is not dropped.
    /// Returns whether the event was dropped, which a driver reports as a
    /// non-fatal signal along with the error or abort.
    pub fn finish(&self, output: &mut Vec<Event>, outcome: RemapOutcome, saved: Option<Event>) -> (dropped: bool)
        requires
            outcome is Abort && !self.drop_on_abort ==> saved.is_some(),
            outcome is Error && !self.drop_on_error ==> saved.is_some(),
        ensures
            final(output)@ == old(output)@ + remap_output(*self, outcome, saved),
            dropped == match outcome {
                RemapOutcome::Done(_) => false,
                RemapOutcome::Abort => self.drop_on_abort,
                RemapOutcome::Error(_) => self.drop_on_error,
            },
    {
        let ghost start = output@;
        let ghost out = outcome;
        match outcome {
            RemapOutcome::Done(events) => {
                let mut events = events;
                output.append(&mut events);
                false
            },
            RemapOutcome::Abort => {
                if !self.drop_on_abort {
                    match saved {
                        Some(e) => output.push(e),
                        None => {},
                    }
                }
                proof {
                    assert(output@ =~= start + remap_output(*self, out, saved));
                }
                self.drop_on_abort
            },
            RemapOutcome::Error(_) => {
                if !self.drop_on_error {
                    match saved {
                        Some(e) => output.push(e),
                        None => {},
                    }
                }
                proof {
                    assert(output@ =~= start + remap_output(*self, out, saved));
                }
                self.drop_on_error
            },
        }
    }
}

} // verus!

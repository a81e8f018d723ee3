use vstd::prelude::*;
use crate::event::Event;

verus! {

/// The kinds of event a stage takes in or hands on.
#[derive(Clone, Copy, Debug, PartialEq, Eq, Hash, Structural)]
pub enum DataType {
    Any,
    Log,
    Metric,
}

/// A stage that handles one event at a time, with no coordination across
/// events. Such stages may run in any order and in parallel.
///
/// A stage implements this or is a task stage, never both.
pub trait FunctionTransform {
    /// Whether the stage takes `event`: an event of a kind it does not
    /// declare as input must never reach it.
    spec fn accepts(&self, event: Event) -> bool;

    /// Whether the stage takes `event`, for a driver to test before handing
    /// it over.
    fn accepts_event(&self, event: &Event) -> (r: bool)
        ensures
            r == self.accepts(*event);

    /// Handles `event`, appending what results (none, one or several
    /// events) to `output`.
    fn transform(&mut self, output: &mut Vec<Event>, event: Event)
        requires
            old(self).accepts(event);
}

/// A pipeline stage: a function stage `F` or a task stage `T`, which maps
/// the whole event stream and may buffer, reorder or batch it.
pub enum Transform<F, T> {
    Function(F),
    Task(T),
}

impl<F, T> Transform<F, T> {
    /// A function stage.
    pub fn function(v: F) -> (r: Transform<F, T>)
        ensures
            r == Transform::<F, T>::Function(v),
    {
        Transform::Function(v)
    }

    /// A task stage.
    pub fn task(v: T) -> (r: Transform<F, T>)
        ensures
            r == Transform::<F, T>::Task(v),
    {
        Transform::Task(v)
    }

    /// The function stage, for use. Only a function stage may be asked.
    pub fn as_function(&mut self) -> (r: &mut F)
        requires
            (*old(self)) is Function,
        ensures
            *r == (*old(self))->Function_0,
            *final(self) == Transform::<F, T>::Function(*final(r)),
    {
        match self {
            Transform::Function(t) => t,
            Transform::Task(_) => vstd::pervasive::unreached(),
        }
    }

    /// The function stage, taken out. Only a function stage may be asked.
    pub fn into_function(self) -> (r: F)
        requires
            self is Function,
        ensures
            r == self->Function_0,
    {
        match self {
            Transform::Function(t) => t,
            Transform::Task(_) => vstd::pervasive::unreached(),
        }
    }

    /// The task stage, for use. Only a task stage may be asked.
    pub fn as_task(&mut self) -> (r: &mut T)
        requires
            (*old(self)) is Task,
        ensures
            *r == (*old(self))->Task_0,
            *final(self) == Transform::<F, T>::Task(*final(r)),
    {
        match self {
            Transform::Function(_) => vstd::pervasive::unreached(),
            Transform::Task(t) => t,
        }
    }

    /// The task stage, taken out. Only a task stage may be asked.
    pub fn into_task(self) -> (r: T)
        requires
            self is Task,
        ensures
            r == self->Task_0,
    {
        match self {
            Transform::Function(_) => vstd::pervasive::unreached(),
            Transform::Task(t) => t,
        }
    }
}

} // verus!

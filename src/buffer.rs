use vstd::prelude::*;

verus! {

/// What a full buffer does with a new event.
#[derive(Clone, Copy, Debug, PartialEq, Eq, Hash, Structural)]
pub enum WhenFull {
    Block,
    DropNewest,
}

/// Where a buffer between stages keeps its events.
#[derive(Clone, Debug, PartialEq, Eq)]
pub enum Variant {
    /// In memory, up to `max_events` events.
    Memory { max_events: usize, when_full: WhenFull },
    /// On disk under `data_dir`, in a buffer named `name`, up to `max_size`
    /// bytes.
    Disk { max_size: usize, when_full: WhenFull, data_dir: String, name: String },
}

impl Variant {
    /// What the buffer does when full.
    pub fn when_full(&self) -> (r: WhenFull)
        ensures
            r == match *self {
                Variant::Memory { when_full, .. } => when_full,
                Variant::Disk { when_full, .. } => when_full,
            },
    {
        match self {
            Variant::Memory { when_full, .. } => *when_full,
            Variant::Disk { when_full, .. } => *when_full,
        }
    }
}

} // verus!

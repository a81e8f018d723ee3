//! Function stages over events: tag addition and removal, filtering, and
//! the error policy of a scripted remapping stage.

pub mod add_tags;
pub mod filter;
pub mod remap;
pub mod remove_tags;

//! Everything that happens between the bytes a process writes and the consumers of its output.

use vstd::prelude::*;

pub mod collection;
pub mod config;
pub mod consumer;
pub mod consumption;
pub mod delivery;
pub mod event;
pub mod forwarding;
pub mod line;
pub mod num_bytes;
pub mod options;
pub mod policy;
pub mod retention;
mod sealed;
pub mod single_subscriber;
pub mod visitor;
pub mod visitors;

verus! {

/// Control flag to indicate whether processing should continue or break.
///
/// Returning `Break` from a visitor will let its consumer stop visiting any more data.
#[derive(Debug, Clone, Copy, PartialEq, Eq, Structural)]
pub enum Next {
    /// Interested in receiving additional data.
    Continue,
    /// Not interested in receiving additional data. Will let the consumer stop.
    Break,
}

} // verus!

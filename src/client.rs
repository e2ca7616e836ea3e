//! The terminal client's input side: keys, the actions they trigger in
//! each pane, and the events that pass between its tasks.
use vstd::prelude::*;

pub mod actions;
pub mod events;
pub mod key;
pub mod pane;

verus! {

/// Whether the client goes on after handling an input.
#[derive(Debug, PartialEq, Eq, Structural)]
pub enum AppReturn {
    Exit,
    Continue,
}

} // verus!

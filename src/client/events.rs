//! The events that pass between the client's tasks.
use vstd::prelude::*;

use crate::client::key::Key;
use crate::commands::Command;

verus! {

/// What the input task hands to the interface: a key, or a tick.
pub enum InputEvent {
    Input(Key),
    Tick,
}

/// What the interface hands to the network task.
pub enum IoEvent {
    Sleep,
    Command(Command),
}

} // verus!

//! Core of a small IRC-style chat service: length-prefixed framing, the
//! protocol messages, the shared membership state with its routing rules,
//! and the key bindings of the terminal client.
use vstd::prelude::*;

pub mod buffer;
pub mod client;
pub mod commands;
pub mod frame;
pub mod lemmas;
pub mod mailbox;
pub mod server;
pub mod state;

use crate::frame::FrameError;

verus! {

/// std's I/O error, carried through opaque.
#[verifier::external_type_specification]
#[verifier::external_body]
pub struct ExIoError(std::io::Error);

/// Everything that can end a session.
#[derive(Debug)]
pub enum Error {
    /// The transport failed.
    Io(std::io::Error),
    /// The stream ended in the middle of a frame.
    ConnectionResetByPeer,
    /// A frame could not be read.
    FrameError(FrameError),
    /// A frame did not hold a command.
    InvalidCommand(String),
    /// A frame did not hold a response.
    InvalidResponse(String),
    /// A command came back as an error.
    CommandError(String),
    /// A command of an unexpected kind came in.
    BadCommandType,
}

impl From<FrameError> for Error {
    fn from(e: FrameError) -> (r: Error) {
        Error::FrameError(e)
    }
}

impl vstd::std_specs::convert::FromSpecImpl<FrameError> for Error {
    open spec fn obeys_from_spec() -> bool {
        true
    }

    open spec fn from_spec(e: FrameError) -> Error {
        Error::FrameError(e)
    }
}

} // verus!

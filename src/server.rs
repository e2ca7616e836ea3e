//! The state shared by every connection handler: one lock around the
//! registry, so that each operation applies atomically.
use std::sync::Arc;

use vstd::prelude::*;
use vstd::rwlock::{RwLock, RwLockPredicate};

use crate::commands::{Command, Response, ResponseView};
use crate::state::{Peer, ResponseType, ResponseTypeView, State, StateView};

verus! {

/// What a connection handler has in hand at one turn of its loop.
pub enum Event {
    /// The reaper's kill signal.
    Kill,
    /// A keep-alive tick.
    Tick,
    /// A response taken from the peer's own mailbox.
    Mail(Response),
    /// A command read from the peer.
    Command(Command),
    /// The peer closed its stream between two frames.
    Closed,
}

/// What the handler does next.
#[derive(Debug)]
pub enum Step {
    /// End the session.
    Stop,
    /// Nothing more to do for this event.
    Idle,
    /// Write this response on the peer's own connection.
    Write(Response),
}

/// The reply that a verdict asks the handler to write, if any.
pub open spec fn step_for(v: ResponseTypeView) -> Option<ResponseView> {
    match v {
        ResponseTypeView::Sender(r) => Some(r),
        ResponseTypeView::SenderAndUser(_, r) => Some(r),
        _ => None,
    }
}

/// What the lock guarantees of the state it holds: it is well formed.
pub struct WellFormed;

impl RwLockPredicate<State> for WellFormed {
    open spec fn inv(self, v: State) -> bool {
        v@.wf()
    }
}

/// A handle on the shared state; clones point at the same storage.
#[derive(Clone)]
pub struct ServerState {
    shared: Arc<RwLock<State, WellFormed>>,
}

impl ServerState {
    /// A fresh server with no users and no rooms.
    pub fn new() -> (s: ServerState) {
        ServerState { shared: Arc::new(RwLock::new(State::new(), Ghost(WellFormed))) }
    }

    /// Applies `command` from `peer` under the lock. The verdict is the one
    /// the registry's rules give on the state as it stood.
    pub fn apply(&self, command: Command, peer: Peer) -> (r: ResponseType)
        ensures
            exists|s: StateView| s.wf() && r@ == s.apply(command, peer.address(), peer.alive()).1,
    {
        let (mut state, handle) = self.shared.acquire_write();
        let ghost s0 = state@;
        let r = state.apply(command, peer);
        handle.release_write(state);
        assert(s0.wf() && r@ == s0.apply(command, peer.address(), peer.alive()).1);
        r
    }

    /// Handles one event of `peer`'s session: a kill or a closed stream ends
    /// it, a tick puts a keep-alive in every mailbox, a mailbox item is
    /// written out, and a command is applied, its own reply written out.
    pub fn step(&self, peer: &Peer, event: Event) -> (r: Step)
        ensures
            match event {
                Event::Kill => r is Stop,
                Event::Closed => r is Stop,
                Event::Tick => r is Idle,
                Event::Mail(resp) => r == Step::Write(resp),
                Event::Command(c) => exists|s: StateView| s.wf() && match step_for(
                    s.apply(c, peer.address(), peer.alive()).1,
                ) {
                    Some(reply) => r matches Step::Write(w) && w@ == reply,
                    None => r is Idle,
                },
            },
    {
        match event {
            Event::Kill => Step::Stop,
            Event::Closed => Step::Stop,
            Event::Tick => {
                self.broadcast(Response::KeepAlive);
                Step::Idle
            },
            Event::Mail(resp) => Step::Write(resp),
            Event::Command(c) => {
                let verdict = self.apply(c, peer.duplicate());
                match verdict.for_sender() {
                    Some(reply) => Step::Write(reply),
                    None => Step::Idle,
                }
            },
        }
    }

    /// Puts `response` in the mailbox of `user`, if there is such a user.
    pub fn send(&self, user: &String, response: Response) {
        let (mut state, handle) = self.shared.acquire_write();
        state.send_to(user, &response);
        handle.release_write(state);
    }

    /// Puts `response` in every peer's mailbox.
    pub fn broadcast(&self, response: Response) {
        let (mut state, handle) = self.shared.acquire_write();
        state.broadcast(&response);
        handle.release_write(state);
    }

    /// Puts `response` in the mailbox of every member of `room`.
    pub fn broadcast_room(&self, room: &String, response: Response) {
        let (mut state, handle) = self.shared.acquire_write();
        state.broadcast_room(room, &response);
        handle.release_write(state);
    }

    /// One reaper pass.
    pub fn kick_keep_alive(&self) {
        let (mut state, handle) = self.shared.acquire_write();
        state.kick_keep_alive();
        handle.release_write(state);
    }

    /// Drops `peer` from the registry and from every room.
    pub fn remove_peer(&self, peer: &Peer) {
        let (mut state, handle) = self.shared.acquire_write();
        state.remove_peer(peer);
        handle.release_write(state);
    }
}

} // verus!

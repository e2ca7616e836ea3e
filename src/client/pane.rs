//! The panes of the client's screen.
use vstd::prelude::*;

verus! {

/// Which list a new message goes to.
pub enum Active {
    Room,
    Chat,
}

/// A pane of the client's screen.
#[derive(Debug, Clone, Copy, PartialEq, Eq, Structural)]
pub enum Pane {
    Rooms,
    Chats,
    Messages,
    NewMessage,
    Users,
    NewRoom,
    AllUsers,
    AllRooms,
}

/// The title shown above `p`.
pub open spec fn pane_title(p: Pane) -> Seq<char> {
    match p {
        Pane::Rooms => "Active Rooms"@,
        Pane::Chats => "Private Chats"@,
        Pane::Messages => "Messages"@,
        Pane::NewMessage => "New Message"@,
        Pane::Users => "Room Users"@,
        Pane::NewRoom => "New Room"@,
        Pane::AllUsers => "All Users"@,
        Pane::AllRooms => "All Rooms"@,
    }
}

impl Pane {
    /// The title shown above the pane.
    pub fn title(&self) -> (r: &'static str)
        ensures
            r@ == pane_title(*self),
    {
        match self {
            Pane::Rooms => "Active Rooms",
            Pane::Chats => "Private Chats",
            Pane::Messages => "Messages",
            Pane::NewMessage => "New Message",
            Pane::Users => "Room Users",
            Pane::NewRoom => "New Room",
            Pane::AllUsers => "All Users",
            Pane::AllRooms => "All Rooms",
        }
    }
}

} // verus!

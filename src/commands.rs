//! The messages that travel between clients and the server.
use vstd::prelude::*;

verus! {

/// Seconds between two keep-alive beacons.
pub const KEEP_ALIVE_INTERVAL: u64 = 5;

/// Seconds between two passes of the reaper.
pub const KEEP_ALIVE_CHECK: u64 = 10;

/// Where a chat line goes.
#[derive(Clone, Debug, PartialEq, Eq)]
pub enum Target {
    Username(String),
    Room(String),
}

/// The server's keep-alive tick.
#[derive(Debug, Clone, Copy, PartialEq, Eq)]
pub struct KeepAlive;

/// The signal that ends a peer's session.
#[derive(Debug, Clone, Copy, PartialEq, Eq)]
pub struct Kill;

/// What a client asks of the server.
#[derive(Clone, Debug, PartialEq, Eq)]
pub enum Command {
    Hello { username: String },
    KeepAlive,
    ListRooms,
    ListUsers,
    JoinOrCreate { room: String },
    Leave { room: String },
    Send { target: Target, message: String },
}

/// What the server tells a client.
#[derive(Clone, Debug, PartialEq, Eq)]
pub enum Response {
    ListMembers { room: String, users: Vec<String> },
    ListRooms { rooms: Vec<String> },
    ListUsers { users: Vec<String> },
    TellRoom { room: String, sender: String, message: String },
    TellUser { username: String, sender: String, message: String },
    KeepAlive,
    Error(ResponseError),
}

/// A refused command.
#[derive(Clone, Debug, PartialEq, Eq)]
pub enum ResponseError {
    UserAlreadyExists(String),
    RoomDoesNotExist(String),
    UserNotInRoom { user: String, room: String },
}

/// A refused command, with its strings as character sequences.
pub enum ResponseErrorView {
    UserAlreadyExists(Seq<char>),
    RoomDoesNotExist(Seq<char>),
    UserNotInRoom { user: Seq<char>, room: Seq<char> },
}

/// A response, with its strings as character sequences.
pub enum ResponseView {
    ListMembers { room: Seq<char>, users: Seq<Seq<char>> },
    ListRooms { rooms: Seq<Seq<char>> },
    ListUsers { users: Seq<Seq<char>> },
    TellRoom { room: Seq<char>, sender: Seq<char>, message: Seq<char> },
    TellUser { username: Seq<char>, sender: Seq<char>, message: Seq<char> },
    KeepAlive,
    Error(ResponseErrorView),
}

/// The characters of each string, in order.
pub open spec fn texts(v: Seq<String>) -> Seq<Seq<char>> {
    v.map_values(|s: String| s@)
}

impl View for ResponseError {
    type V = ResponseErrorView;

    open spec fn view(&self) -> ResponseErrorView {
        match self {
            ResponseError::UserAlreadyExists(u) => ResponseErrorView::UserAlreadyExists(u@),
            ResponseError::RoomDoesNotExist(r) => ResponseErrorView::RoomDoesNotExist(r@),
            ResponseError::UserNotInRoom { user, room } => ResponseErrorView::UserNotInRoom {
                user: user@,
                room: room@,
            },
        }
    }
}

impl View for Response {
    type V = ResponseView;

    open spec fn view(&self) -> ResponseView {
        match self {
            Response::ListMembers { room, users } => ResponseView::ListMembers {
                room: room@,
                users: texts(users@),
            },
            Response::ListRooms { rooms } => ResponseView::ListRooms { rooms: texts(rooms@) },
            Response::ListUsers { users } => ResponseView::ListUsers { users: texts(users@) },
            Response::TellRoom { room, sender, message } => ResponseView::TellRoom {
                room: room@,
                sender: sender@,
                message: message@,
            },
            Response::TellUser { username, sender, message } => ResponseView::TellUser {
                username: username@,
                sender: sender@,
                message: message@,
            },
            Response::KeepAlive => ResponseView::KeepAlive,
            Response::Error(e) => ResponseView::Error(e@),
        }
    }
}

/// A copy of each string of `v`.
pub fn copy_strings(v: &Vec<String>) -> (r: Vec<String>)
    ensures
        r@ == v@,
{
    let mut r: Vec<String> = Vec::new();
    let mut i: usize = 0;
    while i < v.len()
        invariant
            i <= v@.len(),
            r@ == v@.subrange(0, i as int),
        decreases v@.len() - i,
    {
        r.push(v[i].clone());
        i = i + 1;
        assert(r@ =~= v@.subrange(0, i as int));
    }
    assert(v@.subrange(0, v@.len() as int) =~= v@);
    r
}

impl ResponseError {
    /// A copy of this error.
    pub fn duplicate(&self) -> (r: ResponseError)
        ensures
            r@ == self@,
    {
        match self {
            ResponseError::UserAlreadyExists(u) => ResponseError::UserAlreadyExists(u.clone()),
            ResponseError::RoomDoesNotExist(r) => ResponseError::RoomDoesNotExist(r.clone()),
            ResponseError::UserNotInRoom { user, room } => ResponseError::UserNotInRoom {
                user: user.clone(),
                room: room.clone(),
            },
        }
    }
}

impl Response {
    /// A copy of this response.
    pub fn duplicate(&self) -> (r: Response)
        ensures
            r@ == self@,
    {
        match self {
            Response::ListMembers { room, users } => Response::ListMembers {
                room: room.clone(),
                users: copy_strings(users),
            },
            Response::ListRooms { rooms } => Response::ListRooms { rooms: copy_strings(rooms) },
            Response::ListUsers { users } => Response::ListUsers { users: copy_strings(users) },
            Response::TellRoom { room, sender, message } => Response::TellRoom {
                room: room.clone(),
                sender: sender.clone(),
                message: message.clone(),
            },
            Response::TellUser { username, sender, message } => Response::TellUser {
                username: username.clone(),
                sender: sender.clone(),
                message: message.clone(),
            },
            Response::KeepAlive => Response::KeepAlive,
            Response::Error(e) => Response::Error(e.duplicate()),
        }
    }
}

} // verus!

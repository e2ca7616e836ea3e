//! The server's membership state and its routing rules: who is connected
//! under which name, which rooms exist and who is in them, and which
//! mailboxes each command fills.
use vstd::prelude::*;

use crate::commands::{
    copy_strings, texts, Command, Kill, Response, ResponseError, ResponseErrorView, ResponseView,
    Target,
};
use tokio::sync::mpsc::UnboundedSender;

verus! {

/// A transport address: an IPv6 address (IPv4 ones in mapped form) and a
/// port.
#[derive(Clone, Copy, Debug, PartialEq, Eq, Structural, Hash)]
pub struct Addr {
    pub ip: u128,
    pub port: u16,
}

/// The server's handle on one connected client: its address, its mailbox,
/// its liveness flag and its kill signal.
#[derive(Clone, Debug)]
pub struct Peer {
    addr: Addr,
    tx: UnboundedSender<Response>,
    keep_alive: bool,
    kill_tx: UnboundedSender<Kill>,
}

impl Peer {
    /// The peer's transport address.
    pub closed spec fn address(&self) -> Addr {
        self.addr
    }

    /// The peer's liveness flag.
    pub closed spec fn alive(&self) -> bool {
        self.keep_alive
    }

    /// A fresh peer, counted as alive.
    pub fn new(addr: Addr, tx: UnboundedSender<Response>, kill_tx: UnboundedSender<Kill>) -> (p:
        Peer)
        ensures
            p.address() == addr,
            p.alive(),
    {
        Peer { addr, tx, keep_alive: true, kill_tx }
    }

    /// Another handle on the same peer: same address, same flag, senders
    /// into the same channels.
    pub fn duplicate(&self) -> (p: Peer)
        ensures
            p.address() == self.address(),
            p.alive() == self.alive(),
    {
        Peer {
            addr: self.addr,
            tx: self.tx.clone(),
            keep_alive: self.keep_alive,
            kill_tx: self.kill_tx.clone(),
        }
    }

    /// The peer's transport address.
    pub fn addr(&self) -> (r: Addr)
        ensures
            r == self.address(),
    {
        self.addr
    }
}

/// What the connection handler does after a command.
#[derive(Debug)]
pub enum ResponseType {
    /// Nothing goes out.
    Nothing,
    /// The response goes to the sender only.
    Sender(Response),
    /// The response went to the named user's mailbox and goes to the sender
    /// too.
    SenderAndUser(String, Response),
    /// The response went to every peer.
    Broadcast(Response),
    /// The response went to every member of the room.
    BroadcastRoom(String, Response),
}

impl ResponseType {
    /// What the connection handler writes on the sender's own connection:
    /// the response of `Sender` and of `SenderAndUser`, nothing otherwise.
    pub fn for_sender(self) -> (r: Option<Response>)
        ensures
            r matches Some(resp) ==> match self {
                ResponseType::Sender(x) => resp == x,
                ResponseType::SenderAndUser(_, x) => resp == x,
                _ => false,
            },
            r is None <==> !(self is Sender || self is SenderAndUser),
    {
        match self {
            ResponseType::Sender(r) => Some(r),
            ResponseType::SenderAndUser(_, r) => Some(r),
            _ => None,
        }
    }
}

/// A verdict, with its strings as character sequences.
pub enum ResponseTypeView {
    Nothing,
    Sender(ResponseView),
    SenderAndUser(Seq<char>, ResponseView),
    Broadcast(ResponseView),
    BroadcastRoom(Seq<char>, ResponseView),
}

impl View for ResponseType {
    type V = ResponseTypeView;

    open spec fn view(&self) -> ResponseTypeView {
        match self {
            ResponseType::Nothing => ResponseTypeView::Nothing,
            ResponseType::Sender(r) => ResponseTypeView::Sender(r@),
            ResponseType::SenderAndUser(u, r) => ResponseTypeView::SenderAndUser(u@, r@),
            ResponseType::Broadcast(r) => ResponseTypeView::Broadcast(r@),
            ResponseType::BroadcastRoom(room, r) => ResponseTypeView::BroadcastRoom(room@, r@),
        }
    }
}

/// A registered user: a name and the peer that said it.
pub struct UserView {
    pub name: Seq<char>,
    pub addr: Addr,
    pub alive: bool,
}

/// A room and its members, in the order in which they joined.
pub struct RoomView {
    pub name: Seq<char>,
    pub members: Seq<Seq<char>>,
}

/// One item handed to a peer's channels.
pub enum Mail {
    /// A response put in the named user's mailbox.
    Deliver { to: Seq<char>, response: ResponseView },
    /// A kill signal sent to the named user's session.
    Kill { to: Seq<char> },
}

/// The whole state: users in the order in which they said hello, rooms in
/// the order in which they were created, and everything handed to the
/// peers' channels so far.
pub struct StateView {
    pub users: Seq<UserView>,
    pub rooms: Seq<RoomView>,
    pub outbox: Seq<Mail>,
}

/// The response `r` addressed to each of `names`, in order.
pub open spec fn deliveries(names: Seq<Seq<char>>, r: ResponseView) -> Seq<Mail> {
    names.map_values(|n: Seq<char>| Mail::Deliver { to: n, response: r })
}

/// `members` without `u`.
pub open spec fn without(members: Seq<Seq<char>>, u: Seq<char>) -> Seq<Seq<char>> {
    if members.contains(u) {
        members.remove(members.index_of(u))
    } else {
        members
    }
}

/// The rosters sent when `u` leaves every room of `rooms`: for each room
/// that held `u`, in order, the new roster to each remaining member.
pub open spec fn removal_mails(rooms: Seq<RoomView>, u: Seq<char>) -> Seq<Mail>
    decreases rooms.len(),
{
    if rooms.len() == 0 {
        seq![]
    } else {
        let r = rooms.last();
        let rest = removal_mails(rooms.drop_last(), u);
        if r.members.contains(u) {
            let m = without(r.members, u);
            rest + deliveries(m, ResponseView::ListMembers { room: r.name, users: m })
        } else {
            rest
        }
    }
}

/// The kill signals of a reaper pass over `users`: one for each user whose
/// flag is down, in order.
pub open spec fn kill_mails(users: Seq<UserView>) -> Seq<Mail>
    decreases users.len(),
{
    if users.len() == 0 {
        seq![]
    } else {
        let rest = kill_mails(users.drop_last());
        if users.last().alive {
            rest
        } else {
            rest.push(Mail::Kill { to: users.last().name })
        }
    }
}

impl StateView {
    /// Whether a user registered from `a`.
    pub open spec fn has_addr(self, a: Addr) -> bool {
        exists|i: int| 0 <= i < self.users.len() && self.users[i].addr == a
    }

    /// The position of the user registered from `a`.
    pub open spec fn addr_index(self, a: Addr) -> int {
        choose|i: int| 0 <= i < self.users.len() && self.users[i].addr == a
    }

    /// The name registered from `a`.
    pub open spec fn name_of(self, a: Addr) -> Seq<char> {
        self.users[self.addr_index(a)].name
    }

    /// Whether `n` is a registered name.
    pub open spec fn has_user(self, n: Seq<char>) -> bool {
        exists|i: int| 0 <= i < self.users.len() && self.users[i].name == n
    }

    /// The position of the user named `n`.
    pub open spec fn user_index(self, n: Seq<char>) -> int {
        choose|i: int| 0 <= i < self.users.len() && self.users[i].name == n
    }

    /// Whether a room is named `r`.
    pub open spec fn has_room(self, r: Seq<char>) -> bool {
        exists|j: int| 0 <= j < self.rooms.len() && self.rooms[j].name == r
    }

    /// The position of the room named `r`.
    pub open spec fn room_index(self, r: Seq<char>) -> int {
        choose|j: int| 0 <= j < self.rooms.len() && self.rooms[j].name == r
    }

    /// The members of room `r`; none where there is no such room.
    pub open spec fn members(self, r: Seq<char>) -> Seq<Seq<char>> {
        if self.has_room(r) {
            self.rooms[self.room_index(r)].members
        } else {
            seq![]
        }
    }

    /// The registered names, in order.
    pub open spec fn user_names(self) -> Seq<Seq<char>> {
        self.users.map_values(|u: UserView| u.name)
    }

    /// The room names, in order.
    pub open spec fn room_names(self) -> Seq<Seq<char>> {
        self.rooms.map_values(|r: RoomView| r.name)
    }

    /// The map from address to name.
    pub open spec fn addr_to_user(self) -> Map<Addr, Seq<char>> {
        Map::new(|a: Addr| self.has_addr(a), |a: Addr| self.name_of(a))
    }

    /// The map from name to the address of its peer.
    pub open spec fn user_addrs(self) -> Map<Seq<char>, Addr> {
        Map::new(|n: Seq<char>| self.has_user(n), |n: Seq<char>| self.users[self.user_index(n)].addr)
    }

    /// The map from room name to its set of members.
    pub open spec fn room_sets(self) -> Map<Seq<char>, Set<Seq<char>>> {
        Map::new(|r: Seq<char>| self.has_room(r), |r: Seq<char>| self.members(r).to_set())
    }

    /// No two users share a name.
    pub open spec fn names_unique(self) -> bool {
        forall|i: int, j: int|
            0 <= i < self.users.len() && 0 <= j < self.users.len() && i != j
                ==> #[trigger] self.users[i].name != #[trigger] self.users[j].name
    }

    /// Names and addresses are unique, room names are unique, no room lists
    /// a member twice, and every member of a room is a registered user.
    pub open spec fn wf(self) -> bool {
        &&& self.names_unique()
        &&& forall|i: int, j: int|
            0 <= i < self.users.len() && 0 <= j < self.users.len() && i != j
                ==> #[trigger] self.users[i].addr != #[trigger] self.users[j].addr
        &&& forall|i: int, j: int|
            0 <= i < self.rooms.len() && 0 <= j < self.rooms.len() && i != j
                ==> #[trigger] self.rooms[i].name != #[trigger] self.rooms[j].name
        &&& forall|i: int| 0 <= i < self.rooms.len() ==> (#[trigger] self.rooms[i]).members.no_duplicates()
        &&& forall|i: int, k: int|
            0 <= i < self.rooms.len() && 0 <= k < self.rooms[i].members.len()
                ==> self.has_user(#[trigger] self.rooms[i].members[k])
    }
}

impl StateView {
    /// `Hello{name}` from the peer at `a`: a name in use is refused; a peer
    /// that already has a name keeps it; otherwise the user is added.
    pub open spec fn hello(self, name: Seq<char>, a: Addr, alive: bool) -> (StateView, ResponseTypeView) {
        if self.has_user(name) {
            (self, ResponseTypeView::Sender(ResponseView::Error(ResponseErrorView::UserAlreadyExists(name))))
        } else if self.has_addr(a) {
            (self, ResponseTypeView::Nothing)
        } else {
            (
                StateView { users: self.users.push(UserView { name, addr: a, alive }), ..self },
                ResponseTypeView::Nothing,
            )
        }
    }

    /// `JoinOrCreate{room}` from the peer at `a`: the room is created if
    /// needed, the user joins it if not yet in, and every member, the user
    /// included, gets the roster.
    pub open spec fn join_or_create(self, room: Seq<char>, a: Addr) -> (StateView, ResponseTypeView) {
        if !self.has_addr(a) {
            (self, ResponseTypeView::Nothing)
        } else {
            let u = self.name_of(a);
            let m = self.members(room);
            let m2 = if m.contains(u) { m } else { m.push(u) };
            let entry = RoomView { name: room, members: m2 };
            let rooms = if self.has_room(room) {
                self.rooms.update(self.room_index(room), entry)
            } else {
                self.rooms.push(entry)
            };
            let resp = ResponseView::ListMembers { room, users: m2 };
            (
                StateView { rooms, outbox: self.outbox + deliveries(m2, resp), ..self },
                ResponseTypeView::BroadcastRoom(room, resp),
            )
        }
    }

    /// `Leave{room}` from the peer at `a`: refused where the room does not
    /// exist or the user is not in it; otherwise the user leaves, and every
    /// member as it was, the leaver included, gets the new roster.
    pub open spec fn leave(self, room: Seq<char>, a: Addr) -> (StateView, ResponseTypeView) {
        if !self.has_addr(a) {
            (self, ResponseTypeView::Nothing)
        } else {
            let u = self.name_of(a);
            if !self.has_room(room) {
                (self, ResponseTypeView::Sender(ResponseView::Error(ResponseErrorView::RoomDoesNotExist(room))))
            } else if !self.members(room).contains(u) {
                (
                    self,
                    ResponseTypeView::Sender(
                        ResponseView::Error(ResponseErrorView::UserNotInRoom { user: u, room }),
                    ),
                )
            } else {
                let m = self.members(room);
                let m2 = without(m, u);
                let resp = ResponseView::ListMembers { room, users: m2 };
                (
                    StateView {
                        rooms: self.rooms.update(self.room_index(room), RoomView { name: room, members: m2 }),
                        outbox: self.outbox + deliveries(m, resp),
                        ..self
                    },
                    ResponseTypeView::BroadcastRoom(room, resp),
                )
            }
        }
    }

    /// `ListRooms`: every room name, to the sender.
    pub open spec fn list_rooms(self) -> (StateView, ResponseTypeView) {
        (self, ResponseTypeView::Sender(ResponseView::ListRooms { rooms: self.room_names() }))
    }

    /// `ListUsers`: every registered name, to the sender.
    pub open spec fn list_users(self) -> (StateView, ResponseTypeView) {
        (self, ResponseTypeView::Sender(ResponseView::ListUsers { users: self.user_names() }))
    }

    /// `Send{Room(room), message}` from the peer at `a`: the line goes to
    /// every member of the room, whether or not the sender is one.
    pub open spec fn send_room(self, room: Seq<char>, message: Seq<char>, a: Addr) -> (StateView, ResponseTypeView) {
        if !self.has_addr(a) {
            (self, ResponseTypeView::Nothing)
        } else {
            let resp = ResponseView::TellRoom { room, sender: self.name_of(a), message };
            (
                StateView { outbox: self.outbox + deliveries(self.members(room), resp), ..self },
                ResponseTypeView::BroadcastRoom(room, resp),
            )
        }
    }

    /// `Send{Username(to), message}` from the peer at `a`: the line goes to
    /// that user's mailbox if there is such a user, and back to the sender.
    pub open spec fn send_user(self, to: Seq<char>, message: Seq<char>, a: Addr) -> (StateView, ResponseTypeView) {
        if !self.has_addr(a) {
            (self, ResponseTypeView::Nothing)
        } else {
            let resp = ResponseView::TellUser { username: to, sender: self.name_of(a), message };
            let mails = if self.has_user(to) { seq![Mail::Deliver { to, response: resp }] } else { seq![] };
            (StateView { outbox: self.outbox + mails, ..self }, ResponseTypeView::SenderAndUser(to, resp))
        }
    }

    /// `KeepAlive` from the peer at `a`: its flag goes up.
    pub open spec fn keep_alive(self, a: Addr) -> (StateView, ResponseTypeView) {
        if !self.has_addr(a) {
            (self, ResponseTypeView::Nothing)
        } else {
            let i = self.addr_index(a);
            (
                StateView { users: self.users.update(i, UserView { alive: true, ..self.users[i] }), ..self },
                ResponseTypeView::Nothing,
            )
        }
    }

    /// A command from the peer at `a` whose flag is `alive`. Apart from
    /// `Hello`, `ListRooms` and `ListUsers`, a command from a peer that has
    /// not said hello changes nothing and sends nothing.
    pub open spec fn apply(self, command: Command, a: Addr, alive: bool) -> (StateView, ResponseTypeView) {
        match command {
            Command::Hello { username } => self.hello(username@, a, alive),
            Command::KeepAlive => self.keep_alive(a),
            Command::ListRooms => self.list_rooms(),
            Command::ListUsers => self.list_users(),
            Command::JoinOrCreate { room } => self.join_or_create(room@, a),
            Command::Leave { room } => self.leave(room@, a),
            Command::Send { target, message } => match target {
                Target::Room(room) => self.send_room(room@, message@, a),
                Target::Username(to) => self.send_user(to@, message@, a),
            },
        }
    }

    /// The peer at `a` goes: its user leaves the registry and every room,
    /// and each room it left sends its new roster to the remaining members.
    pub open spec fn remove_peer(self, a: Addr) -> StateView {
        if !self.has_addr(a) {
            self
        } else {
            let u = self.name_of(a);
            StateView {
                users: self.users.remove(self.addr_index(a)),
                rooms: self.rooms.map_values(|r: RoomView| RoomView { name: r.name, members: without(r.members, u) }),
                outbox: self.outbox + removal_mails(self.rooms, u),
            }
        }
    }

    /// A reaper pass: each user whose flag is down is sent a kill signal,
    /// and every flag ends down.
    pub open spec fn kick_keep_alive(self) -> StateView {
        StateView {
            users: self.users.map_values(|u: UserView| UserView { alive: false, ..u }),
            outbox: self.outbox + kill_mails(self.users),
            ..self
        }
    }

    /// `r` goes to the mailbox of every member of `room`.
    pub open spec fn broadcast_room(self, room: Seq<char>, r: ResponseView) -> StateView {
        StateView { outbox: self.outbox + deliveries(self.members(room), r), ..self }
    }

    /// `r` goes to the mailbox of every registered user.
    pub open spec fn broadcast(self, r: ResponseView) -> StateView {
        StateView { outbox: self.outbox + deliveries(self.user_names(), r), ..self }
    }

    /// `r` goes to the mailbox of `to`, if there is such a user.
    pub open spec fn send(self, to: Seq<char>, r: ResponseView) -> StateView {
        if self.has_user(to) {
            StateView { outbox: self.outbox.push(Mail::Deliver { to, response: r }), ..self }
        } else {
            self
        }
    }
}

/// After `u`, the user at position `i`, leaves the registry and every
/// room, the state is still well formed.
proof fn lemma_removed_wf(s0: StateView, s: StateView, i: int, u: Seq<char>)
    requires
        s0.wf(),
        0 <= i < s0.users.len(),
        s0.users[i].name == u,
        s.users == s0.users.remove(i),
        s.rooms == s0.rooms.map_values(|r: RoomView| RoomView { name: r.name, members: without(r.members, u) }),
    ensures
        s.wf(),
{
    assert forall|x: int, y: int|
        0 <= x < s.users.len() && 0 <= y < s.users.len() && x != y
        implies #[trigger] s.users[x].name != #[trigger] s.users[y].name
            && s.users[x].addr != s.users[y].addr by {
        let xx = if x < i { x } else { x + 1 };
        let yy = if y < i { y } else { y + 1 };
        assert(s.users[x] == s0.users[xx]);
        assert(s.users[y] == s0.users[yy]);
    }
    assert forall|x: int| 0 <= x < s.rooms.len() implies (#[trigger] s.rooms[x]).members.no_duplicates() by {
        let m = s0.rooms[x].members;
        if m.contains(u) {
            let k = m.index_of(u);
            assert forall|p: int, q: int|
                0 <= p < without(m, u).len() && 0 <= q < without(m, u).len() && p != q
                implies without(m, u)[p] != without(m, u)[q] by {
                let pp = if p < k { p } else { p + 1 };
                let qq = if q < k { q } else { q + 1 };
                assert(without(m, u)[p] == m[pp]);
                assert(without(m, u)[q] == m[qq]);
            }
        }
    }
    assert forall|x: int, k: int|
        0 <= x < s.rooms.len() && 0 <= k < s.rooms[x].members.len()
        implies s.has_user(#[trigger] s.rooms[x].members[k]) by {
        let m = s0.rooms[x].members;
        let n = s.rooms[x].members[k];
        let kk = if m.contains(u) && k >= m.index_of(u) { k + 1 } else { k };
        assert(n == m[kk]);
        if m.contains(u) {
            assert(m[m.index_of(u)] == u);
            assert(n != u);
        } else {
            assert(n != u);
        }
        assert(s0.has_user(n));
        let w = choose|w: int| 0 <= w < s0.users.len() && s0.users[w].name == n;
        assert(w != i);
        let ww = if w < i { w } else { w - 1 };
        assert(s.users[ww].name == n);
    }
}

struct User {
    name: String,
    peer: Peer,
}

impl View for User {
    type V = UserView;

    closed spec fn view(&self) -> UserView {
        UserView { name: self.name@, addr: self.peer.addr, alive: self.peer.keep_alive }
    }
}

struct Room {
    name: String,
    members: Vec<String>,
}

impl View for Room {
    type V = RoomView;

    closed spec fn view(&self) -> RoomView {
        RoomView { name: self.name@, members: texts(self.members@) }
    }
}

/// The registry of users and rooms, with everything sent to the peers'
/// channels recorded in a ghost log.
pub struct State {
    users: Vec<User>,
    rooms: Vec<Room>,
    outbox: Ghost<Seq<Mail>>,
}

impl View for State {
    type V = StateView;

    closed spec fn view(&self) -> StateView {
        StateView {
            users: self.users@.map_values(|u: User| u@),
            rooms: self.rooms@.map_values(|r: Room| r@),
            outbox: self.outbox@,
        }
    }
}

/// The position of `name` among `names`.
fn position(names: &Vec<String>, name: &String) -> (r: Option<usize>)
    ensures
        r matches Some(k) ==> k < names@.len() && names@[k as int]@ == name@,
        r is None ==> !texts(names@).contains(name@),
{
    let mut k: usize = 0;
    while k < names.len()
        invariant
            k <= names@.len(),
            forall|j: int| 0 <= j < k ==> names@[j]@ != name@,
        decreases names@.len() - k,
    {
        if names[k] == *name {
            return Some(k);
        }
        k = k + 1;
    }
    proof {
        if texts(names@).contains(name@) {
            let j = choose|j: int| 0 <= j < texts(names@).len() && texts(names@)[j] == name@;
            assert(names@[j]@ == name@);
        }
    }
    None
}

impl State {
    /// The empty state.
    pub fn new() -> (s: State)
        ensures
            s@.users.len() == 0,
            s@.rooms.len() == 0,
            s@.outbox.len() == 0,
            s@.wf(),
    {
        let s = State { users: Vec::new(), rooms: Vec::new(), outbox: Ghost(Seq::empty()) };
        assert(s@.users =~= seq![]);
        assert(s@.rooms =~= seq![]);
        s
    }

    /// `Hello{username}` from `peer`.
    pub fn hello(&mut self, username: String, peer: Peer) -> (r: ResponseType)
        requires
            old(self)@.wf(),
        ensures
            final(self)@.wf(),
            (final(self)@, r@) == old(self)@.hello(username@, peer.address(), peer.alive()),
    {
        if self.find_user(&username).is_some() {
            return ResponseType::Sender(Response::Error(ResponseError::UserAlreadyExists(username)));
        }
        if self.find_addr(peer.addr).is_some() {
            return ResponseType::Nothing;
        }
        let ghost s0 = self@;
        let ghost entry = UserView { name: username@, addr: peer.addr, alive: peer.keep_alive };
        self.users.push(User { name: username, peer });
        proof {
            assert(self@.users =~= s0.users.push(entry));
            assert(self@.rooms == s0.rooms);
            assert forall|i: int, k: int|
                0 <= i < self@.rooms.len() && 0 <= k < self@.rooms[i].members.len()
                implies self@.has_user(#[trigger] self@.rooms[i].members[k]) by {
                let n = self@.rooms[i].members[k];
                assert(s0.has_user(n));
                let w = choose|w: int| 0 <= w < s0.users.len() && s0.users[w].name == n;
                assert(self@.users[w].name == n);
            }
        }
        ResponseType::Nothing
    }

    /// `JoinOrCreate{room}` from the peer at `a`.
    pub fn join_or_create(&mut self, room: String, a: Addr) -> (r: ResponseType)
        requires
            old(self)@.wf(),
        ensures
            final(self)@.wf(),
            (final(self)@, r@) == old(self)@.join_or_create(room@, a),
    {
        let i = match self.find_addr(a) {
            Some(i) => i,
            None => return ResponseType::Nothing,
        };
        let ghost s0 = self@;
        let ghost u = s0.name_of(a);
        let ghost m2 = if s0.members(room@).contains(u) { s0.members(room@) } else { s0.members(room@).push(u) };
        let user = self.users[i].name.clone();
        let j = match self.find_room(&room) {
            Some(j) => {
                match position(&self.rooms[j].members, &user) {
                    Some(k) => {
                        proof {
                            assert(texts(self.rooms@[j as int].members@)[k as int] == u);
                            assert(s0.members(room@).contains(u));
                        }
                    },
                    None => {
                        self.rooms[j].members.push(user);
                        proof {
                            assert(texts(self.rooms@[j as int].members@) =~= s0.rooms[j as int].members.push(u));
                        }
                    },
                }
                j
            },
            None => {
                let mut members: Vec<String> = Vec::new();
                members.push(user);
                self.rooms.push(Room { name: room.clone(), members });
                proof {
                    assert(texts(self.rooms@.last().members@) =~= seq![u]);
                    assert(s0.members(room@) =~= seq![]);
                    assert(m2 =~= seq![u]);
                }
                self.rooms.len() - 1
            },
        };
        proof {
            let entry = RoomView { name: room@, members: m2 };
            assert(self@.rooms[j as int] == entry);
            if s0.has_room(room@) {
                assert forall|x: int| 0 <= x < self@.rooms.len() && x != j implies self@.rooms[x] == s0.rooms[x] by {
                }
                assert(self@.rooms =~= s0.rooms.update(j as int, entry));
            } else {
                assert(self@.rooms =~= s0.rooms.push(entry));
            }
            assert(self@.users == s0.users);
            assert forall|x: int, y: int|
                0 <= x < self@.rooms.len() && 0 <= y < self@.rooms.len() && x != y
                implies #[trigger] self@.rooms[x].name != #[trigger] self@.rooms[y].name by {
            }
            assert forall|x: int| 0 <= x < self@.rooms.len() implies (#[trigger] self@.rooms[x]).members.no_duplicates() by {
            }
            assert forall|x: int, k: int|
                0 <= x < self@.rooms.len() && 0 <= k < self@.rooms[x].members.len()
                implies self@.has_user(#[trigger] self@.rooms[x].members[k]) by {
                if x == j && self@.rooms[x].members[k] == u {
                    assert(self@.users[i as int].name == u);
                }
            }
            assert(self@.wf());
        }
        let names = copy_strings(&self.rooms[j].members);
        proof {
            assert forall|p: int| 0 <= p < names@.len() implies self@.has_user(#[trigger] names@[p]@) by {
                assert(names@[p]@ == self@.rooms[j as int].members[p]);
            }
        }
        let resp = Response::ListMembers { room: room.clone(), users: copy_strings(&names) };
        let ghost mid = self@;
        self.deliver(&names, &resp);
        assert(self@.users == mid.users && self@.rooms == mid.rooms);
        ResponseType::BroadcastRoom(room, resp)
    }

    /// `Leave{room}` from the peer at `a`.
    pub fn leave_room(&mut self, room: String, a: Addr) -> (r: ResponseType)
        requires
            old(self)@.wf(),
        ensures
            final(self)@.wf(),
            (final(self)@, r@) == old(self)@.leave(room@, a),
    {
        let i = match self.find_addr(a) {
            Some(i) => i,
            None => return ResponseType::Nothing,
        };
        let ghost s0 = self@;
        let ghost u = s0.name_of(a);
        let user = self.users[i].name.clone();
        let j = match self.find_room(&room) {
            Some(j) => j,
            None => return ResponseType::Sender(Response::Error(ResponseError::RoomDoesNotExist(room))),
        };
        let k = match position(&self.rooms[j].members, &user) {
            Some(k) => k,
            None => return ResponseType::Sender(
                Response::Error(ResponseError::UserNotInRoom { user, room }),
            ),
        };
        let ghost m = s0.rooms[j as int].members;
        proof {
            assert(m[k as int] == u);
            assert(m.contains(u));
            assert(m.index_of(u) == k);
        }
        let before = copy_strings(&self.rooms[j].members);
        self.rooms[j].members.remove(k);
        proof {
            assert(texts(self.rooms@[j as int].members@) =~= m.remove(k as int));
            assert(self@.rooms =~= s0.rooms.update(j as int, RoomView { name: room@, members: without(m, u) }));
            assert(self@.users == s0.users);
            assert forall|x: int, y: int|
                0 <= x < self@.rooms.len() && 0 <= y < self@.rooms.len() && x != y
                implies #[trigger] self@.rooms[x].name != #[trigger] self@.rooms[y].name by {
            }
            assert forall|x: int| 0 <= x < self@.rooms.len() implies (#[trigger] self@.rooms[x]).members.no_duplicates() by {
                if x == j {
                    assert forall|p: int, q: int|
                        0 <= p < without(m, u).len() && 0 <= q < without(m, u).len() && p != q
                        implies without(m, u)[p] != without(m, u)[q] by {
                        let pp = if p < k { p } else { p + 1 };
                        let qq = if q < k { q } else { q + 1 };
                        assert(without(m, u)[p] == m[pp]);
                        assert(without(m, u)[q] == m[qq]);
                    }
                }
            }
            assert forall|x: int, y: int|
                0 <= x < self@.rooms.len() && 0 <= y < self@.rooms[x].members.len()
                implies self@.has_user(#[trigger] self@.rooms[x].members[y]) by {
                if x == j {
                    let yy = if y < k { y } else { y + 1 };
                    assert(self@.rooms[x].members[y] == s0.rooms[x].members[yy]);
                }
            }
            assert(self@.wf());
            assert forall|p: int| 0 <= p < before@.len() implies self@.has_user(#[trigger] before@[p]@) by {
                assert(before@[p]@ == texts(before@)[p]);
                assert(s0.has_user(s0.rooms[j as int].members[p]));
            }
        }
        let after = copy_strings(&self.rooms[j].members);
        let resp = Response::ListMembers { room: room.clone(), users: after };
        let ghost mid = self@;
        self.deliver(&before, &resp);
        assert(self@.users == mid.users && self@.rooms == mid.rooms);
        ResponseType::BroadcastRoom(room, resp)
    }

    /// `ListRooms`.
    pub fn list_rooms(&self) -> (r: ResponseType)
        ensures
            (self@, r@) == self@.list_rooms(),
    {
        let mut rooms: Vec<String> = Vec::new();
        let mut j: usize = 0;
        while j < self.rooms.len()
            invariant
                j <= self.rooms@.len(),
                rooms@.len() == j,
                texts(rooms@) == self@.room_names().subrange(0, j as int),
            decreases self.rooms@.len() - j,
        {
            rooms.push(self.rooms[j].name.clone());
            assert(self@.room_names()[j as int] == self.rooms@[j as int].name@);
            j = j + 1;
            assert forall|k: int| 0 <= k < j implies texts(rooms@)[k] == self@.room_names()[k] by {
                if k < j - 1 {
                    assert(texts(rooms@)[k] == rooms@[k]@);
                    assert(self@.room_names().subrange(0, j - 1)[k] == self@.room_names()[k]);
                }
            }
            assert(texts(rooms@) =~= self@.room_names().subrange(0, j as int));
        }
        assert(self@.room_names().subrange(0, j as int) =~= self@.room_names());
        ResponseType::Sender(Response::ListRooms { rooms })
    }

    /// `ListUsers`.
    pub fn list_users(&self) -> (r: ResponseType)
        ensures
            (self@, r@) == self@.list_users(),
    {
        let mut users: Vec<String> = Vec::new();
        let mut i: usize = 0;
        while i < self.users.len()
            invariant
                i <= self.users@.len(),
                users@.len() == i,
                texts(users@) == self@.user_names().subrange(0, i as int),
            decreases self.users@.len() - i,
        {
            users.push(self.users[i].name.clone());
            assert(self@.user_names()[i as int] == self.users@[i as int].name@);
            i = i + 1;
            assert forall|k: int| 0 <= k < i implies texts(users@)[k] == self@.user_names()[k] by {
                if k < i - 1 {
                    assert(texts(users@)[k] == users@[k]@);
                    assert(self@.user_names().subrange(0, i - 1)[k] == self@.user_names()[k]);
                }
            }
            assert(texts(users@) =~= self@.user_names().subrange(0, i as int));
        }
        assert(self@.user_names().subrange(0, i as int) =~= self@.user_names());
        ResponseType::Sender(Response::ListUsers { users })
    }

    /// `Send{target, message}` from the peer at `a`.
    pub fn send(&mut self, target: Target, message: String, a: Addr) -> (r: ResponseType)
        requires
            old(self)@.wf(),
        ensures
            final(self)@.wf(),
            (final(self)@, r@) == match target {
                Target::Room(room) => old(self)@.send_room(room@, message@, a),
                Target::Username(to) => old(self)@.send_user(to@, message@, a),
            },
    {
        let i = match self.find_addr(a) {
            Some(i) => i,
            None => return ResponseType::Nothing,
        };
        let sender = self.users[i].name.clone();
        let ghost s0 = self@;
        match target {
            Target::Room(room) => {
                let resp = Response::TellRoom { room: room.clone(), sender, message };
                self.broadcast_room(&room, &resp);
                assert(self@.users == s0.users && self@.rooms == s0.rooms);
                assert(self@.outbox == s0.send_room(room@, message@, a).0.outbox);
                ResponseType::BroadcastRoom(room, resp)
            },
            Target::Username(username) => {
                let resp = Response::TellUser { username: username.clone(), sender, message };
                self.send_to(&username, &resp);
                assert(self@.users == s0.users && self@.rooms == s0.rooms);
                proof {
                    if s0.has_user(username@) {
                        assert(self@.outbox =~= s0.send_user(username@, message@, a).0.outbox);
                    } else {
                        assert(self@.outbox =~= s0.send_user(username@, message@, a).0.outbox);
                    }
                }
                ResponseType::SenderAndUser(username, resp)
            },
        }
    }

    /// `KeepAlive` from the peer at `a`.
    pub fn keep_alive(&mut self, a: Addr) -> (r: ResponseType)
        requires
            old(self)@.wf(),
        ensures
            final(self)@.wf(),
            (final(self)@, r@) == old(self)@.keep_alive(a),
    {
        let i = match self.find_addr(a) {
            Some(i) => i,
            None => return ResponseType::Nothing,
        };
        let ghost s0 = self@;
        self.users[i].peer.keep_alive = true;
        proof {
            assert(self@.users =~= s0.users.update(i as int, UserView { alive: true, ..s0.users[i as int] }));
            assert(self@.rooms == s0.rooms);
            assert forall|x: int, k: int|
                0 <= x < self@.rooms.len() && 0 <= k < self@.rooms[x].members.len()
                implies self@.has_user(#[trigger] self@.rooms[x].members[k]) by {
                let n = self@.rooms[x].members[k];
                assert(s0.has_user(n));
                let w = choose|w: int| 0 <= w < s0.users.len() && s0.users[w].name == n;
                assert(self@.users[w].name == n);
            }
        }
        ResponseType::Nothing
    }

    /// Applies a command from `peer` and tells the caller what to write on
    /// the sender's own connection. Responses for other peers are already in
    /// their mailboxes when this returns.
    pub fn apply(&mut self, command: Command, peer: Peer) -> (r: ResponseType)
        requires
            old(self)@.wf(),
        ensures
            final(self)@.wf(),
            (final(self)@, r@) == old(self)@.apply(command, peer.address(), peer.alive()),
    {
        let a = peer.addr;
        match command {
            Command::Hello { username } => self.hello(username, peer),
            Command::JoinOrCreate { room } => self.join_or_create(room, a),
            Command::Leave { room } => self.leave_room(room, a),
            Command::KeepAlive => self.keep_alive(a),
            Command::ListRooms => self.list_rooms(),
            Command::ListUsers => self.list_users(),
            Command::Send { target, message } => self.send(target, message, a),
        }
    }

    /// Puts a copy of `resp` in the mailbox of every member of `room`.
    pub fn broadcast_room(&mut self, room: &String, resp: &Response)
        requires
            old(self)@.wf(),
        ensures
            final(self)@.wf(),
            final(self)@ == old(self)@.broadcast_room(room@, resp@),
    {
        match self.find_room(room) {
            Some(j) => {
                let names = copy_strings(&self.rooms[j].members);
                proof {
                    assert forall|p: int| 0 <= p < names@.len() implies self@.has_user(#[trigger] names@[p]@) by {
                        assert(names@[p]@ == self@.rooms[j as int].members[p]);
                    }
                    assert(texts(names@) =~= self@.members(room@));
                }
                let ghost mid = self@;
                self.deliver(&names, resp);
                assert(self@.users == mid.users && self@.rooms == mid.rooms);
            },
            None => {
                proof {
                    assert(deliveries(self@.members(room@), resp@) =~= seq![]);
                    assert(self@.outbox =~= self@.outbox + deliveries(self@.members(room@), resp@));
                }
            },
        }
    }

    /// Puts a copy of `resp` in the mailbox of every registered user.
    pub fn broadcast(&mut self, resp: &Response)
        requires
            old(self)@.wf(),
        ensures
            final(self)@.wf(),
            final(self)@ == old(self)@.broadcast(resp@),
    {
        let ghost s0 = self@;
        let mut i: usize = 0;
        while i < self.users.len()
            invariant
                i <= self@.users.len(),
                self@ == (StateView {
                    outbox: s0.outbox + deliveries(s0.user_names().subrange(0, i as int), resp@),
                    ..s0
                }),
            decreases self@.users.len() - i,
        {
            self.post(i, resp);
            i = i + 1;
            assert(deliveries(s0.user_names().subrange(0, i as int), resp@) =~= deliveries(
                s0.user_names().subrange(0, i - 1),
                resp@,
            ).push(Mail::Deliver { to: s0.users[i - 1].name, response: resp@ }));
            assert(self@.outbox =~= s0.outbox + deliveries(s0.user_names().subrange(0, i as int), resp@));
        }
        assert(s0.user_names().subrange(0, i as int) =~= s0.user_names());
    }

    /// Puts a copy of `resp` in the mailbox of the user named `to`; nothing
    /// happens where there is no such user.
    pub fn send_to(&mut self, to: &String, resp: &Response)
        requires
            old(self)@.wf(),
        ensures
            final(self)@.wf(),
            final(self)@ == old(self)@.send(to@, resp@),
    {
        match self.find_user(to) {
            Some(k) => {
                let ghost mid = self@;
                self.post(k, resp);
                assert(self@.users == mid.users && self@.rooms == mid.rooms);
            },
            None => {},
        }
    }

    /// A reaper pass: each user whose flag is down gets a kill signal, and
    /// every flag is lowered.
    pub fn kick_keep_alive(&mut self)
        requires
            old(self)@.wf(),
        ensures
            final(self)@.wf(),
            final(self)@ == old(self)@.kick_keep_alive(),
    {
        let ghost s0 = self@;
        let mut i: usize = 0;
        while i < self.users.len()
            invariant
                self@.users.len() == s0.users.len(),
                i <= s0.users.len(),
                forall|k: int| 0 <= k < i ==> self@.users[k] == (UserView { alive: false, ..s0.users[k] }),
                forall|k: int| i <= k < s0.users.len() ==> self@.users[k] == s0.users[k],
                self@.rooms == s0.rooms,
                self@.outbox == s0.outbox + kill_mails(s0.users.subrange(0, i as int)),
            decreases s0.users.len() - i,
        {
            let ghost before = self@;
            if !self.users[i].peer.keep_alive {
                let _ = self.users[i].peer.kill_tx.send(Kill);
                self.outbox = Ghost(self.outbox@.push(Mail::Kill { to: self@.users[i as int].name }));
                assert(self@.users == before.users);
            } else {
                self.users[i].peer.keep_alive = false;
                assert(self@.users =~= before.users.update(i as int, UserView { alive: false, ..before.users[i as int] }));
            }
            proof {
                assert(s0.users.subrange(0, i + 1).drop_last() =~= s0.users.subrange(0, i as int));
                assert(s0.users.subrange(0, i + 1).last() == s0.users[i as int]);
                assert(self@.rooms == s0.rooms);
            }
            i = i + 1;
            assert(self@.outbox =~= s0.outbox + kill_mails(s0.users.subrange(0, i as int)));
        }
        proof {
            assert(s0.users.subrange(0, i as int) =~= s0.users);
            assert(self@.users =~= s0.users.map_values(|u: UserView| UserView { alive: false, ..u }));
            assert forall|x: int, k: int|
                0 <= x < self@.rooms.len() && 0 <= k < self@.rooms[x].members.len()
                implies self@.has_user(#[trigger] self@.rooms[x].members[k]) by {
                let n = self@.rooms[x].members[k];
                assert(s0.has_user(n));
                let w = choose|w: int| 0 <= w < s0.users.len() && s0.users[w].name == n;
                assert(self@.users[w].name == n);
            }
        }
    }

    /// The peer leaves: its user is dropped from the registry and from every
    /// room, and each room it was in sends its new roster to the remaining
    /// members. A peer that never said hello leaves nothing to drop.
    pub fn remove_peer(&mut self, peer: &Peer)
        requires
            old(self)@.wf(),
        ensures
            final(self)@.wf(),
            final(self)@ == old(self)@.remove_peer(peer.address()),
    {
        let a = peer.addr;
        let i = match self.find_addr(a) {
            Some(i) => i,
            None => return,
        };
        let ghost s0 = self@;
        let ghost u = s0.name_of(a);
        let user = self.users[i].name.clone();
        self.users.remove(i);
        proof {
            assert(self@.users =~= s0.users.remove(i as int));
            assert forall|p: int| 0 <= p < self@.users.len() implies (#[trigger] self@.users[p]).name != u by {
                let pp = if p < i { p } else { p + 1 };
                assert(self@.users[p] == s0.users[pp]);
            }
        }
        let mut j: usize = 0;
        while j < self.rooms.len()
            invariant
                s0.wf(),
                0 <= i < s0.users.len(),
                s0.users[i as int].name == u,
                user@ == u,
                self@.users == s0.users.remove(i as int),
                self@.names_unique(),
                forall|p: int| 0 <= p < self@.users.len() ==> (#[trigger] self@.users[p]).name != u,
                self@.rooms.len() == s0.rooms.len(),
                j <= s0.rooms.len(),
                forall|x: int| 0 <= x < j ==> self@.rooms[x] == (RoomView {
                    name: s0.rooms[x].name,
                    members: without(s0.rooms[x].members, u),
                }),
                forall|x: int| j <= x < s0.rooms.len() ==> self@.rooms[x] == s0.rooms[x],
                self@.outbox == s0.outbox + removal_mails(s0.rooms.subrange(0, j as int), u),
            decreases s0.rooms.len() - j,
        {
            let ghost m = s0.rooms[j as int].members;
            proof {
                assert(s0.rooms.subrange(0, j + 1).drop_last() =~= s0.rooms.subrange(0, j as int));
                assert(s0.rooms.subrange(0, j + 1).last() == s0.rooms[j as int]);
            }
            match position(&self.rooms[j].members, &user) {
                Some(k) => {
                    let ghost before = self@;
                    proof {
                        assert(m[k as int] == u);
                        assert(m.contains(u));
                        assert(m.index_of(u) == k);
                    }
                    self.rooms[j].members.remove(k);
                    proof {
                        assert(texts(self.rooms@[j as int].members@) =~= m.remove(k as int));
                        assert(self@.rooms =~= before.rooms.update(
                            j as int,
                            RoomView { name: s0.rooms[j as int].name, members: without(m, u) },
                        ));
                        assert(self@.users == before.users);
                        assert forall|p: int| 0 <= p < without(m, u).len() implies self@.has_user(
                            #[trigger] without(m, u)[p],
                        ) by {
                            let pp = if p < k { p } else { p + 1 };
                            assert(without(m, u)[p] == m[pp]);
                            assert(m[pp] != u);
                            let n = m[pp];
                            assert(s0.has_user(n));
                            let w = choose|w: int| 0 <= w < s0.users.len() && s0.users[w].name == n;
                            assert(w != i);
                            let ww = if w < i { w } else { w - 1 };
                            assert(self@.users[ww].name == n);
                        }
                    }
                    let names = copy_strings(&self.rooms[j].members);
                    let room_name = self.rooms[j].name.clone();
                    proof {
                        assert(texts(names@) == without(m, u));
                        assert forall|p: int| 0 <= p < names@.len() implies self@.has_user(#[trigger] names@[p]@) by {
                            assert(names@[p]@ == texts(names@)[p]);
                        }
                    }
                    let resp = Response::ListMembers { room: room_name, users: copy_strings(&names) };
                    let ghost mid = self@;
                    self.deliver(&names, &resp);
                    proof {
                        assert(self@.users == mid.users && self@.rooms == mid.rooms);
                    }
                },
                None => {
                    proof {
                        assert(!m.contains(u));
                        assert(without(m, u) == m);
                    }
                },
            }
            j = j + 1;
            assert(self@.outbox =~= s0.outbox + removal_mails(s0.rooms.subrange(0, j as int), u));
        }
        proof {
            assert(s0.rooms.subrange(0, j as int) =~= s0.rooms);
            assert(self@.rooms =~= s0.rooms.map_values(
                |r: RoomView| RoomView { name: r.name, members: without(r.members, u) },
            ));
            lemma_removed_wf(s0, self@, i as int, u);
        }
    }

    /// Puts a copy of `resp` in the mailbox of the user at position `k`.
    fn post(&mut self, k: usize, resp: &Response)
        requires
            k < old(self)@.users.len(),
        ensures
            final(self)@ == (StateView {
                outbox: old(self)@.outbox.push(Mail::Deliver { to: old(self)@.users[k as int].name, response: resp@ }),
                ..old(self)@
            }),
    {
        let _ = self.users[k].peer.tx.send(resp.duplicate());
        self.outbox = Ghost(self.outbox@.push(Mail::Deliver { to: self@.users[k as int].name, response: resp@ }));
    }

    /// Puts a copy of `resp` in the mailbox of each of `names`, in order.
    fn deliver(&mut self, names: &Vec<String>, resp: &Response)
        requires
            old(self)@.names_unique(),
            forall|k: int| 0 <= k < names@.len() ==> old(self)@.has_user(#[trigger] names@[k]@),
        ensures
            final(self)@ == (StateView { outbox: old(self)@.outbox + deliveries(texts(names@), resp@), ..old(self)@ }),
    {
        let ghost s0 = self@;
        let mut i: usize = 0;
        while i < names.len()
            invariant
                s0.names_unique(),
                i <= names@.len(),
                forall|k: int| 0 <= k < names@.len() ==> s0.has_user(#[trigger] names@[k]@),
                self@ == (StateView {
                    outbox: s0.outbox + deliveries(texts(names@.subrange(0, i as int)), resp@),
                    ..s0
                }),
            decreases names@.len() - i,
        {
            assert(s0.has_user(names@[i as int]@));
            assert(self@.users == s0.users && self@.rooms == s0.rooms);
            match self.find_user(&names[i]) {
                Some(k) => {
                    self.post(k, resp);
                },
                None => {},
            }
            i = i + 1;
            assert(deliveries(texts(names@.subrange(0, i as int)), resp@) =~= deliveries(
                texts(names@.subrange(0, i - 1)),
                resp@,
            ).push(Mail::Deliver { to: names@[i - 1]@, response: resp@ }));
            assert(self@.outbox =~= s0.outbox + deliveries(texts(names@.subrange(0, i as int)), resp@));
        }
        assert(names@.subrange(0, names@.len() as int) =~= names@);
    }

    /// The position of the user registered from `a`.
    fn find_addr(&self, a: Addr) -> (r: Option<usize>)
        requires
            self@.wf(),
        ensures
            r matches Some(i) ==> i < self@.users.len() && self@.has_addr(a) && self@.addr_index(a) == i,
            r is None ==> !self@.has_addr(a),
    {
        let mut i: usize = 0;
        while i < self.users.len()
            invariant
                i <= self.users@.len(),
                self@.wf(),
                forall|j: int| 0 <= j < i ==> self@.users[j].addr != a,
            decreases self.users@.len() - i,
        {
            if self.users[i].peer.addr == a {
                assert(self@.users[i as int].addr == a);
                return Some(i);
            }
            i = i + 1;
        }
        None
    }

    /// The position of the user named `n`.
    fn find_user(&self, n: &String) -> (r: Option<usize>)
        requires
            self@.names_unique(),
        ensures
            r matches Some(i) ==> i < self@.users.len() && self@.has_user(n@) && self@.user_index(n@) == i,
            r is None ==> !self@.has_user(n@),
    {
        let mut i: usize = 0;
        while i < self.users.len()
            invariant
                i <= self.users@.len(),
                self@.names_unique(),
                forall|j: int| 0 <= j < i ==> self@.users[j].name != n@,
            decreases self.users@.len() - i,
        {
            if self.users[i].name == *n {
                assert(self@.users[i as int].name == n@);
                return Some(i);
            }
            i = i + 1;
        }
        None
    }

    /// The position of the room named `r`.
    fn find_room(&self, r: &String) -> (res: Option<usize>)
        requires
            self@.wf(),
        ensures
            res matches Some(j) ==> j < self@.rooms.len() && self@.has_room(r@) && self@.room_index(r@) == j,
            res is None ==> !self@.has_room(r@),
    {
        let mut j: usize = 0;
        while j < self.rooms.len()
            invariant
                j <= self.rooms@.len(),
                self@.wf(),
                forall|k: int| 0 <= k < j ==> self@.rooms[k].name != r@,
            decreases self.rooms@.len() - j,
        {
            if self.rooms[j].name == *r {
                assert(self@.rooms[j as int].name == r@);
                return Some(j);
            }
            j = j + 1;
        }
        None
    }
}

} // verus!

use rs_chat::commands::{Command, Kill, Response, ResponseError, Target};
use rs_chat::server::{Event, ServerState, Step};
use rs_chat::state::{Addr, Peer, ResponseType, State};
use tokio::sync::mpsc::{unbounded_channel, UnboundedReceiver};

struct Client {
    peer: Peer,
    mailbox: UnboundedReceiver<Response>,
    kill: UnboundedReceiver<Kill>,
}

fn client(port: u16) -> Client {
    let (tx, mailbox) = unbounded_channel();
    let (kill_tx, kill) = unbounded_channel();
    let addr = Addr { ip: 0xffff_7f00_0001, port };
    Client { peer: Peer::new(addr, tx, kill_tx), mailbox, kill }
}

fn drain(c: &mut Client) -> Vec<Response> {
    let mut out = Vec::new();
    while let Ok(r) = c.mailbox.try_recv() {
        out.push(r);
    }
    out
}

fn strings(v: &[&str]) -> Vec<String> {
    v.iter().map(|s| s.to_string()).collect()
}

fn hello(state: &ServerState, c: &Client, name: &str) -> ResponseType {
    state.apply(Command::Hello { username: name.to_string() }, c.peer.clone())
}

fn join(state: &ServerState, c: &Client, room: &str) -> ResponseType {
    state.apply(Command::JoinOrCreate { room: room.to_string() }, c.peer.clone())
}

fn members(room: &str, users: &[&str]) -> Response {
    Response::ListMembers { room: room.to_string(), users: strings(users) }
}

fn list_users(state: &ServerState, c: &Client) -> Vec<String> {
    match state.apply(Command::ListUsers, c.peer.clone()) {
        ResponseType::Sender(Response::ListUsers { users }) => users,
        other => panic!("unexpected verdict {other:?}"),
    }
}

/// Two peers, alice and bob, both in the lobby, mailboxes drained.
fn lobby() -> (ServerState, Client, Client) {
    let state = ServerState::new();
    let mut a = client(5001);
    let mut b = client(5002);
    hello(&state, &a, "alice");
    hello(&state, &b, "bob");
    join(&state, &a, "lobby");
    join(&state, &b, "lobby");
    drain(&mut a);
    drain(&mut b);
    (state, a, b)
}

#[test]
fn hello_conflict() {
    let state = ServerState::new();
    let mut a = client(5001);
    let mut b = client(5002);
    assert!(matches!(hello(&state, &a, "alice"), ResponseType::Nothing));
    match hello(&state, &b, "alice") {
        ResponseType::Sender(r) => {
            assert_eq!(r, Response::Error(ResponseError::UserAlreadyExists("alice".to_string())))
        }
        other => panic!("unexpected verdict {other:?}"),
    }
    assert!(drain(&mut a).is_empty());
    assert!(drain(&mut b).is_empty());
    assert_eq!(list_users(&state, &a), strings(&["alice"]));
}

#[test]
fn join_broadcasts_roster() {
    let state = ServerState::new();
    let mut a = client(5001);
    let mut b = client(5002);
    hello(&state, &a, "alice");
    hello(&state, &b, "bob");
    match join(&state, &a, "lobby") {
        ResponseType::BroadcastRoom(room, r) => {
            assert_eq!(room, "lobby");
            assert_eq!(r, members("lobby", &["alice"]));
        }
        other => panic!("unexpected verdict {other:?}"),
    }
    join(&state, &b, "lobby");
    assert_eq!(
        drain(&mut a),
        vec![members("lobby", &["alice"]), members("lobby", &["alice", "bob"])]
    );
    assert_eq!(drain(&mut b), vec![members("lobby", &["alice", "bob"])]);
}

#[test]
fn room_send() {
    let (state, mut a, mut b) = lobby();
    let cmd = Command::Send { target: Target::Room("lobby".to_string()), message: "hi".to_string() };
    let verdict = state.apply(cmd, a.peer.clone());
    let line = Response::TellRoom {
        room: "lobby".to_string(),
        sender: "alice".to_string(),
        message: "hi".to_string(),
    };
    assert!(verdict.for_sender().is_none());
    assert_eq!(drain(&mut a), vec![line.clone()]);
    assert_eq!(drain(&mut b), vec![line]);
}

#[test]
fn direct_send() {
    let (state, mut a, mut b) = lobby();
    let cmd =
        Command::Send { target: Target::Username("bob".to_string()), message: "psst".to_string() };
    let verdict = state.apply(cmd, a.peer.clone());
    let line = Response::TellUser {
        username: "bob".to_string(),
        sender: "alice".to_string(),
        message: "psst".to_string(),
    };
    assert_eq!(verdict.for_sender(), Some(line.clone()));
    assert!(drain(&mut a).is_empty());
    assert_eq!(drain(&mut b), vec![line]);
}

#[test]
fn leave_notifies_remaining() {
    let (state, mut a, mut b) = lobby();
    let verdict = state.apply(Command::Leave { room: "lobby".to_string() }, a.peer.clone());
    assert!(matches!(verdict, ResponseType::BroadcastRoom(_, _)));
    assert_eq!(drain(&mut a), vec![members("lobby", &["bob"])]);
    assert_eq!(drain(&mut b), vec![members("lobby", &["bob"])]);
    join(&state, &b, "lobby");
    assert_eq!(drain(&mut b), vec![members("lobby", &["bob"])]);
    assert!(drain(&mut a).is_empty());
}

#[test]
fn keep_alive_reap() {
    let state = ServerState::new();
    let mut a = client(5001);
    let b = client(5002);
    hello(&state, &a, "alice");
    state.kick_keep_alive();
    assert!(a.kill.try_recv().is_err());
    state.kick_keep_alive();
    assert_eq!(a.kill.try_recv().unwrap(), Kill);
    state.remove_peer(&a.peer);
    assert!(!list_users(&state, &b).contains(&"alice".to_string()));
    assert!(drain(&mut a).is_empty());
}

#[test]
fn keep_alive_keeps_peer() {
    let state = ServerState::new();
    let mut a = client(5001);
    hello(&state, &a, "alice");
    for _ in 0..3 {
        state.kick_keep_alive();
        assert!(matches!(state.apply(Command::KeepAlive, a.peer.clone()), ResponseType::Nothing));
    }
    assert!(a.kill.try_recv().is_err());
}

#[test]
fn join_twice_is_idempotent() {
    let (state, mut a, mut b) = lobby();
    join(&state, &a, "lobby");
    assert_eq!(drain(&mut a), vec![members("lobby", &["alice", "bob"])]);
    assert_eq!(drain(&mut b), vec![members("lobby", &["alice", "bob"])]);
}

#[test]
fn leave_missing_room() {
    let (state, mut a, _b) = lobby();
    match state.apply(Command::Leave { room: "attic".to_string() }, a.peer.clone()) {
        ResponseType::Sender(r) => {
            assert_eq!(r, Response::Error(ResponseError::RoomDoesNotExist("attic".to_string())))
        }
        other => panic!("unexpected verdict {other:?}"),
    }
    match state.apply(Command::ListRooms, a.peer.clone()) {
        ResponseType::Sender(r) => assert_eq!(r, Response::ListRooms { rooms: strings(&["lobby"]) }),
        other => panic!("unexpected verdict {other:?}"),
    }
    assert!(drain(&mut a).is_empty());
}

#[test]
fn leave_by_non_member() {
    let (state, mut a, mut b) = lobby();
    join(&state, &a, "den");
    drain(&mut a);
    match state.apply(Command::Leave { room: "den".to_string() }, b.peer.clone()) {
        ResponseType::Sender(r) => assert_eq!(
            r,
            Response::Error(ResponseError::UserNotInRoom {
                user: "bob".to_string(),
                room: "den".to_string()
            })
        ),
        other => panic!("unexpected verdict {other:?}"),
    }
    assert!(drain(&mut a).is_empty());
    assert!(drain(&mut b).is_empty());
    state.broadcast_room(&"den".to_string(), Response::KeepAlive);
    assert_eq!(drain(&mut a), vec![Response::KeepAlive]);
    assert!(drain(&mut b).is_empty());
}

#[test]
fn send_to_unknown_user_is_dropped() {
    let (state, mut a, mut b) = lobby();
    let cmd =
        Command::Send { target: Target::Username("carol".to_string()), message: "yo".to_string() };
    let line = Response::TellUser {
        username: "carol".to_string(),
        sender: "alice".to_string(),
        message: "yo".to_string(),
    };
    assert_eq!(state.apply(cmd, a.peer.clone()).for_sender(), Some(line));
    assert!(drain(&mut a).is_empty());
    assert!(drain(&mut b).is_empty());
}

#[test]
fn remove_peer_clears_rooms_and_notifies() {
    let (state, mut a, mut b) = lobby();
    join(&state, &a, "den");
    drain(&mut a);
    state.remove_peer(&a.peer);
    assert_eq!(drain(&mut b), vec![members("lobby", &["bob"])]);
    assert!(drain(&mut a).is_empty());
    assert_eq!(list_users(&state, &b), strings(&["bob"]));
    match state.apply(Command::ListRooms, b.peer.clone()) {
        ResponseType::Sender(r) => {
            assert_eq!(r, Response::ListRooms { rooms: strings(&["lobby", "den"]) })
        }
        other => panic!("unexpected verdict {other:?}"),
    }
    join(&state, &b, "den");
    assert_eq!(drain(&mut b), vec![members("den", &["bob"])]);
}

#[test]
fn broadcast_reaches_everyone() {
    let (state, mut a, mut b) = lobby();
    state.broadcast(Response::KeepAlive);
    assert_eq!(drain(&mut a), vec![Response::KeepAlive]);
    assert_eq!(drain(&mut b), vec![Response::KeepAlive]);
    state.send(&"bob".to_string(), Response::KeepAlive);
    state.send(&"nobody".to_string(), Response::KeepAlive);
    assert!(drain(&mut a).is_empty());
    assert_eq!(drain(&mut b), vec![Response::KeepAlive]);
}

#[test]
fn commands_before_hello_are_ignored() {
    let state = ServerState::new();
    let mut a = client(5001);
    assert!(matches!(join(&state, &a, "lobby"), ResponseType::Nothing));
    assert!(drain(&mut a).is_empty());
    match state.apply(Command::ListRooms, a.peer.clone()) {
        ResponseType::Sender(r) => assert_eq!(r, Response::ListRooms { rooms: vec![] }),
        other => panic!("unexpected verdict {other:?}"),
    }
}

#[test]
fn second_hello_keeps_first_name() {
    let state = ServerState::new();
    let a = client(5001);
    hello(&state, &a, "alice");
    assert!(matches!(hello(&state, &a, "alicia"), ResponseType::Nothing));
    assert_eq!(list_users(&state, &a), strings(&["alice"]));
}

#[test]
fn state_without_lock() {
    let mut state = State::new();
    let mut a = client(5001);
    state.hello("alice".to_string(), a.peer.clone());
    let verdict = state.join_or_create("lobby".to_string(), a.peer.addr());
    assert!(matches!(verdict, ResponseType::BroadcastRoom(_, _)));
    assert_eq!(drain(&mut a), vec![members("lobby", &["alice"])]);
    assert_eq!(a.peer.addr().port, 5001);
}

#[test]
fn session_steps() {
    let (state, mut a, mut b) = lobby();
    assert!(matches!(state.step(&a.peer, Event::Kill), Step::Stop));
    assert!(matches!(state.step(&a.peer, Event::Closed), Step::Stop));
    assert!(matches!(state.step(&a.peer, Event::Tick), Step::Idle));
    assert_eq!(drain(&mut a), vec![Response::KeepAlive]);
    assert_eq!(drain(&mut b), vec![Response::KeepAlive]);
    match state.step(&a.peer, Event::Mail(Response::KeepAlive)) {
        Step::Write(r) => assert_eq!(r, Response::KeepAlive),
        other => panic!("unexpected step {other:?}"),
    }
    match state.step(&a.peer, Event::Command(Command::ListUsers)) {
        Step::Write(r) => assert_eq!(r, Response::ListUsers { users: strings(&["alice", "bob"]) }),
        other => panic!("unexpected step {other:?}"),
    }
    let leave = Event::Command(Command::Leave { room: "lobby".to_string() });
    assert!(matches!(state.step(&b.peer, leave), Step::Idle));
    assert_eq!(drain(&mut a), vec![members("lobby", &["alice"])]);
    assert_eq!(drain(&mut b), vec![members("lobby", &["alice"])]);
}

//! Facts about the registry's rules that hold for every state and every
//! command, proved over the model of `state`.
use vstd::prelude::*;

use crate::commands::{Command, ResponseErrorView, ResponseView};
use crate::state::{
    deliveries, kill_mails, without, Addr, Mail, ResponseTypeView, RoomView, StateView, UserView,
};

verus! {

/// The address map and the user map agree: the name registered from an
/// address is a user whose peer has that address, and the other way round.
pub proof fn lemma_addr_user_agree(s: StateView)
    requires
        s.wf(),
    ensures
        forall|a: Addr| #[trigger] s.addr_to_user().contains_key(a)
            ==> s.user_addrs().contains_key(s.addr_to_user()[a]) && s.user_addrs()[s.addr_to_user()[a]] == a,
        forall|n: Seq<char>| #[trigger] s.user_addrs().contains_key(n)
            ==> s.addr_to_user().contains_key(s.user_addrs()[n]) && s.addr_to_user()[s.user_addrs()[n]] == n,
{
    assert forall|a: Addr| #[trigger] s.addr_to_user().contains_key(a) implies s.user_addrs().contains_key(
        s.addr_to_user()[a],
    ) && s.user_addrs()[s.addr_to_user()[a]] == a by {
        let i = s.addr_index(a);
        let n = s.users[i].name;
        assert(s.has_user(n));
        let j = s.user_index(n);
        assert(s.users[j].name == n);
        assert(i == j);
    }
    assert forall|n: Seq<char>| #[trigger] s.user_addrs().contains_key(n) implies s.addr_to_user().contains_key(
        s.user_addrs()[n],
    ) && s.addr_to_user()[s.user_addrs()[n]] == n by {
        let j = s.user_index(n);
        let a = s.users[j].addr;
        assert(s.has_addr(a));
        let i = s.addr_index(a);
        assert(s.users[i].addr == a);
        assert(i == j);
    }
}

/// Every member of every room is a registered user.
pub proof fn lemma_members_registered(s: StateView)
    requires
        s.wf(),
    ensures
        forall|r: Seq<char>, u: Seq<char>|
            #[trigger] s.room_sets().contains_key(r) && #[trigger] s.room_sets()[r].contains(u)
                ==> s.user_addrs().contains_key(u),
{
    assert forall|r: Seq<char>, u: Seq<char>|
        #[trigger] s.room_sets().contains_key(r) && #[trigger] s.room_sets()[r].contains(u)
            implies s.user_addrs().contains_key(u) by {
        let j = s.room_index(r);
        let m = s.rooms[j].members;
        assert(m.to_set().contains(u));
        assert(m.contains(u));
        let k = choose|k: int| 0 <= k < m.len() && m[k] == u;
        assert(s.has_user(s.rooms[j].members[k]));
    }
}

/// `without` drops `u` and keeps the rest.
proof fn lemma_without(m: Seq<Seq<char>>, u: Seq<char>)
    requires
        m.no_duplicates(),
    ensures
        !without(m, u).contains(u),
        forall|x: Seq<char>| x != u && m.contains(x) ==> without(m, u).contains(x),
{
    if m.contains(u) {
        let k = m.index_of(u);
        let w = without(m, u);
        assert forall|p: int| 0 <= p < w.len() implies w[p] != u by {
            let pp = if p < k { p } else { p + 1 };
            assert(w[p] == m[pp]);
        }
        assert forall|x: Seq<char>| x != u && m.contains(x) implies w.contains(x) by {
            let q = choose|q: int| 0 <= q < m.len() && m[q] == x;
            let qq = if q < k { q } else { q - 1 };
            assert(w[qq] == x);
        }
    }
}

/// Once a peer is removed, its address is in no map and its name is in no
/// room.
pub proof fn lemma_removed_peer_gone(s: StateView, a: Addr)
    requires
        s.wf(),
    ensures
        !s.remove_peer(a).addr_to_user().contains_key(a),
        forall|n: Seq<char>| #[trigger] s.remove_peer(a).user_addrs().contains_key(n)
            ==> s.remove_peer(a).user_addrs()[n] != a,
        s.has_addr(a) ==> !s.remove_peer(a).user_addrs().contains_key(s.name_of(a)),
        s.has_addr(a) ==> forall|r: Seq<char>| #[trigger] s.remove_peer(a).room_sets().contains_key(r)
            ==> !s.remove_peer(a).room_sets()[r].contains(s.name_of(a)),
{
    let t = s.remove_peer(a);
    if s.has_addr(a) {
        let i = s.addr_index(a);
        let u = s.name_of(a);
        assert forall|p: int| 0 <= p < t.users.len() implies (#[trigger] t.users[p]).addr != a
            && t.users[p].name != u by {
            let pp = if p < i { p } else { p + 1 };
            assert(t.users[p] == s.users[pp]);
        }
        assert forall|r: Seq<char>| #[trigger] t.room_sets().contains_key(r) implies !t.room_sets()[r].contains(u) by {
            let j = t.room_index(r);
            lemma_without(s.rooms[j].members, u);
            assert(t.rooms[j].members == without(s.rooms[j].members, u));
            if t.members(r).to_set().contains(u) {
                assert(t.members(r).contains(u));
            }
        }
    }
}

/// Joining a room twice leaves the same membership as joining once, and
/// each join sends the roster once to each member.
pub proof fn lemma_join_idempotent(s: StateView, r: Seq<char>, a: Addr)
    requires
        s.wf(),
        s.has_addr(a),
    ensures
        ({
            let (t1, v1) = s.join_or_create(r, a);
            let (t2, v2) = t1.join_or_create(r, a);
            let resp = ResponseView::ListMembers { room: r, users: t1.members(r) };
            &&& t1.members(r).contains(s.name_of(a))
            &&& t2.users == t1.users
            &&& t2.rooms == t1.rooms
            &&& t2.members(r) == t1.members(r)
            &&& v1 == ResponseTypeView::BroadcastRoom(r, resp)
            &&& v2 == v1
            &&& t1.outbox == s.outbox + deliveries(t1.members(r), resp)
            &&& t2.outbox == t1.outbox + deliveries(t1.members(r), resp)
        }),
{
    let (t1, v1) = s.join_or_create(r, a);
    let u = s.name_of(a);
    let m = s.members(r);
    let m2 = if m.contains(u) { m } else { m.push(u) };
    let entry = RoomView { name: r, members: m2 };
    assert(m2.contains(u)) by {
        if !m.contains(u) {
            assert(m2[m.len() as int] == u);
        }
    }
    let j = if s.has_room(r) { s.room_index(r) } else { s.rooms.len() as int };
    assert(t1.rooms[j] == entry);
    assert forall|x: int| 0 <= x < t1.rooms.len() && t1.rooms[x].name == r implies x == j by {
        if s.has_room(r) && x != j {
            assert(t1.rooms[x] == s.rooms[x]);
        }
    }
    assert(t1.has_room(r));
    assert(t1.room_index(r) == j);
    assert(t1.members(r) == m2);
    assert(t1.users == s.users);
    assert(t1.has_addr(a) && t1.addr_index(a) == s.addr_index(a));
    assert(t1.rooms.update(j, entry) =~= t1.rooms);
    let (t2, v2) = t1.join_or_create(r, a);
    let resp = ResponseView::ListMembers { room: r, users: m2 };
    assert(t1.members(r).contains(u));
    assert(t2.rooms =~= t1.rooms);
    assert(t2.users =~= t1.users);
    assert(t2.outbox =~= t1.outbox + deliveries(m2, resp));
    assert(t2.members(r) == t1.members(r));
}

/// `Leave` for a room that does not exist is refused and changes nothing.
pub proof fn lemma_leave_missing_room(s: StateView, r: Seq<char>, a: Addr)
    requires
        s.has_addr(a),
        !s.has_room(r),
    ensures
        s.leave(r, a) == (s, ResponseTypeView::Sender(ResponseView::Error(ResponseErrorView::RoomDoesNotExist(r)))),
{
}

/// `Leave` from a user who is not in the room is refused and changes
/// nothing.
pub proof fn lemma_leave_non_member(s: StateView, r: Seq<char>, a: Addr)
    requires
        s.has_addr(a),
        s.has_room(r),
        !s.members(r).contains(s.name_of(a)),
    ensures
        s.leave(r, a) == (s, ResponseTypeView::Sender(
            ResponseView::Error(ResponseErrorView::UserNotInRoom { user: s.name_of(a), room: r }),
        )),
{
}

/// A direct message to a name nobody uses reaches no mailbox, and the
/// sender still gets its copy.
pub proof fn lemma_send_to_unknown_user(s: StateView, to: Seq<char>, message: Seq<char>, a: Addr)
    requires
        s.has_addr(a),
        !s.has_user(to),
    ensures
        s.send_user(to, message, a).0 == s,
        s.send_user(to, message, a).1 == ResponseTypeView::SenderAndUser(
            to,
            ResponseView::TellUser { username: to, sender: s.name_of(a), message },
        ),
{
    assert(s.outbox + seq![] =~= s.outbox);
}

/// The state after `commands`, each applied in turn; a command is given with
/// the address and liveness flag of the peer it came from.
pub open spec fn run(s: StateView, commands: Seq<(Command, Addr, bool)>) -> StateView
    decreases commands.len(),
{
    if commands.len() == 0 {
        s
    } else {
        let (c, a, alive) = commands.last();
        run(s, commands.drop_last()).apply(c, a, alive).0
    }
}

/// A reaper pass sends a kill signal to each user whose flag is down.
proof fn lemma_kill_mails_contains(users: Seq<UserView>, p: int)
    requires
        0 <= p < users.len(),
        !users[p].alive,
    ensures
        kill_mails(users).contains(Mail::Kill { to: users[p].name }),
    decreases users.len(),
{
    let rest = kill_mails(users.drop_last());
    if p == users.len() - 1 {
        assert(kill_mails(users) == rest.push(Mail::Kill { to: users[p].name }));
        assert(kill_mails(users)[rest.len() as int] == Mail::Kill { to: users[p].name });
    } else {
        lemma_kill_mails_contains(users.drop_last(), p);
        let k = choose|k: int| 0 <= k < rest.len() && rest[k] == Mail::Kill { to: users[p].name };
        if users.last().alive {
        } else {
            assert(kill_mails(users)[k] == rest[k]);
        }
    }
}

/// A registered peer that sends no `KeepAlive` between two reaper passes
/// is sent a kill signal by the second pass at the latest, whatever else
/// happens in between (other than its removal).
pub proof fn lemma_silent_peer_reaped(s: StateView, commands: Seq<(Command, Addr, bool)>, a: Addr)
    requires
        s.has_addr(a),
        forall|k: int| 0 <= k < commands.len() ==> !((#[trigger] commands[k]).0 is KeepAlive && commands[k].1 == a),
    ensures
        ({
            let t = run(s.kick_keep_alive(), commands);
            t.kick_keep_alive().outbox == t.outbox + kill_mails(t.users)
            && kill_mails(t.users).contains(Mail::Kill { to: s.name_of(a) })
        }),
{
    let p = s.addr_index(a);
    let s1 = s.kick_keep_alive();
    lemma_flag_stays_down(s1, commands, p);
    let t = run(s1, commands);
    lemma_kill_mails_contains(t.users, p);
}

/// Along commands none of which is a `KeepAlive` from its address, the
/// user at position `p` keeps its place, its name and its lowered flag.
proof fn lemma_flag_stays_down(s: StateView, commands: Seq<(Command, Addr, bool)>, p: int)
    requires
        0 <= p < s.users.len(),
        !s.users[p].alive,
        forall|k: int| 0 <= k < commands.len()
            ==> !((#[trigger] commands[k]).0 is KeepAlive && commands[k].1 == s.users[p].addr),
    ensures
        p < run(s, commands).users.len(),
        run(s, commands).users[p] == s.users[p],
    decreases commands.len(),
{
    if commands.len() > 0 {
        let init = commands.drop_last();
        assert forall|k: int| 0 <= k < init.len()
            implies !((#[trigger] init[k]).0 is KeepAlive && init[k].1 == s.users[p].addr) by {
            assert(init[k] == commands[k]);
        }
        lemma_flag_stays_down(s, init, p);
        let t = run(s, init);
        let (c, b, alive) = commands.last();
        assert(commands.last() == commands[commands.len() - 1]);
        let t2 = t.apply(c, b, alive).0;
        match c {
            Command::KeepAlive => {
                if t.has_addr(b) {
                    assert(t.users[t.addr_index(b)].addr == b);
                    assert(t.addr_index(b) != p);
                }
            },
            Command::Hello { username } => {},
            Command::Send { target, message } => {},
            _ => {},
        }
        assert(t2.users[p] == s.users[p]);
    }
}

} // verus!

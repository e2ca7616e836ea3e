//! What the user can do, and which keys do it.
use vstd::prelude::*;

use crate::client::key::{key_label, lemma_key_label_len, push_text, Key};
use crate::client::pane::Pane;

verus! {

/// Something the user can do from the keyboard.
#[derive(Debug, Clone, Copy, PartialEq, Eq, Structural)]
pub enum Action {
    /// Quit the application
    Quit,
    /// Demo sleep to show async thread
    Sleep,
    /// Open modal to create/join a room
    NewRoom,
    /// Leave the selected room
    LeaveRoom,
    /// Focus users pane for selected room
    RoomUsers,
    /// Focus message pane
    Messages,
    /// Focus new message for selected room/user
    MaybeFocusNewMessage,
    /// Focus new message
    FocusNewMessage,
    /// Focus private chats
    Chats,
    /// Open modal of all users
    AllUsers,
    /// Open modal of all rooms
    AllRooms,
    /// Select prev item of active list
    ListPrev,
    /// Select next item of active list
    ListNext,
    /// Start new chat with selected user of all users modal
    NewChat,
    /// Join room of selected room from all rooms modal
    JoinRoom,
    /// Submit new room modal
    JoinOrCreateRoom,
    /// Submit new message
    SendMessage,
    /// Escape to rooms
    Escape,
}

/// The keys bound to `a`.
pub open spec fn action_keys(a: Action) -> Seq<Key> {
    match a {
        Action::Quit => seq![Key::Ctrl('c'), Key::Char('q')],
        Action::Sleep => seq![Key::Ctrl('s')],
        Action::NewRoom => seq![Key::Char('a')],
        Action::LeaveRoom => seq![Key::Char('l')],
        Action::RoomUsers => seq![Key::Char('u')],
        Action::Messages => seq![Key::Char('m'), Key::Enter],
        Action::MaybeFocusNewMessage => seq![Key::Char('M')],
        Action::FocusNewMessage => seq![Key::Char('m'), Key::Enter],
        Action::Chats => seq![Key::Char('p')],
        Action::AllUsers => seq![Key::Char('U')],
        Action::AllRooms => seq![Key::Char('R')],
        Action::ListPrev => seq![Key::Char('k'), Key::Up],
        Action::ListNext => seq![Key::Char('j'), Key::Down],
        Action::NewChat => seq![Key::Char('m'), Key::Enter],
        Action::JoinRoom => seq![Key::Enter],
        Action::JoinOrCreateRoom => seq![Key::Enter],
        Action::SendMessage => seq![Key::Enter],
        Action::Escape => seq![Key::Esc],
    }
}

/// Every action, in the order in which a key is looked up.
pub open spec fn all_actions() -> Seq<Action> {
    seq![
        Action::Quit,
        Action::Sleep,
        Action::NewRoom,
        Action::LeaveRoom,
        Action::RoomUsers,
        Action::Messages,
        Action::MaybeFocusNewMessage,
        Action::FocusNewMessage,
        Action::Chats,
        Action::AllUsers,
        Action::AllRooms,
        Action::ListPrev,
        Action::ListNext,
        Action::NewChat,
        Action::JoinRoom,
        Action::JoinOrCreateRoom,
        Action::SendMessage,
        Action::Escape,
    ]
}

/// The name of `a` in a menu.
pub open spec fn action_label(a: Action) -> Seq<char> {
    match a {
        Action::Quit => "Quit"@,
        Action::Sleep => "Sleep"@,
        Action::NewRoom => "Join room"@,
        Action::LeaveRoom => "Leave room"@,
        Action::RoomUsers => "Room members"@,
        Action::Messages => "Room messages"@,
        Action::MaybeFocusNewMessage => "New message"@,
        Action::FocusNewMessage => "New message"@,
        Action::Chats => "Private chats"@,
        Action::AllUsers => "List all users"@,
        Action::AllRooms => "List all rooms"@,
        Action::ListPrev => "Previous"@,
        Action::ListNext => "Next"@,
        Action::NewChat => "Message user"@,
        Action::JoinRoom => "Join room"@,
        Action::JoinOrCreateRoom => "Join/Create room"@,
        Action::SendMessage => "Send"@,
        Action::Escape => "Escape"@,
    }
}

/// The labels of `ks`, separated by a comma and a space.
pub open spec fn join_labels(ks: Seq<Key>) -> Seq<char>
    decreases ks.len(),
{
    if ks.len() == 0 {
        seq![]
    } else if ks.len() == 1 {
        key_label(ks[0])
    } else {
        join_labels(ks.drop_last() ) + ", "@ + key_label(ks.last())
    }
}

/// No action name is longer than thirty characters.
proof fn lemma_action_label_len(a: Action)
    ensures
        action_label(a).len() <= 30,
{
    reveal_strlit("Quit");
    reveal_strlit("Sleep");
    reveal_strlit("Join room");
    reveal_strlit("Leave room");
    reveal_strlit("Room members");
    reveal_strlit("Room messages");
    reveal_strlit("New message");
    reveal_strlit("Private chats");
    reveal_strlit("List all users");
    reveal_strlit("List all rooms");
    reveal_strlit("Previous");
    reveal_strlit("Next");
    reveal_strlit("Message user");
    reveal_strlit("Join/Create room");
    reveal_strlit("Send");
    reveal_strlit("Escape");
}

impl Action {
    /// The keys bound to the action.
    pub fn keys(&self) -> (r: Vec<Key>)
        ensures
            r@ == action_keys(*self),
            r@.len() <= 2,
    {
        let r = match self {
            Action::Quit => vec![Key::Ctrl('c'), Key::Char('q')],
            Action::Sleep => vec![Key::Ctrl('s')],
            Action::NewRoom => vec![Key::Char('a')],
            Action::LeaveRoom => vec![Key::Char('l')],
            Action::RoomUsers => vec![Key::Char('u')],
            Action::Messages => vec![Key::Char('m'), Key::Enter],
            Action::MaybeFocusNewMessage => vec![Key::Char('M')],
            Action::FocusNewMessage => vec![Key::Char('m'), Key::Enter],
            Action::Chats => vec![Key::Char('p')],
            Action::AllUsers => vec![Key::Char('U')],
            Action::AllRooms => vec![Key::Char('R')],
            Action::ListPrev => vec![Key::Char('k'), Key::Up],
            Action::ListNext => vec![Key::Char('j'), Key::Down],
            Action::NewChat => vec![Key::Char('m'), Key::Enter],
            Action::JoinRoom => vec![Key::Enter],
            Action::JoinOrCreateRoom => vec![Key::Enter],
            Action::SendMessage => vec![Key::Enter],
            Action::Escape => vec![Key::Esc],
        };
        assert(r@ =~= action_keys(*self));
        r
    }

    /// Every action, in the order in which a key is looked up.
    pub fn iterator() -> (r: Vec<Action>)
        ensures
            r@ == all_actions(),
    {
        let r = vec![
            Action::Quit,
            Action::Sleep,
            Action::NewRoom,
            Action::LeaveRoom,
            Action::RoomUsers,
            Action::Messages,
            Action::MaybeFocusNewMessage,
            Action::FocusNewMessage,
            Action::Chats,
            Action::AllUsers,
            Action::AllRooms,
            Action::ListPrev,
            Action::ListNext,
            Action::NewChat,
            Action::JoinRoom,
            Action::JoinOrCreateRoom,
            Action::SendMessage,
            Action::Escape,
        ];
        assert(r@ =~= all_actions());
        r
    }

    /// The name of the action in a menu.
    pub fn label(&self) -> (r: &'static str)
        ensures
            r@ == action_label(*self),
    {
        match self {
            Action::Quit => "Quit",
            Action::Sleep => "Sleep",
            Action::NewRoom => "Join room",
            Action::LeaveRoom => "Leave room",
            Action::RoomUsers => "Room members",
            Action::Messages => "Room messages",
            Action::MaybeFocusNewMessage => "New message",
            Action::FocusNewMessage => "New message",
            Action::Chats => "Private chats",
            Action::AllUsers => "List all users",
            Action::AllRooms => "List all rooms",
            Action::ListPrev => "Previous",
            Action::ListNext => "Next",
            Action::NewChat => "Message user",
            Action::JoinRoom => "Join room",
            Action::JoinOrCreateRoom => "Join/Create room",
            Action::SendMessage => "Send",
            Action::Escape => "Escape",
        }
    }

    /// The menu line of the action: its name, then its keys.
    pub fn display_with_keys(&self) -> (r: String)
        ensures
            r@ == action_label(*self) + ": "@ + join_labels(action_keys(*self)),
    {
        let mut out = self.label().to_owned();
        proof {
            lemma_action_label_len(*self);
            reveal_strlit(": ");
            reveal_strlit(", ");
        }
        push_text(&mut out, ": ");
        let ghost head = out@;
        let keys = self.keys();
        let mut i: usize = 0;
        while i < keys.len()
            invariant
                i <= keys@.len(),
                keys@.len() <= 2,
                out@ == head + join_labels(keys@.subrange(0, i as int)),
                out@.len() <= 32 + 18 * i,
            decreases keys@.len() - i,
        {
            proof {
                reveal_strlit(", ");
            }
            if i > 0 {
                push_text(&mut out, ", ");
            }
            let label = keys[i].label();
            proof {
                lemma_key_label_len(keys@[i as int]);
            }
            push_text(&mut out, label.as_str());
            proof {
                let done = keys@.subrange(0, i + 1);
                assert(done.drop_last() =~= keys@.subrange(0, i as int));
                if i == 0 {
                    assert(keys@.subrange(0, 0) =~= seq![]);
                }
            }
            i = i + 1;
            assert(out@ =~= head + join_labels(keys@.subrange(0, i as int)));
        }
        assert(keys@.subrange(0, i as int) =~= keys@);
        out
    }
}

/// The actions on offer in the current pane.
#[derive(Debug)]
pub struct Actions(Vec<Action>);

/// Whether `a` is on offer in `offered` and bound to `key`.
pub open spec fn matches_key(offered: Seq<Action>, a: Action, key: Key) -> bool {
    offered.contains(a) && action_keys(a).contains(key)
}

impl Actions {
    /// The actions on offer.
    pub closed spec fn offered(&self) -> Seq<Action> {
        self.0@
    }

    /// The first action, in lookup order, that is on offer and bound to
    /// `key`.
    pub fn find(&self, key: Key) -> (r: Option<Action>)
        ensures
            r matches Some(a) ==> exists|i: int|
                0 <= i < all_actions().len() && all_actions()[i] == a && matches_key(self.offered(), a, key)
                    && forall|j: int| 0 <= j < i ==> !matches_key(self.offered(), #[trigger] all_actions()[j], key),
            r is None ==> forall|i: int|
                0 <= i < all_actions().len() ==> !matches_key(self.offered(), #[trigger] all_actions()[i], key),
    {
        let all = Action::iterator();
        let mut i: usize = 0;
        while i < all.len()
            invariant
                all@ == all_actions(),
                i <= all@.len(),
                forall|j: int| 0 <= j < i ==> !matches_key(self.offered(), #[trigger] all_actions()[j], key),
            decreases all@.len() - i,
        {
            let a = all[i];
            if contains_action(&self.0, a) && contains_key(&a.keys(), key) {
                return Some(a);
            }
            i = i + 1;
        }
        None
    }

    /// The actions on offer.
    pub fn actions(&self) -> (r: &[Action])
        ensures
            r@ == self.offered(),
    {
        self.0.as_slice()
    }
}

/// The actions on offer while `pane` has the focus.
pub open spec fn pane_actions(pane: Pane) -> Seq<Action> {
    match pane {
        Pane::Rooms => seq![
            Action::NewRoom,
            Action::LeaveRoom,
            Action::RoomUsers,
            Action::Messages,
            Action::MaybeFocusNewMessage,
            Action::Chats,
            Action::AllUsers,
            Action::AllRooms,
            Action::ListPrev,
            Action::ListNext,
            Action::Quit,
            Action::Sleep,
        ],
        Pane::Chats => seq![
            Action::Messages,
            Action::MaybeFocusNewMessage,
            Action::AllUsers,
            Action::AllRooms,
            Action::ListPrev,
            Action::ListNext,
            Action::Escape,
            Action::Quit,
            Action::Sleep,
        ],
        Pane::Messages => seq![
            Action::FocusNewMessage,
            Action::ListPrev,
            Action::ListNext,
            Action::Escape,
            Action::Quit,
            Action::Sleep,
        ],
        Pane::NewMessage => seq![Action::SendMessage, Action::Escape],
        Pane::Users => seq![
            Action::NewChat,
            Action::ListPrev,
            Action::ListNext,
            Action::AllUsers,
            Action::AllRooms,
            Action::Escape,
            Action::Quit,
            Action::Sleep,
        ],
        Pane::NewRoom => seq![Action::JoinOrCreateRoom, Action::Escape],
        Pane::AllUsers => seq![
            Action::NewChat,
            Action::ListPrev,
            Action::ListNext,
            Action::AllUsers,
            Action::AllRooms,
            Action::Escape,
            Action::Quit,
            Action::Sleep,
        ],
        Pane::AllRooms => seq![
            Action::JoinRoom,
            Action::ListPrev,
            Action::ListNext,
            Action::AllUsers,
            Action::AllRooms,
            Action::Escape,
            Action::Quit,
            Action::Sleep,
        ],
    }
}

impl Actions {
    /// The actions on offer while `pane` has the focus.
    pub fn for_pane(pane: Pane) -> (r: Actions)
        ensures
            r.offered() == pane_actions(pane),
    {
        let v = match pane {
            Pane::Rooms => vec![
                Action::NewRoom,
                Action::LeaveRoom,
                Action::RoomUsers,
                Action::Messages,
                Action::MaybeFocusNewMessage,
                Action::Chats,
                Action::AllUsers,
                Action::AllRooms,
                Action::ListPrev,
                Action::ListNext,
                Action::Quit,
                Action::Sleep,
            ],
            Pane::Chats => vec![
                Action::Messages,
                Action::MaybeFocusNewMessage,
                Action::AllUsers,
                Action::AllRooms,
                Action::ListPrev,
                Action::ListNext,
                Action::Escape,
                Action::Quit,
                Action::Sleep,
            ],
            Pane::Messages => vec![
                Action::FocusNewMessage,
                Action::ListPrev,
                Action::ListNext,
                Action::Escape,
                Action::Quit,
                Action::Sleep,
            ],
            Pane::NewMessage => vec![Action::SendMessage, Action::Escape],
            Pane::Users => vec![
                Action::NewChat,
                Action::ListPrev,
                Action::ListNext,
                Action::AllUsers,
                Action::AllRooms,
                Action::Escape,
                Action::Quit,
                Action::Sleep,
            ],
            Pane::NewRoom => vec![Action::JoinOrCreateRoom, Action::Escape],
            Pane::AllUsers => vec![
                Action::NewChat,
                Action::ListPrev,
                Action::ListNext,
                Action::AllUsers,
                Action::AllRooms,
                Action::Escape,
                Action::Quit,
                Action::Sleep,
            ],
            Pane::AllRooms => vec![
                Action::JoinRoom,
                Action::ListPrev,
                Action::ListNext,
                Action::AllUsers,
                Action::AllRooms,
                Action::Escape,
                Action::Quit,
                Action::Sleep,
            ],
        };
        assert(v@ =~= pane_actions(pane));
        Actions(v)
    }
}

/// Whether `a` is among `v`.
fn contains_action(v: &Vec<Action>, a: Action) -> (r: bool)
    ensures
        r == v@.contains(a),
{
    let mut i: usize = 0;
    while i < v.len()
        invariant
            i <= v@.len(),
            forall|j: int| 0 <= j < i ==> v@[j] != a,
        decreases v@.len() - i,
    {
        if v[i] == a {
            return true;
        }
        i = i + 1;
    }
    false
}

/// Whether `k` is among `v`.
fn contains_key(v: &Vec<Key>, k: Key) -> (r: bool)
    ensures
        r == v@.contains(k),
{
    let mut i: usize = 0;
    while i < v.len()
        invariant
            i <= v@.len(),
            forall|j: int| 0 <= j < i ==> v@[j] != k,
        decreases v@.len() - i,
    {
        if v[i] == k {
            return true;
        }
        i = i + 1;
    }
    false
}

impl From<Vec<Action>> for Actions {
    fn from(actions: Vec<Action>) -> (r: Actions) {
        Actions(actions)
    }
}

impl vstd::std_specs::convert::FromSpecImpl<Vec<Action>> for Actions {
    open spec fn obeys_from_spec() -> bool {
        true
    }

    closed spec fn from_spec(actions: Vec<Action>) -> Actions {
        Actions(actions)
    }
}

} // verus!

use rs_chat::client::actions::{Action, Actions};
use rs_chat::client::key::Key;
use rs_chat::client::pane::Pane;

#[test]
fn keys_of_actions() {
    assert_eq!(Action::Quit.keys(), vec![Key::Ctrl('c'), Key::Char('q')]);
    assert_eq!(Action::JoinRoom.keys(), vec![Key::Enter]);
    assert_eq!(Action::iterator().len(), 18);
    assert_eq!(Action::iterator()[0], Action::Quit);
    assert_eq!(Action::iterator()[17], Action::Escape);
}

#[test]
fn display_with_keys_lists_the_keys() {
    assert_eq!(Action::Quit.display_with_keys(), "Quit: <Ctrl+c>, <q>");
    assert_eq!(Action::Messages.display_with_keys(), "Room messages: <m>, <Enter>");
    assert_eq!(Action::Escape.display_with_keys(), "Escape: <Esc>");
}

#[test]
fn key_labels() {
    assert_eq!(Key::Char(' ').label(), "<Space>");
    assert_eq!(Key::Alt('x').label(), "<Alt+x>");
    assert_eq!(Key::Down.label(), "<Down>");
}

#[test]
fn find_uses_lookup_order_among_offered() {
    let rooms = Actions::for_pane(Pane::Rooms);
    assert_eq!(rooms.find(Key::Enter), Some(Action::Messages));
    assert_eq!(rooms.find(Key::Char('q')), Some(Action::Quit));
    assert_eq!(rooms.find(Key::Char('z')), None);
    let users = Actions::for_pane(Pane::Users);
    assert_eq!(users.find(Key::Enter), Some(Action::NewChat));
    let new_room = Actions::from(vec![Action::JoinOrCreateRoom, Action::Escape]);
    assert_eq!(new_room.find(Key::Enter), Some(Action::JoinOrCreateRoom));
    assert_eq!(new_room.find(Key::Char('q')), None);
    assert_eq!(new_room.actions(), &[Action::JoinOrCreateRoom, Action::Escape]);
}

#[test]
fn pane_titles() {
    assert_eq!(Pane::Rooms.title(), "Active Rooms");
    assert_eq!(Pane::AllRooms.title(), "All Rooms");
}

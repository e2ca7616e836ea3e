//! Keys as the client sees them, and how they are written in its menus.
use vstd::prelude::*;

verus! {

/// A key press.
#[derive(Debug, Clone, Copy, PartialEq, Eq, Structural)]
pub enum Key {
    Enter,
    Tab,
    Backspace,
    Esc,
    Left,
    Right,
    Up,
    Down,
    Ins,
    Delete,
    Home,
    End,
    PageUp,
    PageDown,
    Char(char),
    Ctrl(char),
    Alt(char),
    Unknown,
}

/// How `k` is written in a menu.
pub open spec fn key_label(k: Key) -> Seq<char> {
    match k {
        Key::Enter => "<Enter>"@,
        Key::Tab => "<Tab>"@,
        Key::Backspace => "<Backspace>"@,
        Key::Esc => "<Esc>"@,
        Key::Left => "<Left>"@,
        Key::Right => "<Right>"@,
        Key::Up => "<Up>"@,
        Key::Down => "<Down>"@,
        Key::Ins => "<Ins>"@,
        Key::Delete => "<Delete>"@,
        Key::Home => "<Home>"@,
        Key::End => "<End>"@,
        Key::PageUp => "<PageUp>"@,
        Key::PageDown => "<PageDown>"@,
        Key::Char(c) => if c == ' ' { "<Space>"@ } else { "<"@ + seq![c, '>'] },
        Key::Ctrl(c) => if c == ' ' { "<Ctrl+Space>"@ } else { "<Ctrl+"@ + seq![c, '>'] },
        Key::Alt(c) => if c == ' ' { "<Alt+Space>"@ } else { "<Alt+"@ + seq![c, '>'] },
        Key::Unknown => "<Unknown>"@,
    }
}

/// Relies on `String::push_str`: the text is appended. It panics only when
/// the byte length would pass `isize::MAX`; a character takes at most four
/// bytes, so the bound rules that out.
#[verifier::external_body]
pub(crate) fn push_text(s: &mut String, t: &str)
    requires
        old(s)@.len() + t@.len() <= isize::MAX / 4,
    ensures
        final(s)@ == old(s)@ + t@,
{
    s.push_str(t)
}

/// Relies on `String::push`: the character is appended. It panics only
/// when the byte length would pass `isize::MAX`, which the bound rules out.
#[verifier::external_body]
fn push_char(s: &mut String, c: char)
    requires
        old(s)@.len() + 1 <= isize::MAX / 4,
    ensures
        final(s)@ == old(s)@.push(c),
{
    s.push(c)
}

/// `open`, then `c`, then `>`.
fn bracketed(open: &str, c: char) -> (r: String)
    requires
        open@.len() <= 16,
    ensures
        r@ == open@ + seq![c, '>'],
{
    let mut r = open.to_owned();
    push_char(&mut r, c);
    push_char(&mut r, '>');
    assert(r@ =~= open@ + seq![c, '>']);
    r
}

/// No key label is longer than sixteen characters.
pub proof fn lemma_key_label_len(k: Key)
    ensures
        key_label(k).len() <= 16,
{
    reveal_strlit("<Enter>");
    reveal_strlit("<Tab>");
    reveal_strlit("<Backspace>");
    reveal_strlit("<Esc>");
    reveal_strlit("<Left>");
    reveal_strlit("<Right>");
    reveal_strlit("<Up>");
    reveal_strlit("<Down>");
    reveal_strlit("<Ins>");
    reveal_strlit("<Delete>");
    reveal_strlit("<Home>");
    reveal_strlit("<End>");
    reveal_strlit("<PageUp>");
    reveal_strlit("<PageDown>");
    reveal_strlit("<Space>");
    reveal_strlit("<");
    reveal_strlit("<Ctrl+Space>");
    reveal_strlit("<Ctrl+");
    reveal_strlit("<Alt+Space>");
    reveal_strlit("<Alt+");
    reveal_strlit("<Unknown>");
}

impl Key {
    /// How the key is written in a menu.
    pub fn label(&self) -> (r: String)
        ensures
            r@ == key_label(*self),
    {
        let text: &str = match *self {
            Key::Enter => "<Enter>",
            Key::Tab => "<Tab>",
            Key::Backspace => "<Backspace>",
            Key::Esc => "<Esc>",
            Key::Left => "<Left>",
            Key::Right => "<Right>",
            Key::Up => "<Up>",
            Key::Down => "<Down>",
            Key::Ins => "<Ins>",
            Key::Delete => "<Delete>",
            Key::Home => "<Home>",
            Key::End => "<End>",
            Key::PageUp => "<PageUp>",
            Key::PageDown => "<PageDown>",
            Key::Char(c) => if c == ' ' {
                "<Space>"
            } else {
                proof {
                    reveal_strlit("<");
                }
                return bracketed("<", c);
            },
            Key::Ctrl(c) => if c == ' ' {
                "<Ctrl+Space>"
            } else {
                proof {
                    reveal_strlit("<Ctrl+");
                }
                return bracketed("<Ctrl+", c);
            },
            Key::Alt(c) => if c == ' ' {
                "<Alt+Space>"
            } else {
                proof {
                    reveal_strlit("<Alt+");
                }
                return bracketed("<Alt+", c);
            },
            Key::Unknown => "<Unknown>",
        };
        text.to_owned()
    }
}

} // verus!

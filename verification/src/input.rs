//! What the input intrinsics decide from what the host reports.

use vstd::prelude::*;
use crate::text::same_text;
use crate::transform::Transform;
use crate::vec2::Vec2;

verus! {

/// A button of the mouse.
#[derive(Debug, Clone, Copy, PartialEq, Eq, Structural)]
pub enum MouseButton {
    Left,
    Right,
    Middle,
}

/// The mouse button that scripts name by `index`: 0 the left, 1 the right, 2 the middle
/// one.
pub open spec fn button_of(index: i64) -> Option<MouseButton> {
    if index == 0 {
        Some(MouseButton::Left)
    } else if index == 1 {
        Some(MouseButton::Right)
    } else if index == 2 {
        Some(MouseButton::Middle)
    } else {
        None
    }
}

/// The mouse button that scripts name by `index`.
pub fn mouse_button(index: i64) -> (b: Option<MouseButton>)
    ensures
        b == button_of(index),
{
    if index == 0 {
        Some(MouseButton::Left)
    } else if index == 1 {
        Some(MouseButton::Right)
    } else if index == 2 {
        Some(MouseButton::Middle)
    } else {
        None
    }
}

/// What a mouse button query answers: what the host reports for the button, and `false`
/// for an index that names no button.
pub fn button_state(index: i64, left: bool, right: bool, middle: bool) -> (b: bool)
    ensures
        b == match button_of(index) {
            Some(MouseButton::Left) => left,
            Some(MouseButton::Right) => right,
            Some(MouseButton::Middle) => middle,
            None => false,
        },
{
    match mouse_button(index) {
        Some(MouseButton::Left) => left,
        Some(MouseButton::Right) => right,
        Some(MouseButton::Middle) => middle,
        None => false,
    }
}

/// Whether a click counts for an area: the mouse is inside it and the button was pressed.
pub fn click_hits(area: &Transform, mouse: Vec2, pressed: bool) -> (b: bool)
    ensures
        b == (area.covers(mouse) && pressed),
{
    area.contains(mouse) && pressed
}

/// A key of the keyboard, as scripts can name it.
#[derive(Debug, Clone, Copy, PartialEq, Eq, Structural)]
pub enum Key {
    /// A letter key, by its number from 0 for `a` to 25 for `z`.
    Letter(u8),
    /// A digit key of the main block, by its digit.
    Digit(u8),
    /// A function key, by its number from 1 to 12.
    Function(u8),
    Space,
    Enter,
    Escape,
    Tab,
    Backspace,
    Delete,
    Left,
    Right,
    Up,
    Down,
    Shift,
    Control,
    Alt,
}

/// The key that a name of one character names: a letter in either case, a digit, or a
/// blank for the space bar.
pub open spec fn key_of_char(c: char) -> Option<Key> {
    if 'a' <= c <= 'z' {
        Some(Key::Letter((c as u8 - 'a' as u8) as u8))
    } else if 'A' <= c <= 'Z' {
        Some(Key::Letter((c as u8 - 'A' as u8) as u8))
    } else if '0' <= c <= '9' {
        Some(Key::Digit((c as u8 - '0' as u8) as u8))
    } else if c == ' ' {
        Some(Key::Space)
    } else {
        None
    }
}

/// The function key that a name names: `f1` to `f12`.
pub open spec fn function_key(name: Seq<char>) -> Option<Key> {
    if name.len() == 2 && name[0] == 'f' && '1' <= name[1] <= '9' {
        Some(Key::Function((name[1] as u8 - '0' as u8) as u8))
    } else if name.len() == 3 && name[0] == 'f' && name[1] == '1' && '0' <= name[2] <= '2' {
        Some(Key::Function((10 + (name[2] as u8 - '0' as u8)) as u8))
    } else {
        None
    }
}

/// The key that a word names.
pub open spec fn key_of_word(name: Seq<char>) -> Option<Key> {
    if name == "space"@ {
        Some(Key::Space)
    } else if name == "enter"@ {
        Some(Key::Enter)
    } else if name == "escape"@ {
        Some(Key::Escape)
    } else if name == "tab"@ {
        Some(Key::Tab)
    } else if name == "backspace"@ {
        Some(Key::Backspace)
    } else if name == "delete"@ {
        Some(Key::Delete)
    } else if name == "left"@ {
        Some(Key::Left)
    } else if name == "right"@ {
        Some(Key::Right)
    } else if name == "up"@ {
        Some(Key::Up)
    } else if name == "down"@ {
        Some(Key::Down)
    } else if name == "shift"@ {
        Some(Key::Shift)
    } else if name == "ctrl"@ {
        Some(Key::Control)
    } else if name == "alt"@ {
        Some(Key::Alt)
    } else {
        None
    }
}

/// The key that scripts call `name`: a single character, see [`key_of_char`]; `f1` to
/// `f12`; or one of the words `space`, `enter`, `escape`, `tab`, `backspace`, `delete`,
/// `left`, `right`, `up`, `down`, `shift`, `ctrl` and `alt`.
pub open spec fn key_named(name: Seq<char>) -> Option<Key> {
    if name.len() == 1 {
        key_of_char(name[0])
    } else if function_key(name) is Some {
        function_key(name)
    } else {
        key_of_word(name)
    }
}

impl Key {
    /// The key that scripts call `name`; `None` for a name that names no key.
    pub fn from_name(name: &str) -> (k: Option<Key>)
        ensures
            k == key_named(name@),
    {
        let n = name.unicode_len();
        if n == 1 {
            let c = name.get_char(0);
            return if 'a' <= c && c <= 'z' {
                Some(Key::Letter((c as u8) - 97))
            } else if 'A' <= c && c <= 'Z' {
                Some(Key::Letter((c as u8) - 65))
            } else if '0' <= c && c <= '9' {
                Some(Key::Digit((c as u8) - 48))
            } else if c == ' ' {
                Some(Key::Space)
            } else {
                None
            };
        }
        if n == 2 && name.get_char(0) == 'f' {
            let d = name.get_char(1);
            if '1' <= d && d <= '9' {
                return Some(Key::Function((d as u8) - 48));
            }
        }
        if n == 3 && name.get_char(0) == 'f' && name.get_char(1) == '1' {
            let d = name.get_char(2);
            if '0' <= d && d <= '2' {
                return Some(Key::Function(10 + ((d as u8) - 48)));
            }
        }
        if same_text(name, "space") {
            Some(Key::Space)
        } else if same_text(name, "enter") {
            Some(Key::Enter)
        } else if same_text(name, "escape") {
            Some(Key::Escape)
        } else if same_text(name, "tab") {
            Some(Key::Tab)
        } else if same_text(name, "backspace") {
            Some(Key::Backspace)
        } else if same_text(name, "delete") {
            Some(Key::Delete)
        } else if same_text(name, "left") {
            Some(Key::Left)
        } else if same_text(name, "right") {
            Some(Key::Right)
        } else if same_text(name, "up") {
            Some(Key::Up)
        } else if same_text(name, "down") {
            Some(Key::Down)
        } else if same_text(name, "shift") {
            Some(Key::Shift)
        } else if same_text(name, "ctrl") {
            Some(Key::Control)
        } else if same_text(name, "alt") {
            Some(Key::Alt)
        } else {
            None
        }
    }
}

} // verus!

//! The events that the debugger reacts to.
use vstd::prelude::*;
use crate::text::{int_text, push_char, push_usize};

verus! {

/// A key of the terminal.
#[derive(Debug, Clone, Copy, PartialEq, Eq, Structural, Hash)]
pub enum Key {
    Backspace,
    Left,
    Right,
    Up,
    Down,
    Home,
    End,
    PageUp,
    PageDown,
    BackTab,
    Delete,
    Insert,
    /// A function key, by its number.
    F(u8),
    /// A character.
    Char(char),
    /// A character typed with Alt held down.
    Alt(char),
    /// A character typed with Ctrl held down.
    Ctrl(char),
    Null,
    Esc,
}

/// Something that happened at the terminal.
#[derive(Debug, Clone, Copy, PartialEq, Eq, Structural)]
pub enum Event {
    Input(Key),
}

/// The name by which a key is shown to the user.
pub open spec fn key_text(key: Key) -> Seq<char> {
    match key {
        Key::Backspace => "Backspace"@,
        Key::Left => "Left"@,
        Key::Right => "Right"@,
        Key::Up => "Up"@,
        Key::Down => "Down"@,
        Key::Home => "Home"@,
        Key::End => "End"@,
        Key::PageUp => "PageUp"@,
        Key::PageDown => "PageDown"@,
        Key::BackTab => "BackTab"@,
        Key::Delete => "Delete"@,
        Key::Insert => "Insert"@,
        Key::F(n) => "F("@ + int_text(n as int) + ")"@,
        Key::Char(c) => "Char("@.push(c) + ")"@,
        Key::Alt(c) => "Alt("@.push(c) + ")"@,
        Key::Ctrl(c) => "Ctrl("@.push(c) + ")"@,
        Key::Null => "Null"@,
        Key::Esc => "Esc"@,
    }
}

/// How an event is shown to the user.
pub open spec fn event_text(event: Event) -> Seq<char> {
    match event {
        Event::Input(key) => "Input("@ + key_text(key) + ")"@,
    }
}

/// Appends to `out` how `event` is shown to the user.
pub fn push_event(out: &mut String, event: Event)
    ensures
        final(out)@ == old(out)@ + event_text(event),
{
    let Event::Input(key) = event;
    out.append("Input(");
    match key {
        Key::Backspace => {
            out.append("Backspace");
        },
        Key::Left => {
            out.append("Left");
        },
        Key::Right => {
            out.append("Right");
        },
        Key::Up => {
            out.append("Up");
        },
        Key::Down => {
            out.append("Down");
        },
        Key::Home => {
            out.append("Home");
        },
        Key::End => {
            out.append("End");
        },
        Key::PageUp => {
            out.append("PageUp");
        },
        Key::PageDown => {
            out.append("PageDown");
        },
        Key::BackTab => {
            out.append("BackTab");
        },
        Key::Delete => {
            out.append("Delete");
        },
        Key::Insert => {
            out.append("Insert");
        },
        Key::F(n) => {
            out.append("F(");
            push_usize(out, n as usize);
            out.append(")");
        },
        Key::Char(c) => {
            out.append("Char(");
            push_char(out, c);
            out.append(")");
        },
        Key::Alt(c) => {
            out.append("Alt(");
            push_char(out, c);
            out.append(")");
        },
        Key::Ctrl(c) => {
            out.append("Ctrl(");
            push_char(out, c);
            out.append(")");
        },
        Key::Null => {
            out.append("Null");
        },
        Key::Esc => {
            out.append("Esc");
        },
    }
    out.append(")");
}

} // verus!

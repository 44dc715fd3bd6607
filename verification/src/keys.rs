//! Terminal key presses and the key names the interface acts on.
use crate::text::string_of;
use vstd::prelude::*;

verus! {

/// The key of a terminal key event.
#[derive(Clone, Copy, Debug, PartialEq, Eq, Structural)]
pub enum KeyCode {
    Char(char),
    Enter,
    Esc,
    Backspace,
    Delete,
    Tab,
    BackTab,
    Left,
    Right,
    Up,
    Down,
    Home,
    End,
    PageUp,
    PageDown,
    /// Any key the interface has no name for (function keys, media keys, ...).
    Other,
}

/// A terminal key event: its key, whether it is a release, and the modifiers held.
#[derive(Clone, Copy, Debug, PartialEq, Eq, Structural)]
pub struct KeyPress {
    pub code: KeyCode,
    pub release: bool,
    pub control: bool,
    pub shift: bool,
    /// Alt (Option) or Super (Command) is held.
    pub alt_or_super: bool,
}

/// The name of a key press: releases and presses with Alt or Super have none; with
/// Control only a few editing and quitting shortcuts have one; otherwise a character is
/// its own name and named keys have theirs.
pub open spec fn key_name_spec(event: KeyPress) -> Option<Seq<char>> {
    if event.release || event.alt_or_super {
        None
    } else if event.control {
        match event.code {
            KeyCode::Char('c') => Some("ctrl-c"@),
            KeyCode::Char('a') => Some("home"@),
            KeyCode::Char('e') => Some("end"@),
            KeyCode::Char('u') => Some("clear"@),
            KeyCode::Char('l') => Some("full_lyrics"@),
            _ => None,
        }
    } else {
        match event.code {
            KeyCode::Char(c) => Some(seq![c]),
            KeyCode::Enter => Some("enter"@),
            KeyCode::Esc => Some("esc"@),
            KeyCode::Backspace => Some("backspace"@),
            KeyCode::Delete => Some("delete"@),
            KeyCode::Tab => if event.shift { Some("backtab"@) } else { Some("tab"@) },
            KeyCode::BackTab => Some("backtab"@),
            KeyCode::Left => Some("left"@),
            KeyCode::Right => Some("right"@),
            KeyCode::Up => Some("up"@),
            KeyCode::Down => Some("down"@),
            KeyCode::Home => Some("home"@),
            KeyCode::End => Some("end"@),
            KeyCode::PageUp => Some("pageup"@),
            KeyCode::PageDown => Some("pagedown"@),
            KeyCode::Other => None,
        }
    }
}

fn named(name: &'static str) -> (owned: Option<String>)
    ensures
        owned matches Some(s) && s@ == name@,
{
    Some(String::from_str(name))
}

/// The name the interface gives a key press, if any.
pub fn key_name(event: KeyPress) -> (name: Option<String>)
    ensures
        match (name, key_name_spec(event)) {
            (Some(n), Some(expected)) => n@ == expected,
            (None, None) => true,
            _ => false,
        },
{
    if event.release || event.alt_or_super {
        return None;
    }
    if event.control {
        return match event.code {
            KeyCode::Char('c') => named("ctrl-c"),
            KeyCode::Char('a') => named("home"),
            KeyCode::Char('e') => named("end"),
            KeyCode::Char('u') => named("clear"),
            KeyCode::Char('l') => named("full_lyrics"),
            _ => None,
        };
    }
    match event.code {
        KeyCode::Char(c) => {
            let one = [c];
            let text = string_of(&one);
            assert(one@ =~= seq![c]);
            Some(text)
        },
        KeyCode::Enter => named("enter"),
        KeyCode::Esc => named("esc"),
        KeyCode::Backspace => named("backspace"),
        KeyCode::Delete => named("delete"),
        KeyCode::Tab => if event.shift { named("backtab") } else { named("tab") },
        KeyCode::BackTab => named("backtab"),
        KeyCode::Left => named("left"),
        KeyCode::Right => named("right"),
        KeyCode::Up => named("up"),
        KeyCode::Down => named("down"),
        KeyCode::Home => named("home"),
        KeyCode::End => named("end"),
        KeyCode::PageUp => named("pageup"),
        KeyCode::PageDown => named("pagedown"),
        KeyCode::Other => None,
    }
}

} // verus!

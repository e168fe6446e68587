//! Key bindings: which event a key press produces.
//!
//! A key press is given by the key, the modifier keys held, and whether the key was pressed (as
//! opposed to repeated or released); the terminal's key events are read into this form.
use vstd::prelude::*;

use super::{Event, MatchListEvent, PromptEvent};

verus! {

/// The key of a key press.
#[derive(Clone, Copy, Debug, PartialEq, Eq)]
pub enum KeyCode {
    /// A character key.
    Char(char),
    /// The escape key.
    Esc,
    /// The up arrow.
    Up,
    /// The down arrow.
    Down,
    /// The left arrow.
    Left,
    /// The right arrow.
    Right,
    /// The home key.
    Home,
    /// The end key.
    End,
    /// The backspace key.
    Backspace,
    /// The delete key.
    Delete,
    /// The enter key.
    Enter,
    /// The tab key.
    Tab,
    /// The tab key with shift, as terminals report it.
    BackTab,
    /// Any other key.
    Other,
}

/// The modifier keys held during a key press.
#[derive(Clone, Copy, Debug, PartialEq, Eq)]
pub enum KeyModifiers {
    /// No modifier.
    Plain,
    /// Shift alone.
    Shift,
    /// Control alone.
    Control,
    /// Alt alone.
    Alt,
    /// Any other combination.
    Combined,
}

/// A key event.
#[derive(Clone, Copy, Debug, PartialEq, Eq)]
pub struct KeyEvent {
    /// The key.
    pub code: KeyCode,
    /// The modifiers held.
    pub modifiers: KeyModifiers,
    /// Whether the key was pressed (not repeated or released).
    pub press: bool,
}

/// The event of a key press in the bindings that are not for multiple selections, if any.
pub open spec fn single_binding<A>(key: KeyEvent) -> Option<Event<A>> {
    if !key.press {
        None
    } else {
        match (key.modifiers, key.code) {
            (KeyModifiers::Plain, KeyCode::Esc) => Some(Event::Quit),
            (KeyModifiers::Plain, KeyCode::Up) => Some(Event::MatchList(MatchListEvent::Up(1))),
            (KeyModifiers::Plain, KeyCode::Down) => Some(Event::MatchList(MatchListEvent::Down(1))),
            (KeyModifiers::Plain, KeyCode::Left) => Some(Event::Prompt(PromptEvent::Left(1))),
            (KeyModifiers::Plain, KeyCode::Right) => Some(Event::Prompt(PromptEvent::Right(1))),
            (KeyModifiers::Plain, KeyCode::Home) => Some(Event::Prompt(PromptEvent::ToStart)),
            (KeyModifiers::Plain, KeyCode::End) => Some(Event::Prompt(PromptEvent::ToEnd)),
            (KeyModifiers::Plain, KeyCode::Char(ch)) => Some(Event::Prompt(PromptEvent::Insert(ch))),
            (KeyModifiers::Plain, KeyCode::Backspace) => Some(Event::Prompt(PromptEvent::Backspace(1))),
            (KeyModifiers::Plain, KeyCode::Enter) => Some(Event::Select),
            (KeyModifiers::Plain, KeyCode::Delete) => Some(Event::Prompt(PromptEvent::Delete(1))),
            (KeyModifiers::Control, KeyCode::Char(c)) => control_binding(c),
            (KeyModifiers::Alt, KeyCode::Char('f')) => Some(Event::Prompt(PromptEvent::WordLeft(1))),
            (KeyModifiers::Alt, KeyCode::Char('b')) => Some(Event::Prompt(PromptEvent::WordRight(1))),
            (KeyModifiers::Shift, KeyCode::Char(ch)) => Some(Event::Prompt(PromptEvent::Insert(ch))),
            (KeyModifiers::Shift, KeyCode::Backspace) => Some(Event::Prompt(PromptEvent::Backspace(1))),
            (KeyModifiers::Shift, KeyCode::Enter) => Some(Event::MatchList(MatchListEvent::Down(1))),
            _ => None,
        }
    }
}

/// The event of a character key pressed with control alone, if any.
pub open spec fn control_binding<A>(c: char) -> Option<Event<A>> {
    if c == 'c' {
        Some(Event::UserInterrupt)
    } else if c == 'd' {
        Some(Event::QuitPromptEmpty)
    } else if c == '0' {
        Some(Event::MatchList(MatchListEvent::Reset))
    } else if c == 'g' || c == 'q' {
        Some(Event::Quit)
    } else if c == 'k' || c == 'p' {
        Some(Event::MatchList(MatchListEvent::Up(1)))
    } else if c == 'j' || c == 'n' {
        Some(Event::MatchList(MatchListEvent::Down(1)))
    } else if c == 'b' {
        Some(Event::Prompt(PromptEvent::Left(1)))
    } else if c == 'f' {
        Some(Event::Prompt(PromptEvent::Right(1)))
    } else if c == 'a' {
        Some(Event::Prompt(PromptEvent::ToStart))
    } else if c == 'e' {
        Some(Event::Prompt(PromptEvent::ToEnd))
    } else if c == 'h' {
        Some(Event::Prompt(PromptEvent::Backspace(1)))
    } else if c == 'w' {
        Some(Event::Prompt(PromptEvent::BackspaceWord(1)))
    } else if c == 'u' {
        Some(Event::Prompt(PromptEvent::ClearBefore))
    } else if c == 'o' {
        Some(Event::Prompt(PromptEvent::ClearAfter))
    } else {
        None
    }
}

/// The event of a key press in the bindings for multiple selections, if any.
pub open spec fn multi_binding<A>(key: KeyEvent) -> Option<Event<A>> {
    if !key.press {
        None
    } else {
        match (key.modifiers, key.code) {
            (KeyModifiers::Plain, KeyCode::Tab) => Some(Event::MatchList(MatchListEvent::ToggleDown(1))),
            (KeyModifiers::Plain, KeyCode::BackTab) => Some(Event::MatchList(MatchListEvent::ToggleUp(1))),
            (KeyModifiers::Control, KeyCode::Char('-')) => Some(Event::MatchList(MatchListEvent::DeselectAll)),
            (KeyModifiers::Shift, KeyCode::BackTab) => Some(Event::MatchList(MatchListEvent::ToggleUp(1))),
            _ => None,
        }
    }
}

/// The key event as the result of a binding: the event it produces, or the key event itself.
pub open spec fn passthrough<A>(binding: Option<Event<A>>, key: KeyEvent) -> Result<Event<A>, KeyEvent> {
    match binding {
        Some(e) => Ok(e),
        None => Err(key),
    }
}

/// Whether `key` is a press of `code` with exactly the modifiers `m`.
pub open spec fn pressed(key: KeyEvent, m: KeyModifiers, code: KeyCode) -> bool {
    key.press && key.modifiers == m && key.code == code
}

/// The default bindings, key by key. Without multiple selections: Escape quits, Enter selects
/// the highlighted item, the arrows move the selection (up, down) or the cursor (left, right),
/// Home and End move the cursor to the ends of the query, Backspace and Delete remove a grapheme,
/// a character (alone or with shift) is inserted; with control, `c` interrupts, `d` quits on an
/// empty query, `0` resets the selection, `g` and `q` quit, `k`/`p` and `j`/`n` move up and down,
/// `b`/`f` move the cursor, `a`/`e` go to the ends, `h` and `w` delete a grapheme or a word
/// backwards, `u` and `o` clear before and after the cursor; alt with `f` or `b` moves by words;
/// shift with Enter moves down. For multiple selections: Tab toggles and moves down, (shift)
/// BackTab toggles and moves up, control `-` clears the queue. A key that is not pressed gives no
/// event.
pub proof fn law_default_bindings<A>(key: KeyEvent)
    ensures
        !key.press ==> single_binding::<A>(key) is None && multi_binding::<A>(key) is None,
        pressed(key, KeyModifiers::Plain, KeyCode::Esc) ==> single_binding::<A>(key) == Some(Event::<A>::Quit),
        pressed(key, KeyModifiers::Plain, KeyCode::Up) ==> single_binding::<A>(key) == Some(Event::<A>::MatchList(MatchListEvent::Up(1))),
        pressed(key, KeyModifiers::Plain, KeyCode::Down) ==> single_binding::<A>(key) == Some(Event::<A>::MatchList(MatchListEvent::Down(1))),
        pressed(key, KeyModifiers::Plain, KeyCode::Left) ==> single_binding::<A>(key) == Some(Event::<A>::Prompt(PromptEvent::Left(1))),
        pressed(key, KeyModifiers::Plain, KeyCode::Right) ==> single_binding::<A>(key) == Some(Event::<A>::Prompt(PromptEvent::Right(1))),
        pressed(key, KeyModifiers::Plain, KeyCode::Home) ==> single_binding::<A>(key) == Some(Event::<A>::Prompt(PromptEvent::ToStart)),
        pressed(key, KeyModifiers::Plain, KeyCode::End) ==> single_binding::<A>(key) == Some(Event::<A>::Prompt(PromptEvent::ToEnd)),
        pressed(key, KeyModifiers::Plain, KeyCode::Backspace) ==> single_binding::<A>(key) == Some(Event::<A>::Prompt(PromptEvent::Backspace(1))),
        pressed(key, KeyModifiers::Plain, KeyCode::Enter) ==> single_binding::<A>(key) == Some(Event::<A>::Select),
        pressed(key, KeyModifiers::Plain, KeyCode::Delete) ==> single_binding::<A>(key) == Some(Event::<A>::Prompt(PromptEvent::Delete(1))),
        pressed(key, KeyModifiers::Plain, KeyCode::Tab) ==> single_binding::<A>(key) is None,
        pressed(key, KeyModifiers::Plain, KeyCode::BackTab) ==> single_binding::<A>(key) is None,
        pressed(key, KeyModifiers::Plain, KeyCode::Other) ==> single_binding::<A>(key) is None,
        forall|c: char| #[trigger] pressed(key, KeyModifiers::Plain, KeyCode::Char(c)) ==> single_binding::<A>(key) == Some(Event::<A>::Prompt(PromptEvent::Insert(c))),
        forall|c: char| #[trigger] pressed(key, KeyModifiers::Shift, KeyCode::Char(c)) ==> single_binding::<A>(key) == Some(Event::<A>::Prompt(PromptEvent::Insert(c))),
        pressed(key, KeyModifiers::Control, KeyCode::Char('c')) ==> single_binding::<A>(key) == Some(Event::<A>::UserInterrupt),
        pressed(key, KeyModifiers::Control, KeyCode::Char('d')) ==> single_binding::<A>(key) == Some(Event::<A>::QuitPromptEmpty),
        pressed(key, KeyModifiers::Control, KeyCode::Char('0')) ==> single_binding::<A>(key) == Some(Event::<A>::MatchList(MatchListEvent::Reset)),
        pressed(key, KeyModifiers::Control, KeyCode::Char('g')) ==> single_binding::<A>(key) == Some(Event::<A>::Quit),
        pressed(key, KeyModifiers::Control, KeyCode::Char('q')) ==> single_binding::<A>(key) == Some(Event::<A>::Quit),
        pressed(key, KeyModifiers::Control, KeyCode::Char('k')) ==> single_binding::<A>(key) == Some(Event::<A>::MatchList(MatchListEvent::Up(1))),
        pressed(key, KeyModifiers::Control, KeyCode::Char('p')) ==> single_binding::<A>(key) == Some(Event::<A>::MatchList(MatchListEvent::Up(1))),
        pressed(key, KeyModifiers::Control, KeyCode::Char('j')) ==> single_binding::<A>(key) == Some(Event::<A>::MatchList(MatchListEvent::Down(1))),
        pressed(key, KeyModifiers::Control, KeyCode::Char('n')) ==> single_binding::<A>(key) == Some(Event::<A>::MatchList(MatchListEvent::Down(1))),
        pressed(key, KeyModifiers::Control, KeyCode::Char('b')) ==> single_binding::<A>(key) == Some(Event::<A>::Prompt(PromptEvent::Left(1))),
        pressed(key, KeyModifiers::Control, KeyCode::Char('f')) ==> single_binding::<A>(key) == Some(Event::<A>::Prompt(PromptEvent::Right(1))),
        pressed(key, KeyModifiers::Control, KeyCode::Char('a')) ==> single_binding::<A>(key) == Some(Event::<A>::Prompt(PromptEvent::ToStart)),
        pressed(key, KeyModifiers::Control, KeyCode::Char('e')) ==> single_binding::<A>(key) == Some(Event::<A>::Prompt(PromptEvent::ToEnd)),
        pressed(key, KeyModifiers::Control, KeyCode::Char('h')) ==> single_binding::<A>(key) == Some(Event::<A>::Prompt(PromptEvent::Backspace(1))),
        pressed(key, KeyModifiers::Control, KeyCode::Char('w')) ==> single_binding::<A>(key) == Some(Event::<A>::Prompt(PromptEvent::BackspaceWord(1))),
        pressed(key, KeyModifiers::Control, KeyCode::Char('u')) ==> single_binding::<A>(key) == Some(Event::<A>::Prompt(PromptEvent::ClearBefore)),
        pressed(key, KeyModifiers::Control, KeyCode::Char('o')) ==> single_binding::<A>(key) == Some(Event::<A>::Prompt(PromptEvent::ClearAfter)),
        pressed(key, KeyModifiers::Control, KeyCode::Char('-')) ==> single_binding::<A>(key) is None,
        pressed(key, KeyModifiers::Control, KeyCode::Char('x')) ==> single_binding::<A>(key) is None,
        pressed(key, KeyModifiers::Control, KeyCode::Enter) ==> single_binding::<A>(key) is None,
        pressed(key, KeyModifiers::Alt, KeyCode::Char('f')) ==> single_binding::<A>(key) == Some(Event::<A>::Prompt(PromptEvent::WordLeft(1))),
        pressed(key, KeyModifiers::Alt, KeyCode::Char('b')) ==> single_binding::<A>(key) == Some(Event::<A>::Prompt(PromptEvent::WordRight(1))),
        pressed(key, KeyModifiers::Alt, KeyCode::Char('x')) ==> single_binding::<A>(key) is None,
        pressed(key, KeyModifiers::Shift, KeyCode::Backspace) ==> single_binding::<A>(key) == Some(Event::<A>::Prompt(PromptEvent::Backspace(1))),
        pressed(key, KeyModifiers::Shift, KeyCode::Enter) ==> single_binding::<A>(key) == Some(Event::<A>::MatchList(MatchListEvent::Down(1))),
        pressed(key, KeyModifiers::Shift, KeyCode::BackTab) ==> single_binding::<A>(key) is None,
        pressed(key, KeyModifiers::Combined, KeyCode::Enter) ==> single_binding::<A>(key) is None,
        pressed(key, KeyModifiers::Plain, KeyCode::Tab) ==> multi_binding::<A>(key) == Some(Event::<A>::MatchList(MatchListEvent::ToggleDown(1))),
        pressed(key, KeyModifiers::Plain, KeyCode::BackTab) ==> multi_binding::<A>(key) == Some(Event::<A>::MatchList(MatchListEvent::ToggleUp(1))),
        pressed(key, KeyModifiers::Control, KeyCode::Char('-')) ==> multi_binding::<A>(key) == Some(Event::<A>::MatchList(MatchListEvent::DeselectAll)),
        pressed(key, KeyModifiers::Shift, KeyCode::BackTab) ==> multi_binding::<A>(key) == Some(Event::<A>::MatchList(MatchListEvent::ToggleUp(1))),
        pressed(key, KeyModifiers::Plain, KeyCode::Enter) ==> multi_binding::<A>(key) is None,
        pressed(key, KeyModifiers::Plain, KeyCode::Esc) ==> multi_binding::<A>(key) is None,
        pressed(key, KeyModifiers::Control, KeyCode::Char('c')) ==> multi_binding::<A>(key) is None,
        key.modifiers == KeyModifiers::Combined ==> single_binding::<A>(key) is None
            && multi_binding::<A>(key) is None,
        key.press && key.modifiers == KeyModifiers::Alt && key.code != KeyCode::Char('f') && key.code
            != KeyCode::Char('b') ==> single_binding::<A>(key) is None,
        key.modifiers == KeyModifiers::Alt ==> multi_binding::<A>(key) is None,
        key.press && key.modifiers == KeyModifiers::Control && !(key.code is Char)
            ==> single_binding::<A>(key) is None,
        forall|c: char|
            #![trigger pressed(key, KeyModifiers::Control, KeyCode::Char(c))]
            pressed(key, KeyModifiers::Control, KeyCode::Char(c)) && c != 'c' && c != 'd' && c != '0'
                && c != 'g' && c != 'q' && c != 'k' && c != 'p' && c != 'j' && c != 'n' && c != 'b'
                && c != 'f' && c != 'a' && c != 'e' && c != 'h' && c != 'w' && c != 'u' && c != 'o'
                ==> single_binding::<A>(key) is None,
        key.press && key.modifiers == KeyModifiers::Shift && !(key.code is Char) && key.code
            != KeyCode::Backspace && key.code != KeyCode::Enter ==> single_binding::<A>(key) is None,
        !pressed(key, KeyModifiers::Plain, KeyCode::Tab) && !pressed(key, KeyModifiers::Plain,
            KeyCode::BackTab) && !pressed(key, KeyModifiers::Control, KeyCode::Char('-'))
            && !pressed(key, KeyModifiers::Shift, KeyCode::BackTab) ==> multi_binding::<A>(key) is None,
{
}

/// The default key bindings: those that are not for multiple selections, then those that are.
///
/// The type parameter `A` is that of the events produced; an [`Event::Abort`] is never produced.
pub fn keybind_default<A>(key_event: KeyEvent) -> (r: Option<Event<A>>)
    ensures
        r == match single_binding::<A>(key_event) {
            Some(e) => Some(e),
            None => multi_binding::<A>(key_event),
        },
        r is Some ==> !(r->0 is Abort),
{
    match keybind_no_multi_passthrough(key_event) {
        Ok(e) => Some(e),
        Err(k) => match keybind_multi_passthrough(k) {
            Ok(e) => Some(e),
            Err(_) => None,
        },
    }
}

/// The key bindings which do not emit events for multiple selections.
pub fn keybind_no_multi<A>(key_event: KeyEvent) -> (r: Option<Event<A>>)
    ensures
        r == single_binding::<A>(key_event),
        r is Some ==> !(r->0 is Abort),
{
    match keybind_no_multi_passthrough(key_event) {
        Ok(e) => Some(e),
        Err(_) => None,
    }
}

/// The key bindings for multiple selections; any other key event is handed back.
pub fn keybind_multi_passthrough<A>(key_event: KeyEvent) -> (r: Result<Event<A>, KeyEvent>)
    ensures
        r == passthrough(multi_binding::<A>(key_event), key_event),
{
    if !key_event.press {
        return Err(key_event);
    }
    match (key_event.modifiers, key_event.code) {
        (KeyModifiers::Plain, KeyCode::Tab) => Ok(Event::MatchList(MatchListEvent::ToggleDown(1))),
        (KeyModifiers::Plain, KeyCode::BackTab) => Ok(Event::MatchList(MatchListEvent::ToggleUp(1))),
        (KeyModifiers::Control, KeyCode::Char('-')) => Ok(Event::MatchList(MatchListEvent::DeselectAll)),
        (KeyModifiers::Shift, KeyCode::BackTab) => Ok(Event::MatchList(MatchListEvent::ToggleUp(1))),
        _ => Err(key_event),
    }
}

/// The event of a character key pressed with control alone, if any.
fn control_key<A>(c: char) -> (r: Option<Event<A>>)
    ensures
        r == control_binding::<A>(c),
{
    match c {
        'c' => Some(Event::UserInterrupt),
        'd' => Some(Event::QuitPromptEmpty),
        '0' => Some(Event::MatchList(MatchListEvent::Reset)),
        'g' | 'q' => Some(Event::Quit),
        'k' | 'p' => Some(Event::MatchList(MatchListEvent::Up(1))),
        'j' | 'n' => Some(Event::MatchList(MatchListEvent::Down(1))),
        'b' => Some(Event::Prompt(PromptEvent::Left(1))),
        'f' => Some(Event::Prompt(PromptEvent::Right(1))),
        'a' => Some(Event::Prompt(PromptEvent::ToStart)),
        'e' => Some(Event::Prompt(PromptEvent::ToEnd)),
        'h' => Some(Event::Prompt(PromptEvent::Backspace(1))),
        'w' => Some(Event::Prompt(PromptEvent::BackspaceWord(1))),
        'u' => Some(Event::Prompt(PromptEvent::ClearBefore)),
        'o' => Some(Event::Prompt(PromptEvent::ClearAfter)),
        _ => None,
    }
}

/// The key bindings which do not emit events for multiple selections; any other key event is
/// handed back.
pub fn keybind_no_multi_passthrough<A>(key_event: KeyEvent) -> (r: Result<Event<A>, KeyEvent>)
    ensures
        r == passthrough(single_binding::<A>(key_event), key_event),
{
    if !key_event.press {
        return Err(key_event);
    }
    let event = match (key_event.modifiers, key_event.code) {
        (KeyModifiers::Plain, KeyCode::Esc) => Some(Event::Quit),
        (KeyModifiers::Plain, KeyCode::Up) => Some(Event::MatchList(MatchListEvent::Up(1))),
        (KeyModifiers::Plain, KeyCode::Down) => Some(Event::MatchList(MatchListEvent::Down(1))),
        (KeyModifiers::Plain, KeyCode::Left) => Some(Event::Prompt(PromptEvent::Left(1))),
        (KeyModifiers::Plain, KeyCode::Right) => Some(Event::Prompt(PromptEvent::Right(1))),
        (KeyModifiers::Plain, KeyCode::Home) => Some(Event::Prompt(PromptEvent::ToStart)),
        (KeyModifiers::Plain, KeyCode::End) => Some(Event::Prompt(PromptEvent::ToEnd)),
        (KeyModifiers::Plain, KeyCode::Char(ch)) => Some(Event::Prompt(PromptEvent::Insert(ch))),
        (KeyModifiers::Plain, KeyCode::Backspace) => Some(Event::Prompt(PromptEvent::Backspace(1))),
        (KeyModifiers::Plain, KeyCode::Enter) => Some(Event::Select),
        (KeyModifiers::Plain, KeyCode::Delete) => Some(Event::Prompt(PromptEvent::Delete(1))),
        (KeyModifiers::Control, KeyCode::Char(c)) => control_key(c),
        (KeyModifiers::Alt, KeyCode::Char('f')) => Some(Event::Prompt(PromptEvent::WordLeft(1))),
        (KeyModifiers::Alt, KeyCode::Char('b')) => Some(Event::Prompt(PromptEvent::WordRight(1))),
        (KeyModifiers::Shift, KeyCode::Char(ch)) => Some(Event::Prompt(PromptEvent::Insert(ch))),
        (KeyModifiers::Shift, KeyCode::Backspace) => Some(Event::Prompt(PromptEvent::Backspace(1))),
        (KeyModifiers::Shift, KeyCode::Enter) => Some(Event::MatchList(MatchListEvent::Down(1))),
        _ => None,
    };
    match event {
        Some(e) => Ok(e),
        None => Err(key_event),
    }
}

} // verus!

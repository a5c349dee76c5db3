//! The keystrokes that paste the clipboard into the focused application.

use vstd::prelude::*;

verus! {

/// The kind of desktop the keystrokes go to.
#[derive(Clone, Copy, Debug, PartialEq, Eq, Structural)]
pub enum Desktop {
    /// Shortcuts use the Command key.
    MacOs,
    /// Shortcuts use the Control key.
    Other,
}

#[derive(Clone, Copy, Debug, PartialEq, Eq, Structural)]
pub enum Key {
    MetaLeft,
    ControlLeft,
    KeyV,
}

#[derive(Clone, Copy, Debug, PartialEq, Eq, Structural)]
pub enum KeyEvent {
    Press(Key),
    Release(Key),
}

pub open spec fn shortcut_modifier(desktop: Desktop) -> Key {
    match desktop {
        Desktop::MacOs => Key::MetaLeft,
        Desktop::Other => Key::ControlLeft,
    }
}

/// Modifier down, V down, V up, modifier up.
pub open spec fn paste_events(desktop: Desktop) -> Seq<KeyEvent> {
    let m = shortcut_modifier(desktop);
    seq![KeyEvent::Press(m), KeyEvent::Press(Key::KeyV), KeyEvent::Release(Key::KeyV), KeyEvent::Release(m)]
}

/// The key events that paste on `desktop`, in the order to send them.
pub fn simulate_paste(desktop: Desktop) -> (r: Vec<KeyEvent>)
    ensures
        r@ == paste_events(desktop),
{
    let modifier = match desktop {
        Desktop::MacOs => Key::MetaLeft,
        Desktop::Other => Key::ControlLeft,
    };
    let mut r: Vec<KeyEvent> = Vec::new();
    r.push(KeyEvent::Press(modifier));
    r.push(KeyEvent::Press(Key::KeyV));
    r.push(KeyEvent::Release(Key::KeyV));
    r.push(KeyEvent::Release(modifier));
    assert(r@ =~= paste_events(desktop));
    r
}

} // verus!

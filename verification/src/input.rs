//! Terminal input classification: the mapping from raw terminal events to
//! the closed vocabulary of logical keys, and the recognition of the
//! interrupt chord (Control + 'c') as a distinguished shutdown signal.

use vstd::prelude::*;

verus! {

/// The key code of a terminal key event, as far as the protocol reads it.
/// Every key the protocol does not understand is `Other`.
#[derive(Clone, Copy, Debug, PartialEq, Eq, Structural)]
pub enum TermKeyCode {
    Char(char),
    Backspace,
    Up,
    Down,
    Left,
    Right,
    Other,
}

/// The modifier state of a terminal key event. `other` stands for any
/// modifier beyond control, shift and alt (super, hyper, meta, ...), so a
/// modifier set is "exactly control" iff `ctrl` holds and the rest are false.
#[derive(Clone, Copy, Debug, PartialEq, Eq, Structural)]
pub struct TermModifiers {
    pub ctrl: bool,
    pub shift: bool,
    pub alt: bool,
    pub other: bool,
}

/// A terminal input event, as far as the protocol reads it. Resize, focus,
/// paste and mouse events, and key events that are not presses, are `Other`.
#[derive(Clone, Copy, Debug, PartialEq, Eq, Structural)]
pub enum TermEvent {
    Key { code: TermKeyCode, mods: TermModifiers },
    Other,
}

/// The closed set of input symbols the protocol understands.
#[derive(Clone, Copy, Debug, PartialEq, Eq, Structural)]
pub enum LogicalKey {
    Character(char),
    Backspace,
    Up,
    Down,
    Left,
    Right,
}

/// The only outbound message kind: one pressed logical key.
#[derive(Clone, Copy, Debug, PartialEq, Eq, Structural)]
pub enum UserInputMessage {
    PressedKey(LogicalKey),
}

/// What the protocol loop does with one terminal event.
#[derive(Clone, Copy, Debug, PartialEq, Eq, Structural)]
pub enum EventAction {
    /// The interrupt chord: shut the session down, forwarding nothing.
    Interrupt,
    /// A mapped key press: send it to the backend and await one reply.
    Forward(LogicalKey),
    /// Anything else: no message, no render, read the next event.
    Ignore,
}

/// The modifier set of the interrupt chord: control alone.
pub open spec fn interrupt_modifiers() -> TermModifiers {
    TermModifiers { ctrl: true, shift: false, alt: false, other: false }
}

/// The interrupt chord is the character 'c' pressed with exactly the
/// control modifier.
pub open spec fn is_interrupt(ev: TermEvent) -> bool {
    ev == (TermEvent::Key { code: TermKeyCode::Char('c'), mods: interrupt_modifiers() })
}

/// The classification of one terminal event: the interrupt chord shuts the
/// session down; any other key press with a mapped code is forwarded,
/// whatever its modifiers; everything else is ignored.
pub open spec fn spec_classify(ev: TermEvent) -> EventAction {
    if is_interrupt(ev) {
        EventAction::Interrupt
    } else {
        match ev {
            TermEvent::Key { code, mods } => match code {
                TermKeyCode::Char(c) => EventAction::Forward(LogicalKey::Character(c)),
                TermKeyCode::Backspace => EventAction::Forward(LogicalKey::Backspace),
                TermKeyCode::Up => EventAction::Forward(LogicalKey::Up),
                TermKeyCode::Down => EventAction::Forward(LogicalKey::Down),
                TermKeyCode::Left => EventAction::Forward(LogicalKey::Left),
                TermKeyCode::Right => EventAction::Forward(LogicalKey::Right),
                TermKeyCode::Other => EventAction::Ignore,
            },
            TermEvent::Other => EventAction::Ignore,
        }
    }
}

/// Recognizes the interrupt chord.
pub fn is_interrupt_event(ev: &TermEvent) -> (b: bool)
    ensures
        b == is_interrupt(*ev),
{
    match ev {
        TermEvent::Key { code: TermKeyCode::Char(c), mods } => {
            *c == 'c' && mods.ctrl && !mods.shift && !mods.alt && !mods.other
        },
        _ => false,
    }
}

/// Classifies one terminal event for the protocol loop.
pub fn classify_event(ev: &TermEvent) -> (a: EventAction)
    ensures
        a == spec_classify(*ev),
{
    if is_interrupt_event(ev) {
        EventAction::Interrupt
    } else {
        match ev {
            TermEvent::Key { code, mods: _ } => match code {
                TermKeyCode::Char(c) => EventAction::Forward(LogicalKey::Character(*c)),
                TermKeyCode::Backspace => EventAction::Forward(LogicalKey::Backspace),
                TermKeyCode::Up => EventAction::Forward(LogicalKey::Up),
                TermKeyCode::Down => EventAction::Forward(LogicalKey::Down),
                TermKeyCode::Left => EventAction::Forward(LogicalKey::Left),
                TermKeyCode::Right => EventAction::Forward(LogicalKey::Right),
                TermKeyCode::Other => EventAction::Ignore,
            },
            TermEvent::Other => EventAction::Ignore,
        }
    }
}

/// Wraps one logical key as the outbound message for one exchange.
pub fn build_message(key: LogicalKey) -> (m: UserInputMessage)
    ensures
        m == UserInputMessage::PressedKey(key),
{
    UserInputMessage::PressedKey(key)
}

} // verus!

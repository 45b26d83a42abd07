//! Key events as the editor reads them: a key, the modifiers held, and whether it was
//! pressed, repeated or released.
use vstd::prelude::*;

verus! {

/// The keys the editor tells apart; every other key is `Other`.
#[derive(Debug, Clone, Copy, PartialEq, Eq, Structural)]
pub enum KeyCode {
    Backspace,
    Enter,
    Left,
    Right,
    Up,
    Down,
    Home,
    End,
    Tab,
    Delete,
    Esc,
    Char(char),
    Other,
}

/// The bit of each modifier.
pub const SHIFT_BIT: u8 = 0b0000_0001;

pub const CONTROL_BIT: u8 = 0b0000_0010;

pub const ALT_BIT: u8 = 0b0000_0100;

pub const SUPER_BIT: u8 = 0b0000_1000;

/// A set of modifier keys, one bit each.
#[derive(Debug, Clone, Copy, PartialEq, Eq, Structural)]
pub struct KeyModifiers {
    pub bits: u8,
}

impl KeyModifiers {
    /// No modifier.
    pub fn none() -> (m: KeyModifiers)
        ensures
            m.bits == 0,
    {
        KeyModifiers { bits: 0b0000_0000 }
    }

    /// Shift.
    pub fn shift() -> (m: KeyModifiers)
        ensures
            m.bits == SHIFT_BIT,
    {
        KeyModifiers { bits: SHIFT_BIT }
    }

    /// Control.
    pub fn control() -> (m: KeyModifiers)
        ensures
            m.bits == CONTROL_BIT,
    {
        KeyModifiers { bits: CONTROL_BIT }
    }

    /// Alt.
    pub fn alt() -> (m: KeyModifiers)
        ensures
            m.bits == ALT_BIT,
    {
        KeyModifiers { bits: ALT_BIT }
    }

    /// Super (the logo key).
    pub fn super_key() -> (m: KeyModifiers)
        ensures
            m.bits == SUPER_BIT,
    {
        KeyModifiers { bits: SUPER_BIT }
    }

    /// The modifiers of both sets.
    pub fn union(self, other: KeyModifiers) -> (m: KeyModifiers)
        ensures
            m.bits == self.bits | other.bits,
    {
        KeyModifiers { bits: self.bits | other.bits }
    }

    /// Every modifier of `other` is held in `self`.
    pub open spec fn has(self, bits: u8) -> bool {
        self.bits & bits == bits
    }

    /// Whether every modifier of `other` is held.
    pub fn contains(&self, other: KeyModifiers) -> (b: bool)
        ensures
            b == self.has(other.bits),
    {
        self.bits & other.bits == other.bits
    }
}

/// Whether a key was pressed, held down or released.
#[derive(Debug, Clone, Copy, PartialEq, Eq, Structural)]
pub enum KeyEventKind {
    Press,
    Repeat,
    Release,
}

/// One key event.
#[derive(Debug, Clone, Copy, PartialEq, Eq, Structural)]
pub struct KeyEvent {
    pub code: KeyCode,
    pub modifiers: KeyModifiers,
    pub kind: KeyEventKind,
}

} // verus!

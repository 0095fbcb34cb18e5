//! Keys that the terminal library encodes as private-use characters.
use animaterm::prelude::map_private_char_to_key;
use animaterm::Key;
use crate::keys::KeyCode::{
    AltB, AltF, AltTab, Delete, Down, End, Home, Left, Other, PgDn, PgUp, Right, Up, F8,
};
use vstd::prelude::*;

verus! {

/// The keys the library's screens react to; every other key is `Other`.
#[derive(Clone, Copy, Debug, PartialEq, Eq, Structural)]
pub enum KeyCode {
    Up,
    Down,
    Left,
    Right,
    Home,
    End,
    Delete,
    F8,
    AltB,
    AltF,
    AltTab,
    PgUp,
    PgDn,
    Other,
}

/// The key that a character stands for: no key outside U+E000..=U+E107,
/// the key listed in `KeyCode` at its character, and `Other` for the rest
/// of that range.
pub open spec fn private_key(c: char) -> Option<KeyCode> {
    let n = c as u32;
    if n < 0xe000 || n > 0xe107 {
        None
    } else if c == '\u{e083}' {
        Some(KeyCode::Up)
    } else if c == '\u{e084}' {
        Some(KeyCode::Down)
    } else if c == '\u{e085}' {
        Some(KeyCode::Left)
    } else if c == '\u{e086}' {
        Some(KeyCode::Right)
    } else if c == '\u{e087}' {
        Some(KeyCode::Home)
    } else if c == '\u{e088}' {
        Some(KeyCode::End)
    } else if c == '\u{e08a}' {
        Some(KeyCode::Delete)
    } else if c == '\u{e08c}' {
        Some(KeyCode::PgUp)
    } else if c == '\u{e08d}' {
        Some(KeyCode::PgDn)
    } else if c == '\u{e091}' {
        Some(KeyCode::F8)
    } else if c == '\u{e061}' {
        Some(KeyCode::AltB)
    } else if c == '\u{e065}' {
        Some(KeyCode::AltF)
    } else if c == '\u{e008}' {
        Some(KeyCode::AltTab)
    } else {
        Some(KeyCode::Other)
    }
}

/// Decodes a private-use character into a key.
/// Calls `animaterm::prelude::map_private_char_to_key`. The contract claims
/// what that function's table shows: each character of U+E000..=U+E107
/// stands for a key, the keys listed in `KeyCode` at one character each,
/// and no other character stands for a key (see `private_key`).
#[verifier::external_body]
pub(crate) fn key_of_char(c: char) -> (k: Option<KeyCode>)
    ensures
        k == private_key(c),
{
    match map_private_char_to_key(c) {
        None => None,
        Some(Key::Up) => Some(Up), Some(Key::Down) => Some(Down),
        Some(Key::Left) => Some(Left), Some(Key::Right) => Some(Right),
        Some(Key::Home) => Some(Home), Some(Key::End) => Some(End),
        Some(Key::Delete) => Some(Delete), Some(Key::F8) => Some(F8),
        Some(Key::AltB) => Some(AltB), Some(Key::AltF) => Some(AltF),
        Some(Key::AltTab) => Some(AltTab), Some(Key::PgUp) => Some(PgUp),
        Some(Key::PgDn) => Some(PgDn), Some(_) => Some(Other),
    }
}

} // verus!

//! The keyboard layout of the sixteen-key hex keypad.
use vstd::prelude::*;

verus! {

/// The hex key that a keyboard key stands for, in the usual 4x4 layout:
///
/// ```text
/// 1 2 3 4      1 2 3 C
/// Q W E R  ->  4 5 6 D
/// A S D F      7 8 9 E
/// Z X C V      A 0 B F
/// ```
///
/// Letters match in either case; any other key stands for none.
pub open spec fn keypad_layout(c: char) -> Option<u8> {
    if c == '1' {
        Some(0x1u8)
    } else if c == '2' {
        Some(0x2u8)
    } else if c == '3' {
        Some(0x3u8)
    } else if c == '4' {
        Some(0xCu8)
    } else if c == 'q' || c == 'Q' {
        Some(0x4u8)
    } else if c == 'w' || c == 'W' {
        Some(0x5u8)
    } else if c == 'e' || c == 'E' {
        Some(0x6u8)
    } else if c == 'r' || c == 'R' {
        Some(0xDu8)
    } else if c == 'a' || c == 'A' {
        Some(0x7u8)
    } else if c == 's' || c == 'S' {
        Some(0x8u8)
    } else if c == 'd' || c == 'D' {
        Some(0x9u8)
    } else if c == 'f' || c == 'F' {
        Some(0xEu8)
    } else if c == 'z' || c == 'Z' {
        Some(0xAu8)
    } else if c == 'x' || c == 'X' {
        Some(0x0u8)
    } else if c == 'c' || c == 'C' {
        Some(0xBu8)
    } else if c == 'v' || c == 'V' {
        Some(0xFu8)
    } else {
        None
    }
}

/// The hex key code of a keyboard key, as `keypad_layout` gives it.
pub fn keypad_code(c: char) -> (r: Option<u8>)
    ensures
        r == keypad_layout(c),
        r matches Some(code) ==> code < 16,
{
    match c {
        '1' => Some(0x1),
        '2' => Some(0x2),
        '3' => Some(0x3),
        '4' => Some(0xC),
        'q' | 'Q' => Some(0x4),
        'w' | 'W' => Some(0x5),
        'e' | 'E' => Some(0x6),
        'r' | 'R' => Some(0xD),
        'a' | 'A' => Some(0x7),
        's' | 'S' => Some(0x8),
        'd' | 'D' => Some(0x9),
        'f' | 'F' => Some(0xE),
        'z' | 'Z' => Some(0xA),
        'x' | 'X' => Some(0x0),
        'c' | 'C' => Some(0xB),
        'v' | 'V' => Some(0xF),
        _ => None,
    }
}

} // verus!

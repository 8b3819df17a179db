//! The fixed sixteen-entry keyboard mapping, from QWERTY key labels to
//! logical key codes:
//!
//! ```text
//! keypad           QWERTY
//! 1 | 2 | 3 | C    1 | 2 | 3 | 4
//! 4 | 5 | 6 | D    Q | W | E | R
//! 7 | 8 | 9 | E    A | S | D | F
//! A | 0 | B | F    Z | X | C | V
//! ```
//!
//! Keys are identified by the ASCII code of their lower-case label; any
//! other key maps to nothing and is ignored.
use vstd::prelude::*;

verus! {

/// The logical key code a physical key stands for, by the ASCII code of
/// its lower-case QWERTY label; `None` for the keys outside the mapping.
pub open spec fn spec_map_key(label: u8) -> Option<u8> {
    if label == 0x31 {  // '1'
        Some(0x1u8)
    } else if label == 0x32 {  // '2'
        Some(0x2u8)
    } else if label == 0x33 {  // '3'
        Some(0x3u8)
    } else if label == 0x34 {  // '4'
        Some(0xCu8)
    } else if label == 0x71 {  // 'q'
        Some(0x4u8)
    } else if label == 0x77 {  // 'w'
        Some(0x5u8)
    } else if label == 0x65 {  // 'e'
        Some(0x6u8)
    } else if label == 0x72 {  // 'r'
        Some(0xDu8)
    } else if label == 0x61 {  // 'a'
        Some(0x7u8)
    } else if label == 0x73 {  // 's'
        Some(0x8u8)
    } else if label == 0x64 {  // 'd'
        Some(0x9u8)
    } else if label == 0x66 {  // 'f'
        Some(0xEu8)
    } else if label == 0x7A {  // 'z'
        Some(0xAu8)
    } else if label == 0x78 {  // 'x'
        Some(0x0u8)
    } else if label == 0x63 {  // 'c'
        Some(0xBu8)
    } else if label == 0x76 {  // 'v'
        Some(0xFu8)
    } else {
        None
    }
}

/// Map a physical key's label to its logical key code. Every mapped code
/// is below 16; unmapped keys return `None`.
pub fn map_key(label: u8) -> (r: Option<u8>)
    ensures
        r == spec_map_key(label),
        r matches Some(k) ==> k < 16,
{
    match label {
        0x31 => Some(0x1),
        0x32 => Some(0x2),
        0x33 => Some(0x3),
        0x34 => Some(0xC),
        0x71 => Some(0x4),
        0x77 => Some(0x5),
        0x65 => Some(0x6),
        0x72 => Some(0xD),
        0x61 => Some(0x7),
        0x73 => Some(0x8),
        0x64 => Some(0x9),
        0x66 => Some(0xE),
        0x7A => Some(0xA),
        0x78 => Some(0x0),
        0x63 => Some(0xB),
        0x76 => Some(0xF),
        _ => None,
    }
}

} // verus!

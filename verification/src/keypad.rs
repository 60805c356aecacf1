//! The keypad: sixteen keys, laid out in four rows,
//!
//! ```text
//! 1 2 3 C
//! 4 5 6 D
//! 7 8 9 E
//! A 0 B F
//! ```
//!
//! and played on the four rows `1234`, `qwer`, `asdf`, `zxcv` of a keyboard.

use vstd::prelude::*;

verus! {

/// The codes of the keys of the keyboard that play the keypad, row by row.
/// The code of a key is the ASCII code of the character on it.
pub open spec fn keyboard_codes() -> Seq<i32> {
    seq![
        0x31i32, 0x32i32, 0x33i32, 0x34i32,
        0x71i32, 0x77i32, 0x65i32, 0x72i32,
        0x61i32, 0x73i32, 0x64i32, 0x66i32,
        0x7Ai32, 0x78i32, 0x63i32, 0x76i32,
    ]
}

/// The keys of the keypad, row by row.
pub open spec fn keypad_keys() -> Seq<usize> {
    seq![
        0x1usize, 0x2usize, 0x3usize, 0xCusize,
        0x4usize, 0x5usize, 0x6usize, 0xDusize,
        0x7usize, 0x8usize, 0x9usize, 0xEusize,
        0xAusize, 0x0usize, 0xBusize, 0xFusize,
    ]
}

/// The key of the keypad that a key of the keyboard plays: the one at the
/// same place of the layout.
pub open spec fn key_of(code: i32) -> Option<usize> {
    if keyboard_codes().contains(code) {
        Some(keypad_keys()[keyboard_codes().index_of(code)])
    } else {
        None
    }
}

/// The key of the keypad that the key of the keyboard with the given code
/// plays, if it plays one.
pub fn map_keycode(code: i32) -> (key: Option<usize>)
    ensures
        key == key_of(code),
        key matches Some(k) ==> k < 16,
{
    let key: Option<usize> = match code {
        0x31 => Some(0x1),
        0x32 => Some(0x2),
        0x33 => Some(0x3),
        0x34 => Some(0xC),
        0x71 => Some(0x4),
        0x77 => Some(0x5),
        0x65 => Some(0x6),
        0x72 => Some(0xD),
        0x61 => Some(0x7),
        0x73 => Some(0x8),
        0x64 => Some(0x9),
        0x66 => Some(0xE),
        0x7A => Some(0xA),
        0x78 => Some(0x0),
        0x63 => Some(0xB),
        0x76 => Some(0xF),
        _ => None,
    };
    proof {
        lemma_place_of(code);
    }
    key
}

/// Where a code stands in the layout, if it stands there.
proof fn lemma_place_of(code: i32)
    ensures
        keyboard_codes().contains(code) <==> exists|p: int|
            0 <= p < 16 && #[trigger] keyboard_codes()[p] == code,
        forall|p: int|
            0 <= p < 16 && #[trigger] keyboard_codes()[p] == code ==> keyboard_codes().index_of(code)
                == p,
{
    let codes = keyboard_codes();
    assert(codes.len() == 16);
    assert forall|p: int| 0 <= p < 16 && #[trigger] codes[p] == code implies codes.index_of(code)
        == p by {
        assert(codes.contains(code));
        let q = codes.index_of(code);
        assert(0 <= q < 16 && codes[q] == code);
    }
}

/// Every key of the keypad is played by one key of the keyboard, and by one
/// only.
pub proof fn lemma_every_key_is_played_once(key: usize)
    requires
        key < 16,
    ensures
        exists|code: i32| key_of(code) == Some(key),
        forall|one: i32, other: i32|
            key_of(one) == Some(key) && key_of(other) == Some(key) ==> one == other,
{
    let codes = keyboard_codes();
    let keys = keypad_keys();
    let p = choose|p: int| 0 <= p < 16 && keys[p] == key;
    assert(keys[0] == 1 && keys[1] == 2 && keys[2] == 3 && keys[3] == 0xC && keys[4] == 4
        && keys[5] == 5 && keys[6] == 6 && keys[7] == 0xD && keys[8] == 7 && keys[9] == 8
        && keys[10] == 9 && keys[11] == 0xE && keys[12] == 0xA && keys[13] == 0 && keys[14]
        == 0xB && keys[15] == 0xF);
    assert(0 <= p < 16 && keys[p] == key);
    lemma_place_of(codes[p]);
    assert(key_of(codes[p]) == Some(key));
    assert forall|one: i32, other: i32|
        key_of(one) == Some(key) && key_of(other) == Some(key) implies one == other by {
        lemma_place_of(one);
        lemma_place_of(other);
        let a = codes.index_of(one);
        let b = codes.index_of(other);
        assert(0 <= a < 16 && codes[a] == one);
        assert(0 <= b < 16 && codes[b] == other);
        assert(keys[a] == key && keys[b] == key);
    }
}

} // verus!

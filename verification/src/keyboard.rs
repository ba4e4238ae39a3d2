//! Deciding whether a device's supported keys look like a keyboard, and
//! the standard codes of the keys the resolver is usually built around.

use vstd::prelude::*;

verus! {

/// Linux input event code of the W key.
pub const KEY_W: u16 = 17;

/// Linux input event code of the A key.
pub const KEY_A: u16 = 30;

/// Linux input event code of the S key.
pub const KEY_S: u16 = 31;

/// Linux input event code of the D key.
pub const KEY_D: u16 = 32;

/// Linux input event code of the Z key.
pub const KEY_Z: u16 = 44;

/// Linux input event code of the space bar.
pub const KEY_SPACE: u16 = 57;

/// Whether `codes` holds `code`.
fn contains_code(codes: &Vec<u16>, code: u16) -> (r: bool)
    ensures
        r == codes@.contains(code),
{
    let mut i: usize = 0;
    while i < codes.len()
        invariant
            i <= codes@.len(),
            forall|j: int| 0 <= j < i ==> codes@[j] != code,
        decreases codes@.len() - i,
    {
        if codes[i] == code {
            return true;
        }
        i = i + 1;
    }
    false
}

/// Whether a device whose supported key codes are `codes` looks like a
/// keyboard: it must support the A, Z and space keys.
pub fn is_likely_keyboard(codes: &Vec<u16>) -> (r: bool)
    ensures
        r == (codes@.contains(KEY_A) && codes@.contains(KEY_Z) && codes@.contains(KEY_SPACE)),
{
    contains_code(codes, KEY_A) && contains_code(codes, KEY_Z) && contains_code(codes, KEY_SPACE)
}

} // verus!

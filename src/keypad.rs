use vstd::prelude::*;

use crate::cpu::Input;

verus! {

/// Whether key `key` is marked pressed in the sixteen-bit keypad snapshot
/// `keypad` (bit `key` stands for key `key`).
pub open spec fn key_down(keypad: u16, key: int) -> bool {
    0 <= key < 16 && (keypad >> (key as u16)) & 1u16 == 1u16
}

/// The keypad snapshot `keypad` with key `key` marked pressed.
pub fn press_key(key: u16, keypad: &u16) -> (r: u16)
    requires
        key < 16,
    ensures
        r == *keypad | (1u16 << key),
        forall|k: int| 0 <= k < 16 ==> #[trigger] key_down(r, k) == (key_down(*keypad, k) || k == key),
{
    let r = *keypad | (1u16 << key);
    assert forall|k: int| 0 <= k < 16 implies #[trigger] key_down(r, k) == (key_down(*keypad, k)
        || k == key) by {
        let kk = k as u16;
        let p = *keypad;
        assert(((p | (1u16 << key)) >> kk) & 1u16 == 1u16 <==> ((p >> kk) & 1u16 == 1u16 || kk
            == key)) by (bit_vector)
            requires
                kk < 16,
                key < 16,
        ;
    }
    r
}

/// Whether key `key` is pressed in the snapshot `keypad`; codes from 16 on
/// name no key and are never pressed.
pub fn is_key_down(keypad: u16, key: u8) -> (r: bool)
    ensures
        r == key_down(keypad, key as int),
{
    if key >= 16 {
        return false;
    }
    let k = key as u16;
    assert((keypad & (1u16 << k)) > 0 <==> (keypad >> k) & 1u16 == 1u16) by (bit_vector)
        requires
            k < 16,
    ;
    (keypad & (1u16 << k)) > 0
}

/// The lowest-numbered key pressed in `keypad`, if any key is.
pub fn first_pressed(keypad: u16) -> (r: Option<u8>)
    ensures
        r is Some <==> exists|k: int| 0 <= k < 16 && #[trigger] key_down(keypad, k),
        r is Some ==> r->Some_0 < 16 && key_down(keypad, r->Some_0 as int) && forall|k: int|
            0 <= k < r->Some_0 ==> !#[trigger] key_down(keypad, k),
{
    let mut key: u8 = 0;
    while key < 16
        invariant
            key <= 16,
            forall|k: int| 0 <= k < key ==> !#[trigger] key_down(keypad, k),
        decreases 16 - key,
    {
        if is_key_down(keypad, key) {
            return Some(key);
        }
        key = key + 1;
    }
    None
}

/// An input with no keyboard behind it: no key is ever pressed, and a wait
/// for a key returns key 0 at once.
pub struct DummyInput {}

impl Input for DummyInput {
    fn wait_for_key(&self) -> (r: u8)
        ensures
            r == 0,
    {
        0
    }

    fn is_key_pressed(&self, key: u8) -> (r: bool)
        ensures
            !r,
    {
        false
    }
}

} // verus!

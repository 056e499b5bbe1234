//! The 16-key pad: one pressed/released state per key `0x0..=0xF`, set and
//! cleared by the host, only ever read by instructions.

use vstd::prelude::*;

verus! {

/// Keys on the pad.
pub const KEY_COUNT: usize = 16;

/// Whether `key` names a key of the pad that is held down in `keys`.
///
/// A number that names no key is never held down.
pub open spec fn key_down(keys: Seq<bool>, key: u8) -> bool {
    key < 16 && keys[key as int]
}

/// The state of the pad.
#[derive(Clone, Debug)]
pub struct Keypad {
    keys: Vec<bool>,
}

impl View for Keypad {
    type V = Seq<bool>;

    closed spec fn view(&self) -> Seq<bool> {
        self.keys@
    }
}

impl Keypad {
    /// The pad has exactly 16 keys.
    pub open spec fn wf(&self) -> bool {
        self@.len() == 16
    }

    /// A pad with every key released.
    pub fn new() -> (pad: Keypad)
        ensures
            pad.wf(),
            forall|k: int| 0 <= k < 16 ==> !pad@[k],
    {
        let mut keys: Vec<bool> = Vec::new();
        let mut i: usize = 0;
        while i < KEY_COUNT
            invariant
                i <= KEY_COUNT,
                keys@.len() == i,
                forall|k: int| 0 <= k < i ==> !keys@[k],
            decreases KEY_COUNT - i,
        {
            keys.push(false);
            i += 1;
        }
        Keypad { keys }
    }

    /// Records a key-down event. Returns whether `key` names a key; the pad
    /// is unchanged where it does not.
    pub fn press(&mut self, key: u8) -> (known: bool)
        requires
            old(self).wf(),
        ensures
            final(self).wf(),
            known == (key < 16),
            final(self)@ == if key < 16 {
                old(self)@.update(key as int, true)
            } else {
                old(self)@
            },
    {
        if (key as usize) < KEY_COUNT {
            self.keys.set(key as usize, true);
            true
        } else {
            false
        }
    }

    /// Records a key-up event. Returns whether `key` names a key; the pad is
    /// unchanged where it does not.
    pub fn release(&mut self, key: u8) -> (known: bool)
        requires
            old(self).wf(),
        ensures
            final(self).wf(),
            known == (key < 16),
            final(self)@ == if key < 16 {
                old(self)@.update(key as int, false)
            } else {
                old(self)@
            },
    {
        if (key as usize) < KEY_COUNT {
            self.keys.set(key as usize, false);
            true
        } else {
            false
        }
    }

    /// Whether `key` is held down.
    pub fn is_pressed(&self, key: u8) -> (pressed: bool)
        requires
            self.wf(),
        ensures
            pressed == key_down(self@, key),
    {
        (key as usize) < KEY_COUNT && self.keys[key as usize]
    }
}

} // verus!

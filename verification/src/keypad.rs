//! The 16-key input device: a fixed array of "is pressed" states, mutated
//! only by externally delivered key-down / key-up events.

use vstd::prelude::*;

verus! {

/// Sixteen boolean key states, indexed 0x0..=0xF.
pub struct Keypad {
    pub keys: Vec<bool>,
}

impl Keypad {
    /// The keypad always holds exactly sixteen key states.
    pub open spec fn wf(self) -> bool {
        self.keys.len() == 16
    }

    /// A fresh keypad with every key released.
    pub fn new() -> (kp: Keypad)
        ensures
            kp.wf(),
            kp.keys@ == Seq::new(16, |k: int| false),
    {
        let mut keys: Vec<bool> = Vec::new();
        let mut k: usize = 0;
        while k < 16
            invariant
                k <= 16,
                keys@ =~= Seq::new(k as nat, |j: int| false),
            decreases 16 - k,
        {
            keys.push(false);
            k = k + 1;
        }
        proof {
            assert(keys@ =~= Seq::new(16, |j: int| false));
        }
        Keypad { keys }
    }

    /// Mark key `idx` as pressed.
    pub fn key_down(&mut self, idx: u8)
        requires
            old(self).wf(),
            idx < 16,
        ensures
            final(self).wf(),
            final(self).keys@ == old(self).keys@.update(idx as int, true),
    {
        self.keys[idx as usize] = true;
    }

    /// Mark key `idx` as released.
    pub fn key_up(&mut self, idx: u8)
        requires
            old(self).wf(),
            idx < 16,
        ensures
            final(self).wf(),
            final(self).keys@ == old(self).keys@.update(idx as int, false),
    {
        self.keys[idx as usize] = false;
    }

    /// Whether key `idx` is currently pressed.
    pub fn is_key_pressed(&self, idx: u8) -> (pressed: bool)
        requires
            self.wf(),
            idx < 16,
        ensures
            pressed == self.keys@[idx as int],
    {
        self.keys[idx as usize]
    }
}

} // verus!

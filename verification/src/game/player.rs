use vstd::prelude::*;

use crate::game::bullets::GUN_COOLDOWN;

verus! {

/// Frames until the player's ship may fire again.
#[derive(PartialEq, Eq, Structural, Clone, Copy, Debug)]
pub struct Cooldown(pub u32);

impl Cooldown {
    /// One frame: the cooldown runs down, and when it has run out a pressed
    /// fire key fires a bullet and starts it again. Tells whether a bullet
    /// was fired.
    pub fn update(&mut self, fire: bool) -> (fired: bool)
        ensures
            fired == (fire && old(self).0 <= 1),
            final(self).0 == if fired {
                GUN_COOLDOWN as int
            } else if old(self).0 > 0 {
                old(self).0 - 1
            } else {
                0
            },
    {
        if self.0 > 0 {
            self.0 = self.0 - 1;
        }
        if self.0 == 0 && fire {
            self.0 = GUN_COOLDOWN;
            true
        } else {
            false
        }
    }
}

} // verus!

use vstd::prelude::*;

verus! {

/// Fixed-update ticks a gun needs between two shots.
pub const GUN_COOLDOWN: u32 = 5;

/// A gun that fires one bullet per [`GUN_COOLDOWN`] ticks at most.
#[derive(PartialEq, Eq, Structural, Clone, Copy, Debug)]
pub struct StandardGun {
    pub cooldown: u32,
}

impl Default for StandardGun {
    fn default() -> (r: Self)
        ensures
            r.cooldown == 0,
    {
        StandardGun { cooldown: 0 }
    }
}

impl StandardGun {
    /// One tick: the cooldown runs down, and when it has run out a pressed
    /// trigger fires a bullet and starts it again. Tells whether a bullet was
    /// fired.
    pub fn update(&mut self, fire: bool) -> (fired: bool)
        ensures
            fired == (fire && old(self).cooldown <= 1),
            final(self).cooldown == if fired {
                GUN_COOLDOWN as int
            } else if old(self).cooldown > 0 {
                old(self).cooldown - 1
            } else {
                0
            },
    {
        if self.cooldown > 0 {
            self.cooldown = self.cooldown - 1;
        }
        if self.cooldown == 0 && fire {
            self.cooldown = GUN_COOLDOWN;
            true
        } else {
            false
        }
    }
}

} // verus!

use vstd::prelude::*;

verus! {

/// Milliseconds from the start of the game to the first enemy.
pub const FIRST_ENEMY_DELAY: u64 = 1000;

/// Milliseconds between two enemies.
pub const ENEMY_INTERVAL: u64 = 30000;

/// When the next enemy comes, in milliseconds.
#[derive(PartialEq, Eq, Structural, Clone, Copy, Debug)]
pub struct Waves {
    pub next: u64,
}

impl Waves {
    /// The enemies of a game started at time `now`: the first comes a
    /// second later.
    pub fn start(now: u64) -> (r: Self)
        ensures
            r.next == if now + FIRST_ENEMY_DELAY <= u64::MAX { now + FIRST_ENEMY_DELAY } else { u64::MAX as int },
    {
        Waves { next: now.saturating_add(FIRST_ENEMY_DELAY) }
    }

    /// At time `now`: once an enemy is due it comes, and the next is due
    /// [`ENEMY_INTERVAL`] later. Tells whether an enemy comes.
    pub fn update(&mut self, now: u64) -> (spawn: bool)
        ensures
            spawn == (old(self).next <= now),
            spawn ==> final(self).next == if now + ENEMY_INTERVAL <= u64::MAX { now + ENEMY_INTERVAL } else { u64::MAX as int },
            !spawn ==> *final(self) == *old(self),
    {
        if self.next <= now {
            self.next = now.saturating_add(ENEMY_INTERVAL);
            true
        } else {
            false
        }
    }
}

} // verus!

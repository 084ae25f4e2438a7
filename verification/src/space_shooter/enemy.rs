use vstd::prelude::*;

verus! {

/// Frames a hit enemy spins before it disappears.
pub const DESTROYED_FRAMES: u32 = 300;

/// Milliseconds from the start of the game to the first wave.
pub const FIRST_WAVE_DELAY: u64 = 1000;

/// Milliseconds from one wave to the earliest next one.
pub const WAVE_INTERVAL: u64 = 5000;

/// An enemy that was hit: it spins for `.0` more frames, then disappears.
#[derive(PartialEq, Eq, Structural, Clone, Copy, Debug)]
pub struct DestroyedEnemy(pub u32);

impl DestroyedEnemy {
    /// An enemy just hit.
    pub fn new() -> (r: Self)
        ensures
            r.0 == DESTROYED_FRAMES,
    {
        DestroyedEnemy(DESTROYED_FRAMES)
    }

    /// One frame passes; tells whether the enemy is now to disappear.
    pub fn update(&mut self) -> (despawn: bool)
        requires
            old(self).0 > 0,
        ensures
            final(self).0 == old(self).0 - 1,
            despawn == (final(self).0 == 0),
    {
        self.0 = self.0 - 1;
        self.0 == 0
    }
}

/// The waves of enemies: when the next may come (in milliseconds) and how
/// many enemies it brings.
#[derive(PartialEq, Eq, Structural, Clone, Copy, Debug)]
pub struct Waves {
    pub next: u64,
    pub wave_number: u32,
}

impl Waves {
    /// The waves of a game started at time `now`: a first wave of one enemy
    /// a second later.
    pub fn start(now: u64) -> (r: Self)
        ensures
            r.next == if now + FIRST_WAVE_DELAY <= u64::MAX { now + FIRST_WAVE_DELAY } else { u64::MAX as int },
            r.wave_number == 1,
    {
        Waves { next: now.saturating_add(FIRST_WAVE_DELAY), wave_number: 1 }
    }

    /// At time `now`: once the wave is due and every enemy is gone, the wave
    /// comes, the next one brings one enemy more and is due
    /// [`WAVE_INTERVAL`] later. Returns the number of enemies to spawn.
    pub fn update(&mut self, now: u64, enemies_left: bool) -> (spawn: u32)
        requires
            old(self).wave_number < u32::MAX,
        ensures
            if old(self).next <= now && !enemies_left {
                &&& spawn == old(self).wave_number
                &&& final(self).wave_number == old(self).wave_number + 1
                &&& final(self).next == if now + WAVE_INTERVAL <= u64::MAX { now + WAVE_INTERVAL } else { u64::MAX as int }
            } else {
                spawn == 0 && *final(self) == *old(self)
            },
    {
        if self.next <= now && !enemies_left {
            let spawn = self.wave_number;
            self.wave_number = self.wave_number + 1;
            self.next = now.saturating_add(WAVE_INTERVAL);
            spawn
        } else {
            0
        }
    }
}

} // verus!

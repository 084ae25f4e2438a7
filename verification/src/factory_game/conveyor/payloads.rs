use vstd::prelude::*;

use crate::factory_game::payloads::MU_ONE;

verus! {

/// How many tiles a payload crosses per second.
pub const PAYLOAD_SPEED: u32 = 5;

/// A payload crossing a conveyor `mu` thousandths of the way, moved on by
/// `dt` milliseconds: it waits halfway until it knows where to go, and at
/// the end of the tile it asks to be handed on. Returns the new progress
/// and whether to ask.
pub fn update_payload_mu(mu: u32, dt: u32, has_destination: bool) -> (r: (u32, bool))
    requires
        mu <= MU_ONE,
    ensures
        ({
            let moved = mu + dt * PAYLOAD_SPEED;
            if moved > MU_ONE / 2 && !has_destination {
                r == ((MU_ONE / 2) as u32, false)
            } else if moved > MU_ONE {
                r == (MU_ONE, has_destination)
            } else {
                r == (moved as u32, false)
            }
        }),
{
    assert(dt * PAYLOAD_SPEED <= 5 * u32::MAX) by (nonlinear_arith)
        requires
            PAYLOAD_SPEED == 5,
    ;
    let moved: u64 = mu as u64 + dt as u64 * PAYLOAD_SPEED as u64;
    if moved > (MU_ONE / 2) as u64 && !has_destination {
        (MU_ONE / 2, false)
    } else if moved > MU_ONE as u64 {
        (MU_ONE, has_destination)
    } else {
        (moved as u32, false)
    }
}

} // verus!

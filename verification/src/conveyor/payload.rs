use vstd::prelude::*;

use crate::factory_game::helpers::ConveyorDirection;
use crate::factory_game::payloads::MU_ONE;

verus! {

/// A payload on its way from its carrier to the neighbour in direction
/// `direction`, `mu` thousandths of the way there.
#[derive(PartialEq, Eq, Structural, Clone, Copy, Debug)]
pub struct PayloadTransport {
    pub mu: u32,
    pub direction: ConveyorDirection,
}

/// What became of a payload on its way.
#[derive(PartialEq, Eq, Structural, Clone, Copy, Debug)]
pub enum TransportStep {
    /// Still on its way.
    Moving,
    /// It has reached the neighbour, which now carries it.
    Arrived,
    /// The neighbour has gone and the payload is back at its carrier, no
    /// longer on its way.
    Returned,
}

impl PayloadTransport {
    /// A payload just setting off in direction `direction`.
    pub fn new(direction: ConveyorDirection) -> (r: Self)
        ensures
            r == (PayloadTransport { mu: 0, direction }),
    {
        PayloadTransport { mu: 0, direction }
    }

    /// Moves the payload `mu_speed` thousandths on: forwards while the
    /// neighbour is there, arriving once past the whole way; backwards when
    /// it has gone, returning once past the start.
    pub fn step(&mut self, mu_speed: u32, has_destination: bool) -> (r: TransportStep)
        requires
            old(self).mu <= MU_ONE,
        ensures
            final(self).mu <= MU_ONE,
            final(self).direction == old(self).direction,
            has_destination ==> if old(self).mu + mu_speed > MU_ONE {
                r == TransportStep::Arrived && final(self).mu == 0
            } else {
                r == TransportStep::Moving && final(self).mu == old(self).mu + mu_speed
            },
            !has_destination ==> if mu_speed > old(self).mu {
                r == TransportStep::Returned && final(self).mu == 0
            } else {
                r == TransportStep::Moving && final(self).mu == old(self).mu - mu_speed
            },
    {
        if has_destination {
            let mu = self.mu as u64 + mu_speed as u64;
            if mu > MU_ONE as u64 {
                self.mu = 0;
                TransportStep::Arrived
            } else {
                self.mu = mu as u32;
                TransportStep::Moving
            }
        } else if mu_speed > self.mu {
            self.mu = 0;
            TransportStep::Returned
        } else {
            self.mu = self.mu - mu_speed;
            TransportStep::Moving
        }
    }
}

} // verus!

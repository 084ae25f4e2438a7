use vstd::prelude::*;

use crate::factory_game::conveyor::Conveyor;
use crate::factory_game::helpers::{is_single, opposite_of, ConveyorDirection};

verus! {

/// Conveyors that take payloads one at a time.
#[derive(Clone, Copy, Debug, Default)]
pub struct SimpleConveyorTransferPolicy;

/// The most payloads such a conveyor holds at once.
pub const MAX_PAYLOADS: usize = 1;

/// A payload crossing a conveyor: the side it came in from, the side it
/// leaves by, if any, and how far it has gone (out of a thousand).
#[derive(PartialEq, Eq, Structural, Clone, Copy, Debug)]
pub struct PayloadTransport {
    pub source: Option<ConveyorDirection>,
    pub destination: Option<ConveyorDirection>,
    pub mu: u32,
}

/// The conveyor's output, if it has one.
pub open spec fn single_or_none(c: Conveyor) -> Option<ConveyorDirection> {
    if c@.outputs == Set::<ConveyorDirection>::empty() {
        None
    } else {
        Some(choose|d: ConveyorDirection| c@.outputs == Set::empty().insert(d))
    }
}

/// A conveyor offered a payload sent in direction `direction` takes it if it
/// takes payloads from some side and holds fewer than [`MAX_PAYLOADS`]; the
/// payload then starts crossing it from the side it came in by towards the
/// conveyor's output.
pub fn transfer_payloads_standard(conveyor: &Conveyor, payload_count: usize, direction: ConveyorDirection) -> (r:
    Option<PayloadTransport>)
    requires
        conveyor@.outputs == Set::<ConveyorDirection>::empty() || is_single(conveyor@.outputs),
    ensures
        r == if conveyor@.inputs == Set::<ConveyorDirection>::empty() || payload_count >= MAX_PAYLOADS {
            None
        } else {
            Some(PayloadTransport { source: Some(opposite_of(direction)), destination: single_or_none(*conveyor), mu: 0 })
        },
{
    if conveyor.inputs().is_none() {
        return None;
    }
    if payload_count < MAX_PAYLOADS {
        let destination = conveyor.single_or_no_output();
        proof {
            if let Some(d) = destination {
                crate::factory_game::helpers::lemma_single_choice(conveyor@.outputs, d);
                assert(conveyor@.outputs.contains(d));
            }
        }
        Some(PayloadTransport { source: Some(direction.opposite()), destination, mu: 0 })
    } else {
        None
    }
}

} // verus!

use vstd::prelude::*;

use crate::factory_game::conveyor::Conveyor;
use crate::factory_game::payloads::RequestPayloadTransferEvent;

verus! {

/// A machine that holds payloads: it may take payloads offered by its
/// neighbours, and gives up the payloads a neighbour took from it.
pub trait PayloadHandler: Sized {
    /// The handler's own invariant.
    spec fn handler_wf(&self) -> bool;

    /// Whether the handler can work with `conveyor` as its own conveyor.
    spec fn handles(&self, conveyor: Conveyor) -> bool;

    /// Whether payloads can be taken from the handler.
    spec fn releases(&self) -> bool;

    /// What offering `request` does to the handler, working with `conveyor`:
    /// `after` is the handler afterwards and `r` the payload it took.
    spec fn took(&self, after: Self, conveyor: Conveyor, request: RequestPayloadTransferEvent, r: Option<u64>) -> bool;

    /// What giving up `payload` does to the handler: `after` is the handler
    /// afterwards.
    spec fn gave_up(&self, after: Self, payload: u64) -> bool;

    /// Whether the handler can work with `conveyor` as its own conveyor.
    fn handles_conveyor(&self, conveyor: &Conveyor) -> (r: bool)
        ensures
            r == self.handles(*conveyor),
    ;

    /// Whether payloads can be taken from the handler.
    fn releases_payloads(&self) -> (r: bool)
        ensures
            r == self.releases(),
    ;

    /// Offers the handler the payload of `request`; returns it if taken.
    fn try_transfer(&mut self, self_conveyor: &Conveyor, request: &RequestPayloadTransferEvent) -> (r:
        Option<u64>)
        requires
            old(self).handler_wf(),
            old(self).handles(*self_conveyor),
        ensures
            final(self).handler_wf(),
            r is Some ==> r == Some(request.payload),
            old(self).took(*final(self), *self_conveyor, *request, r),
    ;

    /// Gives up `payload`, which a neighbour took.
    fn remove_payload(&mut self, payload: u64)
        requires
            old(self).handler_wf(),
            old(self).releases(),
        ensures
            final(self).handler_wf(),
            old(self).gave_up(*final(self), payload),
    ;

    /// The payloads the handler holds.
    fn iter_payloads(&self) -> (r: Vec<u64>)
        requires
            self.handler_wf(),
    ;
}

/// Hands a payload on between neighbours: the payload of `request` is offered
/// to `destination`, which works with `destination_conveyor`, and `source`
/// gives it up exactly when `destination` takes it. Returns the payload
/// taken.
pub fn hand_over<D: PayloadHandler, S: PayloadHandler>(
    destination: &mut D,
    destination_conveyor: &Conveyor,
    source: &mut S,
    request: &RequestPayloadTransferEvent,
) -> (r: Option<u64>)
    requires
        old(destination).handler_wf(),
        old(destination).handles(*destination_conveyor),
        old(source).handler_wf(),
        old(source).releases(),
    ensures
        final(destination).handler_wf(),
        final(source).handler_wf(),
        old(destination).took(*final(destination), *destination_conveyor, *request, r),
        r is Some ==> r == Some(request.payload) && old(source).gave_up(*final(source), request.payload),
        r is None ==> *final(source) == *old(source),
{
    let taken = destination.try_transfer(destination_conveyor, request);
    match taken {
        Some(payload) => {
            source.remove_payload(payload);
        },
        None => {},
    }
    taken
}

} // verus!

use dafm::factory_game::helpers::ConveyorDirection;
use dafm::factory_game::helpers::ConveyorDirection::{East, West};
use dafm::factory_game::payloads::{PayloadTransportLine, TransportedPayload, MU_ONE};

// Progress is counted in thousandths of a tile: 100 is a tenth of the way.

fn tp(entity: u64, from: ConveyorDirection, mu: u32) -> TransportedPayload {
    TransportedPayload { entity, from, mu }
}

#[test]
fn empty() {
    let ptl = PayloadTransportLine::new(East, 2);
    assert!(ptl.payloads().is_empty());
}

#[test]
fn transfer_to_empty() {
    let mut ptl = PayloadTransportLine::new(East, 2);
    let e = 1;
    ptl.try_transfer_onto(West, || e);
    assert_eq!(ptl.payloads().as_slice(), &[tp(e, West, 0)]);
}

#[test]
fn transfer_doesnt_happen_when_no_room() {
    let mut ptl = PayloadTransportLine::new(East, 2);
    let e1 = 1;
    ptl.try_transfer_onto(West, || e1);
    let e2 = 2;
    ptl.try_transfer_onto(West, || e2);

    assert_eq!(ptl.payloads().as_slice(), &[tp(e1, West, 0)]);
}

#[test]
fn updates() {
    let mut ptl = PayloadTransportLine::new(ConveyorDirection::East, 2);
    let e: Vec<u64> = (1..4).collect();

    ptl.try_transfer_onto(West, || e[0]);
    ptl.try_transfer_onto(West, || e[1]);
    ptl.try_transfer_onto(West, || e[2]);
    ptl.update_payloads(100);
    assert_eq!(ptl.payloads().as_slice(), &[tp(e[0], West, 100)]);

    ptl.try_transfer_onto(West, || e[1]);
    ptl.try_transfer_onto(West, || e[2]);
    ptl.update_payloads(100);
    assert_eq!(ptl.payloads().as_slice(), &[tp(e[0], West, 200)]);

    ptl.try_transfer_onto(West, || e[1]);
    ptl.try_transfer_onto(West, || e[2]);
    ptl.update_payloads(300);
    assert_eq!(ptl.payloads().as_slice(), &[tp(e[0], West, 500)]);

    ptl.try_transfer_onto(West, || e[1]);
    ptl.try_transfer_onto(West, || e[2]);
    assert_eq!(
        ptl.payloads().as_slice(),
        &[tp(e[0], West, 500), tp(e[1], West, 0)]
    );

    ptl.update_payloads(500);
    assert_eq!(
        ptl.payloads().as_slice(),
        &[tp(e[0], West, MU_ONE), tp(e[1], West, 500)]
    );

    ptl.try_transfer_onto(West, || e[2]);
    assert_eq!(
        ptl.payloads().as_slice(),
        &[tp(e[0], West, MU_ONE), tp(e[1], West, 500), tp(e[2], West, 0)]
    );

    ptl.update_payloads(500);
    assert_eq!(
        ptl.payloads().as_slice(),
        &[tp(e[0], West, MU_ONE), tp(e[1], West, 500), tp(e[2], West, 0)]
    );

    // Payloads bunch up - so if we remove one in the middle then the last
    // one will slide up as close as it is allowed to
    ptl.remove_payload(e[1]);
    ptl.update_payloads(500);
    ptl.update_payloads(500);
    ptl.update_payloads(500);
    assert_eq!(
        ptl.payloads().as_slice(),
        &[tp(e[0], West, MU_ONE), tp(e[2], West, 500)]
    );
}

#[test]
fn updates_with_different_spacing() {
    let mut ptl = PayloadTransportLine::new(ConveyorDirection::East, 5);
    let e: Vec<u64> = (1..4).collect();

    ptl.try_transfer_onto(West, || e[0]);
    ptl.try_transfer_onto(West, || e[1]);
    ptl.try_transfer_onto(West, || e[2]);
    ptl.update_payloads(100);
    assert_eq!(ptl.payloads().as_slice(), &[tp(e[0], West, 100)]);

    ptl.try_transfer_onto(West, || e[1]);
    ptl.try_transfer_onto(West, || e[2]);
    ptl.update_payloads(100);
    assert_eq!(ptl.payloads().as_slice(), &[tp(e[0], West, 200)]);

    ptl.try_transfer_onto(West, || e[1]);
    ptl.try_transfer_onto(West, || e[2]);
    ptl.update_payloads(300);
    assert_eq!(
        ptl.payloads().as_slice(),
        &[tp(e[0], West, 500), tp(e[1], West, 300)]
    );

    ptl.update_payloads(500);
    assert_eq!(
        ptl.payloads().as_slice(),
        &[tp(e[0], West, MU_ONE), tp(e[1], West, 800)]
    );

    ptl.try_transfer_onto(West, || e[2]);
    assert_eq!(
        ptl.payloads().as_slice(),
        &[tp(e[0], West, MU_ONE), tp(e[1], West, 800), tp(e[2], West, 0)]
    );

    ptl.update_payloads(500);
    assert_eq!(
        ptl.payloads().as_slice(),
        &[tp(e[0], West, MU_ONE), tp(e[1], West, 800), tp(e[2], West, 500)]
    );

    // Payloads bunch up - so if we remove one in the middle then the last
    // one will slide up as close as it is allowed to
    ptl.remove_payload(e[1]);
    ptl.update_payloads(500);
    ptl.update_payloads(500);
    ptl.update_payloads(500);
    assert_eq!(
        ptl.payloads().as_slice(),
        &[tp(e[0], West, MU_ONE), tp(e[2], West, 800)]
    );
}

#[test]
fn a_third_of_the_tile_is_kept_exactly() {
    // Payloads on a line of capacity 3 keep a third of the tile apart: 333
    // thousandths is not yet a third, 334 is past it.
    let mut ptl = PayloadTransportLine::new(East, 3);
    assert_eq!(ptl.try_transfer_onto(West, || 1), Some(1));
    ptl.update_payloads(333);
    assert!(!ptl.has_room_for_one_more_with_mu(0));
    assert_eq!(ptl.try_transfer_onto(West, || 2), None);
    ptl.update_payloads(1);
    assert!(ptl.has_room_for_one_more_with_mu(0));
    assert_eq!(ptl.try_transfer_onto(West, || 2), Some(2));
    // The second payload stops a whole third behind the first.
    ptl.update_payloads(1000);
    assert_eq!(ptl.payloads().as_slice(), &[tp(1, West, MU_ONE), tp(2, West, 666)]);
}

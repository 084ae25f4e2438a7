use dafm::factory_game::bridge::PlaceBridgeEvent;
use dafm::factory_game::conveyor::Conveyor;
use dafm::factory_game::conveyor_belts::{update_conveyor_inputs, ConveyorBeltBundle};
use dafm::factory_game::distributor::PlaceDistributorEvent;
use dafm::factory_game::generator::{Generator, PlaceGeneratorEvent};
use dafm::factory_game::helpers::ConveyorDirection::{East, North, South, West};
use dafm::factory_game::helpers::{ConveyorDirection, ConveyorDirections};
use dafm::factory_game::operators::{Operand, Operator, PlaceOperatorEvent};
use dafm::factory_game::payload_handler::{hand_over, PayloadHandler};
use dafm::factory_game::payloads::{PayloadTransportLine, RequestPayloadTransferEvent};
use dafm::factory_game::sink::PlaceSinkEvent;
use dafm::tiles::{Neighbors, TilePos};

const ORIGIN: TilePos = TilePos { x: 0, y: 0 };

fn no_neighbors() -> Neighbors<Conveyor> {
    Neighbors {
        north: None,
        east: None,
        south: None,
        west: None,
        north_east: None,
        north_west: None,
        south_west: None,
        south_east: None,
    }
}

/// The conveyor of an empty belt sending payloads in direction `out`.
fn belt(out: ConveyorDirection) -> Conveyor {
    let bundle = ConveyorBeltBundle::new(out);
    let mut conveyor = bundle.conveyor;
    update_conveyor_inputs(&mut conveyor, &bundle.accepts_payload, 0);
    conveyor
}

fn request(payload: u64, direction: ConveyorDirection) -> RequestPayloadTransferEvent {
    RequestPayloadTransferEvent { payload, source: 100, destination: 200, direction }
}

#[test]
fn generator_generates_payload() {
    let (mut generator, mut conveyor) = PlaceGeneratorEvent(ORIGIN).configure_new_entity();
    let mut n = no_neighbors();
    n.east = Some(belt(East));

    let (changed, dropped) = generator.update_outputs(&mut conveyor, &n);
    assert!(changed);
    assert!(dropped.is_empty());
    assert_eq!(conveyor.outputs().iter(), vec![East]);

    // Not yet due at time 0; due once past it.
    assert_eq!(generator.generate(0, &conveyor, &n, || 7), None);
    assert_eq!(generator.generate(5000, &conveyor, &n, || 7), Some(7));
    assert_eq!(generator.iter_payloads(), vec![7]);
    assert_eq!(generator.iter_payloads().len(), 1);
    assert_eq!(Generator::generated_operand(), Operand(1));
    // The next one is due a second later.
    assert_eq!(generator.generate(5500, &conveyor, &n, || 8), None);
}

#[test]
fn generator_transfers_payload_to_conveyor() {
    let (mut generator, mut conveyor) = PlaceGeneratorEvent(ORIGIN).configure_new_entity();
    let mut n = no_neighbors();
    n.east = Some(belt(East));
    generator.update_outputs(&mut conveyor, &n);
    assert_eq!(generator.generate(1000, &conveyor, &n, || 7), Some(7));

    // Halfway along its lane, the payload reaches the edge in half a second.
    assert_eq!(generator.tick(400), None);
    assert_eq!(generator.tick(100), Some((East, 7)));

    let mut line = PayloadTransportLine::new(East, 2);
    assert_eq!(line.try_transfer_request(&request(7, East)), Some(7));
    generator.remove_payload(7);
    assert!(generator.iter_payloads().is_empty());
    assert_eq!(line.count(), 1);
    assert_eq!(line.payloads()[0].from, West);
}

#[test]
fn generator_doesnt_transfer_payload_to_conveyor_pointing_at_it() {
    let (mut generator, mut conveyor) = PlaceGeneratorEvent(ORIGIN).configure_new_entity();
    let mut n = no_neighbors();
    n.east = Some(belt(West));
    generator.update_outputs(&mut conveyor, &n);
    assert!(conveyor.outputs().is_none());
    assert_eq!(generator.generate(5000, &conveyor, &n, || 7), None);
    assert!(generator.iter_payloads().is_empty());
    // Nothing reaches the belt.
    assert_eq!(generator.tick(1000), None);
    let line = PayloadTransportLine::new(West, 2);
    assert_eq!(line.count(), 0);
}

#[test]
fn generator_transfers_payload_to_bridge() {
    // A generator west of a bridge.
    let (mut bridge, mut bridge_conveyor) = PlaceBridgeEvent(TilePos { x: 2, y: 1 }).configure_new_entity();
    let (mut generator, mut generator_conveyor) = PlaceGeneratorEvent(TilePos { x: 1, y: 1 }).configure_new_entity();

    // The new generator sends to every side, so the bridge takes payloads
    // from the west and sends them east on its top lane.
    let mut around_bridge = no_neighbors();
    around_bridge.west = Some(generator_conveyor);
    bridge.update_bridge_conveyor(&mut bridge_conveyor, &around_bridge);
    assert_eq!(bridge.current_top_output(), Some(East));
    assert_eq!(bridge.current_bottom_output(), None);
    assert!(!bridge_conveyor.outputs().is_set(West));

    // The bridge does not send payloads back west, so the generator sends
    // east.
    let mut around_generator = no_neighbors();
    around_generator.east = Some(bridge_conveyor);
    generator.update_outputs(&mut generator_conveyor, &around_generator);
    assert_eq!(generator_conveyor.outputs().iter(), vec![East]);

    assert_eq!(generator.generate(1000, &generator_conveyor, &around_generator, || 3), Some(3));
    assert_eq!(generator.tick(1000), Some((East, 3)));
    assert_eq!(bridge.try_transfer(&bridge_conveyor, &request(3, East)), Some(3));
    generator.remove_payload(3);
    assert_eq!(bridge.iter_payloads(), vec![3]);
    assert_eq!(bridge.iter_payloads().len(), 1);
}

#[test]
fn distributor_sends_payloads_on() {
    // Input from the west; outputs north, east and south.
    let (mut distributor, conveyor) = PlaceDistributorEvent(ORIGIN, East).configure_new_entity();
    assert!(conveyor.inputs().same_as(&ConveyorDirections::new(West)));
    assert_eq!(distributor.try_transfer(&conveyor, &request(9, East)), Some(9));
    assert_eq!(distributor.count(), 1);

    let mut n = no_neighbors();
    n.south = Some(belt(South));
    // The payload crosses the input lane, then goes to the only output whose
    // neighbour takes payloads.
    assert_eq!(distributor.tick(&conveyor, &n, 1000), None);
    assert_eq!(distributor.iter_output_payloads(), vec![9]);
    assert_eq!(distributor.tick(&conveyor, &n, 1000), Some((South, 9)));
    distributor.remove_payload(9);
    assert_eq!(distributor.count(), 0);
}

#[test]
fn distributor_refuses_past_capacity() {
    let (mut distributor, conveyor) = PlaceDistributorEvent(ORIGIN, East).configure_new_entity();
    assert_eq!(distributor.try_transfer(&conveyor, &request(1, East)), Some(1));
    // The input lane has no room until the first payload moves on.
    assert_eq!(distributor.try_transfer(&conveyor, &request(2, East)), None);
    assert_eq!(distributor.count(), 1);
}

#[test]
fn sink_swallows_payloads() {
    let (mut sink, conveyor) = PlaceSinkEvent(ORIGIN).configure_new_entity();
    assert_eq!(sink.try_transfer(&conveyor, &request(4, East)), Some(4));
    assert_eq!(sink.iter_payloads(), vec![4]);
    assert!(sink.update(600).is_empty());
    assert_eq!(sink.update(400), vec![4]);
    assert!(sink.iter_payloads().is_empty());
}

#[test]
fn operator_combines_left_and_right() {
    let (mut op, conveyor) = PlaceOperatorEvent(ORIGIN, Operator::Plus, East).configure_new_entity();
    // Sending east, its left is north and its right is south.
    assert_eq!(op.try_transfer(&conveyor, &request(10, South)), Some(10));
    assert_eq!(op.try_transfer(&conveyor, &request(11, South)), None);
    assert_eq!(op.try_transfer(&conveyor, &request(12, West)), None);
    assert_eq!(op.try_transfer(&conveyor, &request(13, North)), Some(13));

    let used = op.generate_new_payload(Operand(2), Operand(3), |operand| {
        assert_eq!(operand, Operand(5));
        20
    });
    assert_eq!(used, Some((10, 13)));
    assert_eq!(op.iter_payloads(), vec![20]);
    assert_eq!(op.update(500), Some(20));
}

#[test]
fn operators_compute() {
    assert_eq!(Operator::Plus.generate_operand(&Operand(2), &Operand(3)), Operand(5));
    assert_eq!(Operator::Multiply.generate_operand(&Operand(2), &Operand(3)), Operand(6));
    assert_eq!(Operator::Plus.generate_operand(&Operand(u32::MAX), &Operand(1)), Operand(1));
    assert_eq!(Operator::Multiply.generate_operand(&Operand(1 << 16), &Operand(1 << 16)), Operand(1));
    assert_eq!(
        Operator::Multiply.generate_operand(&Operand(7), &Operand(9)),
        Operator::Multiply.generate_operand(&Operand(9), &Operand(7))
    );
}

#[test]
fn belt_inputs_follow_its_load() {
    let bundle = ConveyorBeltBundle::new(North);
    let mut c = bundle.conveyor;
    update_conveyor_inputs(&mut c, &bundle.accepts_payload, 0);
    assert_eq!(c.inputs().iter(), vec![East, South, West]);
    update_conveyor_inputs(&mut c, &bundle.accepts_payload, 1);
    assert!(c.inputs().is_none());
}

#[test]
fn hand_over_moves_a_payload_only_when_taken() {
    let (mut generator, mut conveyor) = PlaceGeneratorEvent(ORIGIN).configure_new_entity();
    let mut n = no_neighbors();
    n.east = Some(belt(East));
    generator.update_outputs(&mut conveyor, &n);
    assert_eq!(generator.generate(1000, &conveyor, &n, || 7), Some(7));
    assert_eq!(generator.tick(500), Some((East, 7)));

    // A full belt refuses the payload, and the generator keeps it.
    let belt_conveyor = belt(East);
    let mut full = PayloadTransportLine::new(East, 1);
    assert_eq!(full.try_transfer_request(&request(3, East)), Some(3));
    assert_eq!(hand_over(&mut full, &belt_conveyor, &mut generator, &request(7, East)), None);
    assert_eq!(generator.iter_payloads(), vec![7]);
    assert_eq!(full.iter_payloads(), vec![3]);

    // An empty belt takes it, and it leaves the generator.
    let mut empty = PayloadTransportLine::new(East, 2);
    assert_eq!(hand_over(&mut empty, &belt_conveyor, &mut generator, &request(7, East)), Some(7));
    assert!(generator.iter_payloads().is_empty());
    assert_eq!(empty.iter_payloads(), vec![7]);
}

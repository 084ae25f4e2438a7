use dafm::conveyor::generator::Generator as PrototypeGenerator;
use dafm::conveyor::payload::{PayloadTransport, TransportStep};
use dafm::conveyor::Conveyor as SingleConveyor;
use dafm::factory_game::conveyor::update_tiles_to_check;
use dafm::factory_game::helpers::ConveyorDirection::{East, North, South, West};
use dafm::game::bullets::StandardGun;
use dafm::game::enemy::Waves as FirstWaves;
use dafm::game::player::Cooldown;
use dafm::space_shooter::enemy::{DestroyedEnemy, Waves};
use dafm::sprite_sheet::GameSprite;
use dafm::tiles::{Neighbors, TilePos, TilemapSize};
use dafm::factory_game::conveyor::transfers::{transfer_payloads_standard, PayloadTransport as CrossingPayload};
use dafm::factory_game::conveyor_belts::{update_conveyor_inputs, ConveyorBeltBundle};
use dafm::factory_game::conveyor::payloads::update_payload_mu;
use dafm::terrain::mapgen_viz::{keep_building, plan_steps, MapGenControlEvent, StepPlan};

fn no_neighbors<T>() -> Neighbors<T> {
    Neighbors {
        north: None,
        east: None,
        south: None,
        west: None,
        north_east: None,
        north_west: None,
        south_west: None,
        south_east: None,
    }
}

#[test]
fn tiles_to_check_cover_changes_and_neighbours() {
    let size = TilemapSize { x: 4, y: 4 };
    let r = update_tiles_to_check(&[TilePos { x: 0, y: 0 }], &[TilePos { x: 0, y: 0 }, TilePos { x: 2, y: 0 }], &size);
    let mut got = r.0.clone();
    got.sort_by_key(|p| (p.y, p.x));
    assert_eq!(
        got,
        vec![
            TilePos { x: 0, y: 0 },
            TilePos { x: 1, y: 0 },
            TilePos { x: 2, y: 0 },
            TilePos { x: 3, y: 0 },
            TilePos { x: 0, y: 1 },
            TilePos { x: 2, y: 1 },
        ]
    );
    assert!(update_tiles_to_check(&[], &[], &size).0.is_empty());
}

#[test]
fn prototype_generator_takes_turns() {
    let mut g = PrototypeGenerator::default();
    let mut n = no_neighbors();
    n.east = Some(SingleConveyor(East));
    n.west = Some(SingleConveyor(West));
    assert_eq!(g.pick_transport_direction(&n), Some(East));
    assert_eq!(g.next_transport_direction_index, 2);
    assert_eq!(g.pick_transport_direction(&n), Some(West));
    assert_eq!(g.next_transport_direction_index, 0);
    assert_eq!(g.pick_transport_direction(&n), Some(East));
    assert_eq!(g.pick_transport_direction(&no_neighbors()), None);
    assert_eq!(g.next_transport_direction_index, 2);
}

#[test]
fn prototype_generator_waits_for_its_payload_to_leave() {
    let mut g = PrototypeGenerator::default();
    assert!(!g.generate(0, false));
    assert!(g.generate(10, false));
    assert_eq!(g.next_generate_time, 5010);
    assert!(!g.generate(6000, true));
    assert!(g.generate(6000, false));
}

#[test]
fn prototype_payloads_travel() {
    let mut t = PayloadTransport::new(North);
    assert_eq!(t.step(600, true), TransportStep::Moving);
    assert_eq!(t.mu, 600);
    assert_eq!(t.step(400, true), TransportStep::Moving);
    assert_eq!(t.step(1, true), TransportStep::Arrived);
    assert_eq!(t.mu, 0);
    let mut back = PayloadTransport { mu: 300, direction: South };
    assert_eq!(back.step(300, false), TransportStep::Moving);
    assert_eq!(back.mu, 0);
    assert_eq!(back.step(1, false), TransportStep::Returned);
}

#[test]
fn destroyed_enemies_spin_then_go() {
    let mut e = DestroyedEnemy::new();
    for _ in 0..299 {
        assert!(!e.update());
    }
    assert!(e.update());
    assert_eq!(e.0, 0);
}

#[test]
fn waves_grow() {
    let mut w = Waves::start(0);
    assert_eq!(w.next, 1000);
    assert_eq!(w.update(500, false), 0);
    assert_eq!(w.update(1000, true), 0);
    assert_eq!(w.update(1000, false), 1);
    assert_eq!(w.update(2000, false), 0);
    assert_eq!(w.update(6000, false), 2);
    assert_eq!(w.wave_number, 3);
    assert_eq!(w.next, 11000);
}

#[test]
fn first_waves_bring_one_enemy_each_half_minute() {
    let mut w = FirstWaves::start(0);
    assert!(!w.update(999));
    assert!(w.update(1000));
    assert!(!w.update(30999));
    assert!(w.update(31000));
}

#[test]
fn guns_cool_down() {
    let mut gun = StandardGun::default();
    assert!(gun.update(true));
    let fired: Vec<bool> = (0..6).map(|_| gun.update(true)).collect();
    assert_eq!(fired, vec![false, false, false, false, true, false]);
    let mut c = Cooldown(0);
    assert!(!c.update(false));
    assert!(c.update(true));
    assert_eq!(c.0, 5);
}

#[test]
fn thrust_frames_alternate() {
    assert_eq!(GameSprite::player_thrust(0), GameSprite::PlayerThrust0);
    assert_eq!(GameSprite::player_thrust(7), GameSprite::PlayerThrust1);
    assert_eq!(GameSprite::Generator.tile_texture_index(), 30);
    assert_eq!(GameSprite::ConveyorInWOutE.index(), 11);
}

#[test]
fn simple_conveyors_take_one_payload() {
    let bundle = ConveyorBeltBundle::new(North);
    let mut c = bundle.conveyor;
    // No inputs yet: nothing is taken.
    assert_eq!(transfer_payloads_standard(&c, 0, North), None);
    update_conveyor_inputs(&mut c, &bundle.accepts_payload, 0);
    assert_eq!(
        transfer_payloads_standard(&c, 0, East),
        Some(CrossingPayload { source: Some(West), destination: Some(North), mu: 0 })
    );
    assert_eq!(transfer_payloads_standard(&c, 1, East), None);
}

#[test]
fn payloads_wait_halfway_for_a_destination() {
    assert_eq!(update_payload_mu(0, 50, false), (250, false));
    assert_eq!(update_payload_mu(400, 50, false), (500, false));
    assert_eq!(update_payload_mu(400, 50, true), (650, false));
    assert_eq!(update_payload_mu(900, 50, true), (1000, true));
    assert_eq!(update_payload_mu(900, 50, false), (500, false));
}

#[test]
fn map_generator_controls() {
    let mut auto = false;
    assert_eq!(plan_steps(&[], &mut auto), StepPlan { step: false, build: false, reset: false });
    assert_eq!(plan_steps(&[MapGenControlEvent::Step], &mut auto), StepPlan { step: true, build: false, reset: false });
    assert_eq!(plan_steps(&[MapGenControlEvent::Build], &mut auto), StepPlan { step: true, build: true, reset: false });
    assert!(!auto);
    assert_eq!(plan_steps(&[MapGenControlEvent::AutoStep], &mut auto), StepPlan { step: true, build: false, reset: false });
    assert!(auto);
    assert_eq!(plan_steps(&[MapGenControlEvent::Step], &mut auto), StepPlan { step: true, build: false, reset: false });
    assert_eq!(
        plan_steps(&[MapGenControlEvent::Step, MapGenControlEvent::Reset], &mut auto),
        StepPlan { step: false, build: false, reset: true }
    );
    assert!(!auto);
    assert_eq!(plan_steps(&[], &mut auto), StepPlan { step: false, build: false, reset: false });
    assert!(keep_building(true, false));
    assert!(!keep_building(true, true));
    assert!(!keep_building(false, false));
}

use cgmath::{InnerSpace, Point2, Vector2};
use mubah::entity::{Approach, Color, Entity, Hero, Hitbox};
use mubah::game::{
    other_spawn_point, spawn_point, Button, Controller, Game, GameError, PARTICIPANTS,
};
use mubah::geometry::{Pos2, Vec2};
use mubah::net::{Delivery, NetController, PingStatus, Timestamp};
use mubah::packet::{InstructionPacket, Packet, SyncPacket};
use std::sync::mpsc::{channel, Sender};

fn bits(x: f32) -> u32 {
    x.to_bits()
}

fn pos(x: f32, y: f32) -> Pos2 {
    Pos2::new(bits(x), bits(y))
}

fn colors() -> [Color; 2] {
    [
        Color { r: bits(0.1), g: bits(0.2), b: bits(0.3), a: bits(1.0) },
        Color { r: bits(0.9), g: bits(0.8), b: bits(0.7), a: bits(1.0) },
    ]
}

fn game(id: usize) -> (Game, Sender<Packet>) {
    let (tx, rx) = channel();
    (Game::new(NetController::new(id, rx), colors()), tx)
}

fn noon() -> Timestamp {
    Timestamp { sec: 1_700_000_000, nsec: 500_000_000 }
}

/// A game whose first heartbeat has gone out.
fn settled(id: usize) -> (Game, Sender<Packet>) {
    let (mut g, tx) = game(id);
    assert_eq!(g.tick(Delivery::Empty, noon()), Ok(()));
    g.net_controller.take_output();
    (g, tx)
}

fn sent(g: &mut Game) -> Vec<Packet> {
    g.net_controller
        .take_output()
        .iter()
        .map(|d| Packet::read_packet(d).unwrap())
        .collect()
}

#[test]
fn spawn_points() {
    assert_eq!(spawn_point(), pos(100.0, 100.0));
    assert_eq!(other_spawn_point(), pos(200.0, 300.0));
    assert_eq!(PARTICIPANTS, 2);
}

#[test]
fn new_game_has_two_heroes_at_their_spawn_points() {
    let (g, _tx) = game(1);
    assert_eq!(g.heroes, vec![
        Hero::new(pos(100.0, 100.0), colors()[0]),
        Hero::new(pos(200.0, 300.0), colors()[1]),
    ]);
    assert_eq!(g.controller, Controller::new(1));
    assert_eq!(g.cursor, pos(0.0, 0.0));
    assert!(!g.debug);
}

#[test]
fn controller_refresh_forgets_a_sent_instruction() {
    let mut c = Controller::new(1);
    assert_eq!(c.hero_id, 1);
    assert!(!c.dirty);
    assert_eq!(c.instruction_packet, InstructionPacket::new(1));
    c.instruction_packet.move_to = Some(pos(1.0, 2.0));
    c.refresh();
    assert_eq!(c.instruction_packet.move_to, Some(pos(1.0, 2.0)));
    c.dirty = true;
    c.refresh();
    assert_eq!(c, Controller::new(1));
}

#[test]
fn press_stages_an_instruction_for_the_cursor() {
    let (mut g, _tx) = game(0);
    g.update_cursor(bits(150.0), bits(150.0));
    assert_eq!(g.cursor, pos(150.0, 150.0));
    g.input_press(Button::Other);
    assert!(g.controller.dirty);
    assert_eq!(
        g.controller.instruction_packet,
        InstructionPacket { hero_id: 0, move_to: Some(pos(150.0, 150.0)) }
    );
    assert!(!g.debug);
    assert_eq!(g.heroes[0].target_pos, None);
}

#[test]
fn debug_key_turns_debugging_on_and_stages_too() {
    let (mut g, _tx) = game(1);
    g.update_cursor(bits(5.0), bits(6.0));
    g.input_press(Button::KeyD);
    assert!(g.debug);
    assert!(g.controller.dirty);
    assert_eq!(g.controller.instruction_packet.move_to, Some(pos(5.0, 6.0)));
    g.input_press(Button::Other);
    assert!(g.debug);
}

#[test]
fn first_tick_sends_a_heartbeat_of_the_controlled_hero() {
    let (mut g, _tx) = game(1);
    assert_eq!(g.tick(Delivery::Empty, noon()), Ok(()));
    assert_eq!(sent(&mut g), vec![Packet::SyncPacket(SyncPacket::new(1, g.heroes[1]))]);
    assert_eq!(g.net_controller.frames_since_last_sync, 0);
}

#[test]
fn heartbeat_comes_every_120_ticks() {
    let (mut g, _tx) = settled(0);
    for _ in 1..=119 {
        assert_eq!(g.tick(Delivery::Empty, noon()), Ok(()));
        assert!(g.net_controller.output_stream.is_empty());
    }
    assert_eq!(g.tick(Delivery::Empty, noon()), Ok(()));
    assert_eq!(sent(&mut g), vec![Packet::SyncPacket(SyncPacket::new(0, g.heroes[0]))]);
    assert_eq!(g.net_controller.frames_since_last_sync, 0);
}

#[test]
fn local_instruction_is_applied_and_sent() {
    let (mut g, _tx) = settled(0);
    g.update_cursor(bits(150.0), bits(150.0));
    g.input_press(Button::Other);
    assert_eq!(g.tick(Delivery::Empty, noon()), Ok(()));
    let ip = InstructionPacket { hero_id: 0, move_to: Some(pos(150.0, 150.0)) };
    assert_eq!(sent(&mut g), vec![Packet::InstructionPacket(ip)]);
    assert_eq!(g.heroes[0].target_pos, Some(pos(150.0, 150.0)));
    assert_eq!(g.heroes[1].target_pos, None);
    assert_eq!(g.controller, Controller::new(0));

    let from = Point2::new(100.0f32, 100.0);
    let to = Point2::new(150.0f32, 150.0);
    let heading: Vector2<f32> = (to - from).normalize_to(100.0);
    g.heroes[0].update(Approach::Heading(Vec2::new(bits(heading.x), bits(heading.y))));
    let v = Vector2::new(
        f32::from_bits(g.heroes[0].entity.vel.x),
        f32::from_bits(g.heroes[0].entity.vel.y),
    );
    assert!((v.magnitude() - 100.0).abs() < 1e-3);
    assert!((v.normalize() - (to - from).normalize()).magnitude() < 1e-6);
}

#[test]
fn an_instruction_is_sent_once() {
    let (mut g, _tx) = settled(0);
    g.input_press(Button::Other);
    g.tick(Delivery::Empty, noon()).unwrap();
    assert_eq!(sent(&mut g).len(), 1);
    g.tick(Delivery::Empty, noon()).unwrap();
    assert!(sent(&mut g).is_empty());
}

#[test]
fn instruction_from_the_peer_sets_the_goal_of_the_named_hero() {
    let (mut g, _tx) = settled(0);
    let ip = InstructionPacket { hero_id: 1, move_to: Some(pos(7.0, 8.0)) };
    g.tick(Delivery::Message(Packet::InstructionPacket(ip)), noon()).unwrap();
    assert_eq!(g.heroes[1].target_pos, Some(pos(7.0, 8.0)));
    assert_eq!(g.heroes[0].target_pos, None);
    assert!(g.net_controller.packets.is_empty());
    assert!(sent(&mut g).is_empty());
    let clear = InstructionPacket { hero_id: 1, move_to: None };
    g.tick(Delivery::Message(Packet::InstructionPacket(clear)), noon()).unwrap();
    assert_eq!(g.heroes[1].target_pos, None);
}

#[test]
fn sync_replaces_the_hero_and_discards_prediction() {
    let (mut g, _tx) = settled(0);
    g.instruct_hero(InstructionPacket { hero_id: 1, move_to: Some(pos(1.0, 1.0)) });
    g.heroes[1].entity.vel = Vec2::new(bits(3.0), bits(4.0));
    let frame = Hero {
        entity: Entity {
            pos: pos(-5.0, 12.0),
            vel: Vec2::new(bits(0.5), bits(0.0)),
            hitbox: Hitbox::Circle(bits(2.0)),
        },
        color: Color { r: 1, g: 2, b: 3, a: 4 },
        target_pos: Some(pos(40.0, 41.0)),
    };
    let before = g.heroes[0];
    g.tick(Delivery::Message(Packet::SyncPacket(SyncPacket::new(1, frame))), noon()).unwrap();
    assert_eq!(g.heroes[1], frame);
    assert_eq!(g.heroes[0], before);
}

#[test]
fn render_state_is_the_roster() {
    let (mut g, _tx) = game(0);
    assert_eq!(g.render_state(), g.heroes);
    g.heroes[1].target_pos = Some(pos(1.0, 2.0));
    assert_eq!(g.render_state(), g.heroes);
    assert_eq!(g.render_state().len(), 2);
}

#[test]
fn sync_hero_and_instruct_hero_address_the_roster() {
    let (mut g, _tx) = game(0);
    g.instruct_hero(InstructionPacket { hero_id: 0, move_to: Some(pos(2.0, 3.0)) });
    assert_eq!(g.heroes[0].target_pos, Some(pos(2.0, 3.0)));
    let frame = Hero::new(pos(9.0, 9.0), colors()[0]);
    g.sync_hero(SyncPacket::new(0, frame));
    assert_eq!(g.heroes[0], frame);
    assert_eq!(g.heroes[1], Hero::new(pos(200.0, 300.0), colors()[1]));
}

#[test]
fn send_controlled_hero_sync_snapshots_the_own_hero() {
    let (mut g, _tx) = game(1);
    g.net_controller.frames_since_last_sync = 55;
    g.send_controlled_hero_sync();
    assert_eq!(sent(&mut g), vec![Packet::SyncPacket(SyncPacket::new(1, g.heroes[1]))]);
    assert_eq!(g.net_controller.frames_since_last_sync, 0);
}

#[test]
fn ping_from_the_peer_is_handed_to_the_probe() {
    let (mut g, _tx) = settled(0);
    g.tick(Delivery::Message(Packet::Ping), noon()).unwrap();
    assert_eq!(sent(&mut g), vec![Packet::Ping]);
    assert_eq!(g.net_controller.ping_status, PingStatus::Awaiting(noon()));
    let later = Timestamp { sec: noon().sec + 1, nsec: 0 };
    g.tick(Delivery::Message(Packet::Ping), later).unwrap();
    assert_eq!(sent(&mut g), vec![Packet::YourPing(500)]);
    assert_eq!(g.net_controller.ping_status, PingStatus::Ready);
}

#[test]
fn reported_ping_is_recorded() {
    let (mut g, _tx) = settled(0);
    g.tick(Delivery::Message(Packet::Ping), noon()).unwrap();
    g.tick(Delivery::Message(Packet::YourPing(33)), noon()).unwrap();
    assert_eq!(g.net_controller.ping, 33);
    assert_eq!(g.net_controller.ping_status, PingStatus::Ready);
}

#[test]
fn pending_packets_are_applied_newest_first() {
    let (mut g, _tx) = settled(0);
    let older = InstructionPacket { hero_id: 1, move_to: Some(pos(1.0, 1.0)) };
    let newer = InstructionPacket { hero_id: 1, move_to: Some(pos(2.0, 2.0)) };
    g.net_controller.accept(Delivery::Message(Packet::InstructionPacket(older))).unwrap();
    g.tick(Delivery::Message(Packet::InstructionPacket(newer)), noon()).unwrap();
    assert_eq!(g.heroes[1].target_pos, Some(pos(1.0, 1.0)));
    assert!(g.net_controller.packets.is_empty());
}

#[test]
fn packet_for_a_hero_outside_the_roster_stops_the_tick() {
    let (mut g, _tx) = settled(0);
    let heroes = g.heroes.clone();
    for packet in [
        Packet::InstructionPacket(InstructionPacket { hero_id: 2, move_to: None }),
        Packet::SyncPacket(SyncPacket::new(255, heroes[0])),
    ] {
        let id = match packet {
            Packet::InstructionPacket(ip) => ip.hero_id,
            Packet::SyncPacket(sp) => sp.hero_id,
            _ => unreachable!(),
        };
        let count = g.net_controller.frames_since_last_sync;
        assert_eq!(g.tick(Delivery::Message(packet), noon()), Err(GameError::NoSuchHero(id)));
        assert_eq!(g.heroes, heroes);
        assert_eq!(g.net_controller.frames_since_last_sync, count);
        assert!(g.net_controller.packets.is_empty());
    }
}

#[test]
fn ended_pipeline_stops_the_tick_after_the_local_instruction() {
    let (mut g, _tx) = settled(0);
    g.update_cursor(bits(1.0), bits(2.0));
    g.input_press(Button::Other);
    assert_eq!(g.tick(Delivery::Disconnected, noon()), Err(GameError::ChannelDisconnected));
    assert_eq!(g.heroes[0].target_pos, Some(pos(1.0, 2.0)));
    assert_eq!(sent(&mut g).len(), 1);
    assert!(g.controller.dirty);
}

#[test]
fn dispatch_and_drain() {
    let (mut g, _tx) = game(0);
    assert_eq!(g.dispatch(Packet::YourPing(9), noon()), Ok(()));
    assert_eq!(g.net_controller.ping, 9);
    assert_eq!(
        g.dispatch(Packet::InstructionPacket(InstructionPacket::new(5)), noon()),
        Err(GameError::NoSuchHero(5))
    );
    g.net_controller.accept(Delivery::Message(Packet::YourPing(1))).unwrap();
    g.net_controller.accept(Delivery::Message(Packet::YourPing(2))).unwrap();
    assert_eq!(g.drain(noon()), Ok(()));
    assert_eq!(g.net_controller.ping, 1);
    assert!(g.net_controller.packets.is_empty());
    g.net_controller.accept(Delivery::Message(Packet::YourPing(3))).unwrap();
    g.net_controller
        .accept(Delivery::Message(Packet::InstructionPacket(InstructionPacket::new(7))))
        .unwrap();
    assert_eq!(g.drain(noon()), Err(GameError::NoSuchHero(7)));
    assert_eq!(g.net_controller.packets, vec![Packet::YourPing(3)]);
    assert_eq!(g.net_controller.ping, 1);
}

#[test]
fn update_takes_what_the_channel_holds() {
    let (mut g, tx) = settled(0);
    assert_eq!(g.update(), Ok(()));
    let ip = InstructionPacket { hero_id: 1, move_to: Some(pos(3.0, 4.0)) };
    tx.send(Packet::InstructionPacket(ip)).unwrap();
    tx.send(Packet::YourPing(12)).unwrap();
    assert_eq!(g.update(), Ok(()));
    assert_eq!(g.heroes[1].target_pos, Some(pos(3.0, 4.0)));
    assert_eq!(g.net_controller.ping, 0);
    assert_eq!(g.update(), Ok(()));
    assert_eq!(g.net_controller.ping, 12);
    drop(tx);
    assert_eq!(g.update(), Err(GameError::ChannelDisconnected));
}

#[test]
fn update_answers_a_ping_with_the_clock() {
    let (mut g, tx) = settled(1);
    tx.send(Packet::Ping).unwrap();
    assert_eq!(g.update(), Ok(()));
    assert_eq!(sent(&mut g), vec![Packet::Ping]);
    match g.net_controller.ping_status {
        PingStatus::Awaiting(t) => assert!(t.sec > 1_500_000_000),
        PingStatus::Ready => panic!("a probe should be under way"),
    }
}

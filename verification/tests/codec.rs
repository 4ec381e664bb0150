use mubah::entity::{Color, Entity, Hero, Hitbox};
use mubah::geometry::{Pos2, Vec2};
use mubah::packet::{InstructionPacket, Packet, SyncPacket, MAX_DATAGRAM};
use mubah::wire::error::CodecError;
use mubah::wire::frame::{read_frame, write_frame};
use mubah::wire::le::{get_le16, get_le32, put_le16, put_le32, same_bytes};
use mubah::wire::packing::{pack, unpack};

fn bits(x: f32) -> u32 {
    x.to_bits()
}

fn sample_hero(target: Option<Pos2>) -> Hero {
    Hero {
        entity: Entity {
            pos: Pos2::new(bits(149.5), bits(-150.0)),
            vel: Vec2::new(bits(-0.0), bits(70.710_68)),
            hitbox: Hitbox::Circle(bits(12.5)),
        },
        color: Color { r: bits(0.25), g: bits(0.5), b: bits(0.75), a: bits(1.0) },
        target_pos: target,
    }
}

#[test]
fn connect_is_seven_bytes_on_the_wire() {
    assert_eq!(Packet::write_connect(), vec![0x10, 0x01, 0x0f, 0xfc, 0xff, 0xff, 0xff]);
}

#[test]
fn initial_sync_bytes_on_the_wire() {
    assert_eq!(Packet::write_initial_sync(1), vec![0x10, 0x02, 0x10, 0x01, 0x01, 0x01]);
}

#[test]
fn ping_bytes_on_the_wire() {
    assert_eq!(
        Packet::Ping.write_packet(),
        vec![0x10, 0x03, 0x50, 0x01, 0x01, 0x01, 0x02, 0x00, 0x00]
    );
}

#[test]
fn your_ping_bytes_on_the_wire() {
    assert_eq!(
        Packet::YourPing(0x0102_0304).write_packet(),
        vec![0x10, 0x03, 0x50, 0x01, 0x01, 0xf1, 0x03, 0x04, 0x03, 0x02, 0x01, 0x00, 0x00]
    );
}

#[test]
fn instruction_bytes_on_the_wire() {
    let ip = InstructionPacket { hero_id: 0, move_to: Some(Pos2::new(bits(150.0), bits(150.0))) };
    assert_eq!(
        Packet::InstructionPacket(ip).write_packet(),
        vec![
            0x10, 0x06, 0x50, 0x01, 0x01, 0x00, 0x00, 0x50, 0x01, 0x01, 0x04, 0x01, 0x10, 0x01,
            0xcc, 0x16, 0x43, 0x16, 0x43,
        ]
    );
}

#[test]
fn sync_segment_is_seventeen_or_eighteen_words() {
    let without = Packet::SyncPacket(SyncPacket::new(1, sample_hero(None)));
    assert_eq!(without.segment().len(), 17 * 8);
    let with = Packet::SyncPacket(SyncPacket::new(
        1,
        sample_hero(Some(Pos2::new(bits(1.0), bits(2.0)))),
    ));
    assert_eq!(with.segment().len(), 18 * 8);
}

#[test]
fn connect_round_trip() {
    assert_eq!(Packet::read_connect(&Packet::write_connect()), Ok(()));
}

#[test]
fn initial_sync_round_trip_for_every_id() {
    for id in 0..=255usize {
        assert_eq!(Packet::read_intial_sync(&Packet::write_initial_sync(id)), Ok(id));
    }
}

#[test]
fn initial_sync_carries_the_low_byte_of_the_id() {
    assert_eq!(Packet::read_intial_sync(&Packet::write_initial_sync(256 + 7)), Ok(7));
}

#[test]
fn ping_round_trip() {
    assert_eq!(Packet::read_packet(&Packet::Ping.write_packet()), Ok(Packet::Ping));
}

#[test]
fn your_ping_round_trip() {
    for ms in [0u32, 1, 255, 256, 0x00ff_00ff, 0xff00_ff00, u32::MAX] {
        let p = Packet::YourPing(ms);
        assert_eq!(Packet::read_packet(&p.write_packet()), Ok(p));
    }
}

#[test]
fn instruction_round_trip() {
    for id in [0usize, 1, 128, 255] {
        for move_to in [
            None,
            Some(Pos2::new(bits(0.0), bits(0.0))),
            Some(Pos2::new(bits(-0.0), bits(-1.5))),
            Some(Pos2::new(bits(150.0), bits(150.0))),
            Some(Pos2::new(bits(f32::MAX), bits(f32::MIN_POSITIVE))),
            Some(Pos2::new(u32::MAX, 0x0100_0000)),
        ] {
            let p = Packet::InstructionPacket(InstructionPacket { hero_id: id, move_to });
            assert_eq!(Packet::read_packet(&p.write_packet()), Ok(p));
        }
    }
}

#[test]
fn sync_round_trip() {
    for id in [0usize, 1, 255] {
        for target in [None, Some(Pos2::new(bits(150.0), bits(-150.0)))] {
            for hitbox in [Hitbox::Empty, Hitbox::Circle(bits(0.0)), Hitbox::Circle(bits(3.5))] {
                let mut hero = sample_hero(target);
                hero.entity.hitbox = hitbox;
                let p = Packet::SyncPacket(SyncPacket::new(id, hero));
                assert_eq!(Packet::read_packet(&p.write_packet()), Ok(p));
            }
        }
    }
}

#[test]
fn sync_round_trip_of_an_all_zero_hero() {
    let hero = Hero {
        entity: Entity { pos: Pos2::new(0, 0), vel: Vec2::new(0, 0), hitbox: Hitbox::Empty },
        color: Color { r: 0, g: 0, b: 0, a: 0 },
        target_pos: None,
    };
    let p = Packet::SyncPacket(SyncPacket::new(0, hero));
    assert_eq!(Packet::read_packet(&p.write_packet()), Ok(p));
}

#[test]
fn sync_round_trip_of_an_all_ones_hero() {
    let hero = Hero {
        entity: Entity {
            pos: Pos2::new(u32::MAX, u32::MAX),
            vel: Vec2::new(u32::MAX, u32::MAX),
            hitbox: Hitbox::Circle(u32::MAX),
        },
        color: Color { r: u32::MAX, g: u32::MAX, b: u32::MAX, a: u32::MAX },
        target_pos: Some(Pos2::new(u32::MAX, u32::MAX)),
    };
    let p = Packet::SyncPacket(SyncPacket::new(255, hero));
    assert_eq!(Packet::read_packet(&p.write_packet()), Ok(p));
}

#[test]
fn a_hero_number_above_255_travels_as_its_low_byte() {
    let p = Packet::InstructionPacket(InstructionPacket { hero_id: 0x1_02, move_to: None });
    let q = Packet::InstructionPacket(InstructionPacket { hero_id: 0x02, move_to: None });
    assert_eq!(Packet::read_packet(&p.write_packet()), Ok(q));
}

#[test]
fn empty_datagram_is_malformed() {
    assert_eq!(Packet::read_packet(&[]), Err(CodecError::Malformed));
    assert_eq!(Packet::read_connect(&[]), Err(CodecError::Malformed));
    assert_eq!(Packet::read_intial_sync(&[]), Err(CodecError::Malformed));
}

#[test]
fn datagram_cut_short_is_truncated() {
    let whole = Packet::YourPing(77).write_packet();
    assert_eq!(Packet::read_packet(&whole[..6]), Err(CodecError::Truncated));
    let connect = Packet::write_connect();
    assert_eq!(Packet::read_connect(&connect[..4]), Err(CodecError::Truncated));
}

#[test]
fn datagram_cut_on_a_word_boundary_is_malformed() {
    let whole = Packet::Ping.write_packet();
    assert_eq!(Packet::read_packet(&whole[..7]), Err(CodecError::Malformed));
}

#[test]
fn segment_shorter_than_a_packet_is_truncated() {
    assert_eq!(Packet::read_packet(&Packet::write_connect()), Err(CodecError::Truncated));
    assert_eq!(Packet::read_intial_sync(&Packet::write_connect()), Err(CodecError::Truncated));
}

#[test]
fn packet_with_an_unknown_tag_is_refused() {
    let mut words = Packet::Ping.segment();
    words[8] = 4;
    let datagram = pack(&write_frame(&words));
    assert_eq!(Packet::read_packet(&datagram), Err(CodecError::UnknownTag));
}

#[test]
fn hitbox_with_an_unknown_tag_is_refused() {
    let mut words = Packet::SyncPacket(SyncPacket::new(0, sample_hero(None))).segment();
    let hitbox_at = 24 + 16 + 32 + 40;
    words[hitbox_at] = 2;
    let datagram = pack(&write_frame(&words));
    assert_eq!(Packet::read_packet(&datagram), Err(CodecError::UnknownTag));
}

#[test]
fn goal_with_an_unknown_tag_is_refused() {
    let ip = InstructionPacket { hero_id: 0, move_to: None };
    let mut words = Packet::InstructionPacket(ip).segment();
    words[24 + 2] = 9;
    let datagram = pack(&write_frame(&words));
    assert_eq!(Packet::read_packet(&datagram), Err(CodecError::UnknownTag));
}

#[test]
fn goal_announced_and_missing_is_truncated() {
    let ip = InstructionPacket { hero_id: 0, move_to: None };
    let mut words = Packet::InstructionPacket(ip).segment();
    words[24 + 2] = 1;
    let datagram = pack(&write_frame(&words));
    assert_eq!(Packet::read_packet(&datagram), Err(CodecError::Truncated));
}

#[test]
fn packet_with_a_wrong_pointer_is_malformed() {
    let mut words = Packet::Ping.segment();
    words[0] = 4;
    let datagram = pack(&write_frame(&words));
    assert_eq!(Packet::read_packet(&datagram), Err(CodecError::Malformed));
}

#[test]
fn packet_with_a_stray_bit_is_malformed() {
    let mut words = Packet::Ping.segment();
    words[12] = 1;
    let datagram = pack(&write_frame(&words));
    assert_eq!(Packet::read_packet(&datagram), Err(CodecError::Malformed));
    let mut words = Packet::SyncPacket(SyncPacket::new(0, sample_hero(None))).segment();
    words[24 + 3] = 1;
    let datagram = pack(&write_frame(&words));
    assert_eq!(Packet::read_packet(&datagram), Err(CodecError::Malformed));
}

#[test]
fn packet_with_words_after_it_is_malformed() {
    let mut words = Packet::Ping.segment();
    words.extend_from_slice(&[0; 8]);
    let datagram = pack(&write_frame(&words));
    assert_eq!(Packet::read_packet(&datagram), Err(CodecError::Malformed));
}

#[test]
fn frame_that_counts_wrongly_is_malformed() {
    let words = Packet::Ping.segment();
    let mut flat = write_frame(&words);
    flat[4] = 2;
    assert_eq!(Packet::read_packet(&pack(&flat)), Err(CodecError::Malformed));
    let mut flat = write_frame(&words);
    flat[0] = 1;
    assert_eq!(Packet::read_packet(&pack(&flat)), Err(CodecError::Malformed));
}

#[test]
fn messages_of_one_kind_are_not_taken_for_another() {
    let connect = Packet::write_connect();
    let initial = Packet::write_initial_sync(1);
    let ping = Packet::Ping.write_packet();
    assert_eq!(Packet::read_connect(&initial), Err(CodecError::Malformed));
    assert_eq!(Packet::read_connect(&ping), Err(CodecError::Malformed));
    assert_eq!(Packet::read_intial_sync(&connect), Err(CodecError::Truncated));
    assert_eq!(Packet::read_intial_sync(&ping), Err(CodecError::Malformed));
    assert_eq!(Packet::read_packet(&initial), Err(CodecError::Truncated));
}

#[test]
fn read_vec2_reads_x_then_y() {
    let mut words = Vec::new();
    Packet::write_vec2(Vec2::new(0x0403_0201, 0x0807_0605), &mut words);
    assert_eq!(words, vec![1, 2, 3, 4, 5, 6, 7, 8]);
    assert_eq!(Packet::read_vec2(&words, 0), Vec2::new(0x0403_0201, 0x0807_0605));
}

#[test]
fn read_color_reads_r_g_b_a() {
    let c = Color { r: 1, g: 0x0200, b: 0x03_0000, a: 0x0400_0000 };
    let mut words = vec![0xaa];
    Packet::write_color(c, &mut words);
    assert_eq!(words, vec![0xaa, 1, 0, 0, 0, 0, 2, 0, 0, 0, 0, 3, 0, 0, 0, 0, 4]);
    assert_eq!(Packet::read_color(&words, 1), c);
}

#[test]
fn hitbox_struct_bytes() {
    let mut words = Vec::new();
    Packet::write_hitbox(Hitbox::Empty, &mut words);
    assert_eq!(words, vec![0; 8]);
    assert_eq!(Packet::read_hitbox(&words, 0), Ok(Hitbox::Empty));
    let mut words = Vec::new();
    Packet::write_hitbox(Hitbox::Circle(0x4048_0000), &mut words);
    assert_eq!(words, vec![1, 0, 0, 0, 0, 0, 0x48, 0x40]);
    assert_eq!(Packet::read_hitbox(&words, 0), Ok(Hitbox::Circle(0x4048_0000)));
}

#[test]
fn entity_struct_is_three_pointers_and_three_structs() {
    let e = Entity {
        pos: Pos2::new(1, 2),
        vel: Vec2::new(3, 4),
        hitbox: Hitbox::Circle(5),
    };
    let mut words = Vec::new();
    Packet::write_entity(e, &mut words);
    let pointer = [8, 0, 0, 0, 1, 0, 0, 0];
    let mut expected = Vec::new();
    expected.extend_from_slice(&pointer);
    expected.extend_from_slice(&pointer);
    expected.extend_from_slice(&pointer);
    expected.extend_from_slice(&[1, 0, 0, 0, 2, 0, 0, 0]);
    expected.extend_from_slice(&[3, 0, 0, 0, 4, 0, 0, 0]);
    expected.extend_from_slice(&[1, 0, 0, 0, 5, 0, 0, 0]);
    assert_eq!(words, expected);
    assert_eq!(Packet::read_entity(&words, 0), Ok(e));
    assert_eq!(Packet::read_entity(&words[..40], 0), Err(CodecError::Truncated));
}

#[test]
fn hero_struct_round_trip_at_an_offset() {
    for target in [None, Some(Pos2::new(7, 8))] {
        let hero = sample_hero(target);
        let mut words = vec![0xee; 16];
        Packet::write_hero(hero, &mut words);
        assert_eq!(words.len(), 16 + 96 + if target.is_some() { 8 } else { 0 });
        assert_eq!(Packet::read_hero(&words, 16), Ok(hero));
    }
    assert_eq!(Packet::read_hero(&[0; 95], 0), Err(CodecError::Truncated));
}

#[test]
fn sync_and_instruction_structs_round_trip() {
    let sp = SyncPacket::new(3, sample_hero(Some(Pos2::new(1, 1))));
    let mut words = Vec::new();
    Packet::write_sync(sp, &mut words);
    assert_eq!(Packet::read_sync(&words, 0), Ok(sp));
    assert_eq!(Packet::read_sync(&words[..15], 0), Err(CodecError::Truncated));
    let ip = InstructionPacket { hero_id: 9, move_to: Some(Pos2::new(5, 6)) };
    let mut words = Vec::new();
    Packet::write_instruction(ip, &mut words);
    assert_eq!(words.len(), 24);
    assert_eq!(Packet::read_instruction(&words, 0), Ok(ip));
    assert_eq!(Packet::read_instruction(&words[..8], 0), Err(CodecError::Truncated));
}

#[test]
fn packet_constructors() {
    assert_eq!(InstructionPacket::new(4), InstructionPacket { hero_id: 4, move_to: None });
    let hero = sample_hero(None);
    assert_eq!(SyncPacket::new(1, hero), SyncPacket { hero_id: 1, sync_frame: hero });
}

#[test]
fn little_endian_values() {
    let mut out = Vec::new();
    put_le32(&mut out, 0x1234_5678);
    put_le16(&mut out, 0xabcd);
    assert_eq!(out, vec![0x78, 0x56, 0x34, 0x12, 0xcd, 0xab]);
    assert_eq!(get_le32(&out, 0), 0x1234_5678);
    assert_eq!(get_le16(&out, 4), 0xabcd);
    assert_eq!(get_le32(&out, 2), 0xabcd_1234);
    assert!(same_bytes(&out, &[0x78, 0x56, 0x34, 0x12, 0xcd, 0xab]));
    assert!(!same_bytes(&out, &[0x78, 0x56, 0x34, 0x12, 0xcd]));
    assert!(!same_bytes(&out, &[0x78, 0x56, 0x34, 0x12, 0xcd, 0xac]));
}

#[test]
fn frame_of_two_words() {
    let words = [1u8, 2, 3, 4, 5, 6, 7, 8, 9, 10, 11, 12, 13, 14, 15, 16];
    let flat = write_frame(&words);
    assert_eq!(&flat[..8], &[0, 0, 0, 0, 2, 0, 0, 0]);
    assert_eq!(&flat[8..], &words);
    assert_eq!(read_frame(&flat), Some(8));
    assert_eq!(read_frame(&flat[..16]), None);
    assert_eq!(read_frame(&flat[..7]), None);
}

#[test]
fn packing_of_single_words() {
    assert_eq!(pack(&[]), Vec::<u8>::new());
    assert_eq!(pack(&[0; 8]), vec![0, 0]);
    assert_eq!(pack(&[0, 0, 12, 0, 0, 34, 0, 0]), vec![0x24, 12, 34]);
    assert_eq!(pack(&[1, 3, 2, 4, 5, 7, 6, 8]), vec![0xff, 1, 3, 2, 4, 5, 7, 6, 8, 0]);
    assert_eq!(
        pack(&[0, 0, 0, 0, 0, 0, 0, 0, 1, 3, 2, 4, 5, 7, 6, 8]),
        vec![0, 0, 0xff, 1, 3, 2, 4, 5, 7, 6, 8, 0]
    );
    assert_eq!(
        pack(&[0, 0, 12, 0, 0, 34, 0, 0, 1, 3, 2, 4, 5, 7, 6, 8]),
        vec![0x24, 12, 34, 0xff, 1, 3, 2, 4, 5, 7, 6, 8, 0]
    );
}

#[test]
fn packing_leaves_out_a_run_of_zero_words() {
    assert_eq!(pack(&[0; 16]), vec![0, 1]);
    assert_eq!(pack(&[0; 32]), vec![0, 3]);
    let mut words = vec![0u8; 24];
    words.extend_from_slice(&[0, 0, 0, 0, 0, 0, 0, 9]);
    words.extend_from_slice(&[0; 8]);
    assert_eq!(pack(&words), vec![0, 2, 0x80, 9, 0, 0]);
}

#[test]
fn packing_copies_a_run_of_dense_words() {
    assert_eq!(
        pack(&[1, 3, 2, 4, 5, 7, 6, 8, 8, 7, 6, 5, 4, 3, 2, 1]),
        vec![0xff, 1, 3, 2, 4, 5, 7, 6, 8, 1, 8, 7, 6, 5, 4, 3, 2, 1]
    );
    assert_eq!(
        pack(&[
            1, 2, 3, 4, 5, 6, 7, 8, 1, 2, 3, 4, 5, 6, 7, 8, 1, 2, 3, 4, 5, 6, 7, 8, 1, 2, 3, 4,
            5, 6, 7, 8, 0, 2, 4, 0, 9, 0, 5, 1,
        ]),
        vec![
            0xff, 1, 2, 3, 4, 5, 6, 7, 8, 3, 1, 2, 3, 4, 5, 6, 7, 8, 1, 2, 3, 4, 5, 6, 7, 8, 1,
            2, 3, 4, 5, 6, 7, 8, 0xd6, 2, 4, 9, 5, 1,
        ]
    );
    assert_eq!(
        pack(&[
            1, 2, 3, 4, 5, 6, 7, 8, 1, 2, 3, 4, 5, 6, 7, 8, 6, 2, 4, 3, 9, 0, 5, 1, 1, 2, 3, 4,
            5, 6, 7, 8, 0, 2, 4, 0, 9, 0, 5, 1,
        ]),
        vec![
            0xff, 1, 2, 3, 4, 5, 6, 7, 8, 3, 1, 2, 3, 4, 5, 6, 7, 8, 6, 2, 4, 3, 9, 0, 5, 1, 1,
            2, 3, 4, 5, 6, 7, 8, 0xd6, 2, 4, 9, 5, 1,
        ]
    );
}

#[test]
fn packing_ends_a_run_at_255_words() {
    let packed = pack(&vec![0u8; 8 * 300]);
    assert_eq!(packed, vec![0, 255, 0, 43]);
    let packed = pack(&vec![7u8; 8 * 257]);
    assert_eq!(packed.len(), 1 + 8 + 1 + 8 * 255 + 1 + 8 + 1);
    assert_eq!(&packed[..10], &[0xff, 7, 7, 7, 7, 7, 7, 7, 7, 255]);
    assert_eq!(&packed[10 + 8 * 255..], &[0xff, 7, 7, 7, 7, 7, 7, 7, 7, 0]);
    assert_eq!(unpack(&packed), Some(vec![7u8; 8 * 257]));
}

#[test]
fn unpacking_reads_runs() {
    assert_eq!(unpack(&[]), Some(vec![]));
    assert_eq!(unpack(&[0, 0]), Some(vec![0; 8]));
    assert_eq!(unpack(&[0, 3]), Some(vec![0; 32]));
    assert_eq!(unpack(&[0x24, 12, 34]), Some(vec![0, 0, 12, 0, 0, 34, 0, 0]));
    assert_eq!(
        unpack(&[0xff, 1, 3, 2, 4, 5, 7, 6, 8, 1, 9, 0, 9, 9, 9, 9, 9, 9]),
        Some(vec![1, 3, 2, 4, 5, 7, 6, 8, 9, 0, 9, 9, 9, 9, 9, 9])
    );
    assert_eq!(
        unpack(&[0xed, 1, 2, 3, 4, 5, 6, 0, 1, 0x01, 7]),
        Some(vec![1, 0, 2, 3, 0, 4, 5, 6, 0, 0, 0, 0, 0, 0, 0, 0, 0, 0, 0, 0, 0, 0, 0, 0, 7, 0, 0, 0, 0, 0, 0, 0])
    );
}

#[test]
fn unpacking_stops_at_a_stream_that_ends_early() {
    assert_eq!(unpack(&[0]), None);
    assert_eq!(unpack(&[0x24, 12]), None);
    assert_eq!(unpack(&[0xff, 1, 3, 2, 4, 5, 7, 6, 8]), None);
    assert_eq!(unpack(&[0xff, 1, 3, 2, 4, 5, 7, 6, 8, 1, 9, 9]), None);
}

#[test]
fn unpacking_what_was_packed() {
    let mut words = Vec::new();
    for i in 0..64u32 {
        for j in 0..8u32 {
            let b = if (i >> j) & 1 == 1 { (i * 8 + j + 1) as u8 } else { 0 };
            words.push(b);
        }
    }
    words.extend_from_slice(&[0xff; 24]);
    words.extend_from_slice(&[0; 24]);
    assert_eq!(unpack(&pack(&words)), Some(words));
}

#[test]
fn no_datagram_is_longer_than_190_bytes() {
    assert_eq!(MAX_DATAGRAM, 190);
    let dense = Hero {
        entity: Entity {
            pos: Pos2::new(u32::MAX, u32::MAX),
            vel: Vec2::new(u32::MAX, u32::MAX),
            hitbox: Hitbox::Circle(u32::MAX),
        },
        color: Color { r: u32::MAX, g: u32::MAX, b: u32::MAX, a: u32::MAX },
        target_pos: Some(Pos2::new(u32::MAX, u32::MAX)),
    };
    let longest = Packet::SyncPacket(SyncPacket::new(255, dense)).write_packet();
    assert!(longest.len() <= MAX_DATAGRAM);
    assert_eq!(longest.len(), 85);
    assert!(Packet::SyncPacket(SyncPacket::new(1, sample_hero(None))).write_packet().len() <= 190);
    assert!(Packet::write_connect().len() <= 190);
}

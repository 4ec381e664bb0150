//! The messages that the two sides exchange, how each is written as a
//! datagram and read from one, and what the receiver pipeline does with a
//! datagram.

use crate::entity::{Color, Entity, Hero, Hitbox};
use crate::geometry::{Pos2, Vec2};
use crate::udpstream::UdpStream;
use crate::wire::error::CodecError;
use crate::wire::frame::{
    framed, lemma_unframe_framed, read_frame, unframed, write_frame, MAX_SEGMENT_BYTES,
};
use crate::wire::le::{
    get_le16, get_le32, le16, le32, lemma_le32_read_back, put_le16, put_le32, put_range,
    put_zeros, same_bytes,
};
use crate::wire::packing::{
    lemma_packed_length, lemma_unpack_packed, pack, packed, packed_chunk, run_of, tag_of, unpack,
    unpacked,
};
use crate::wire::schema::{
    color_words, connect_message, decoded_connect, decoded_initial_sync, decoded_packet,
    entity_words, hero_words, hitbox_words, in_range, initial_sync_message, instruction_words,
    lemma_decoded_connect, lemma_decoded_initial_sync, lemma_decoded_packet,
    lemma_message_length, message, packet_message, parsed_color, parsed_entity, parsed_hero,
    parsed_hitbox, parsed_instruction, parsed_sync, parsed_target, parsed_vec2, struct_pointer,
    sync_words, target_pointer, target_tag, target_words, vec2_words,
};
use vstd::prelude::*;
use vstd::slice::slice_subrange;

verus! {

/// A one-shot command: head for a point, or give up the goal.
#[derive(Clone, Copy, Debug, PartialEq, Eq, Structural)]
pub struct InstructionPacket {
    pub hero_id: usize,
    pub move_to: Option<Pos2>,
}

/// The whole state of a hero, as its owner sees it.
pub type SyncFrame = Hero;

/// A full snapshot of one hero, sent now and then to correct drift.
#[derive(Clone, Copy, Debug, PartialEq, Eq, Structural)]
pub struct SyncPacket {
    pub hero_id: usize,
    pub sync_frame: SyncFrame,
}

/// What travels between the two sides after the handshake.
#[derive(Clone, Copy, Debug, PartialEq, Eq, Structural)]
pub enum Packet {
    InstructionPacket(InstructionPacket),
    SyncPacket(SyncPacket),
    /// A latency probe.
    Ping,
    /// The round trip that a probe measured, in milliseconds.
    YourPing(u32),
}

impl InstructionPacket {
    /// An instruction for hero `id` that names no goal.
    pub fn new(id: usize) -> (ip: InstructionPacket)
        ensures
            ip == (InstructionPacket { hero_id: id, move_to: None }),
    {
        InstructionPacket { hero_id: id, move_to: None }
    }
}

impl SyncPacket {
    /// The snapshot `sf` of hero `id`.
    pub fn new(id: usize, sf: SyncFrame) -> (sp: SyncPacket)
        ensures
            sp == (SyncPacket { hero_id: id, sync_frame: sf }),
    {
        SyncPacket { hero_id: id, sync_frame: sf }
    }
}

/// The longest datagram that the encoder writes.
pub const MAX_DATAGRAM: usize = 190;

/// The datagram that carries segment `words`: the segment behind its table,
/// packed. An encoder may as well pack the table and then the segment (see
/// `lemma_table_packs_alone`).
pub open spec fn datagram_of(words: Seq<u8>) -> Seq<u8> {
    packed(framed(words))
}

/// The segment that a datagram carries: what it unpacks to, less the table.
pub open spec fn segment_of(datagram: Seq<u8>) -> Result<Seq<u8>, CodecError> {
    match unpacked(datagram) {
        None => Err(CodecError::Truncated),
        Some(flat) => match unframed(flat) {
            None => Err(CodecError::Malformed),
            Some(words) => Ok(words),
        },
    }
}

/// Appends a struct pointer.
fn put_struct_pointer(out: &mut Vec<u8>, offset: u32, data: u16, pointers: u16)
    requires
        offset < 0x4000_0000,
    ensures
        final(out)@ == old(out)@ + struct_pointer(offset, data, pointers),
{
    put_le32(out, 4 * offset);
    put_le16(out, data);
    put_le16(out, pointers);
    assert(out@ =~= old(out)@ + struct_pointer(offset, data, pointers));
}

/// Appends a goal's tag.
fn put_target_tag(out: &mut Vec<u8>, target: Option<Pos2>)
    ensures
        final(out)@ == old(out)@ + le16(target_tag(target)),
{
    match target {
        None => put_le16(out, 0),
        Some(_) => put_le16(out, 1),
    }
}

/// Appends the pointer to a goal's point, `offset` words ahead.
fn put_target_pointer(out: &mut Vec<u8>, target: Option<Pos2>, offset: u32)
    requires
        offset < 0x4000_0000,
    ensures
        final(out)@ == old(out)@ + target_pointer(target, offset),
{
    match target {
        None => put_zeros(out, 8),
        Some(_) => put_struct_pointer(out, offset, 1, 0),
    }
}

/// Appends a goal's point, where there is one.
fn put_target(out: &mut Vec<u8>, target: Option<Pos2>)
    ensures
        final(out)@ == old(out)@ + target_words(target),
{
    match target {
        None => {
            assert(out@ =~= old(out)@ + target_words(target));
        },
        Some(p) => Packet::write_vec2(p.into_fixed(), out),
    }
}

/// Reads the goal whose tag is at `tag_at` and whose point is at `at`.
fn read_target(words: &[u8], tag_at: usize, at: usize) -> (r: Result<Option<Pos2>, CodecError>)
    requires
        tag_at + 2 <= words.len(),
        at <= words.len(),
    ensures
        r == parsed_target(words@, tag_at as int, at as int),
{
    let tag = get_le16(words, tag_at);
    if tag == 0 {
        Ok(None)
    } else if tag == 1 {
        if words.len() - at < 8 {
            Err(CodecError::Truncated)
        } else {
            Ok(Some(Pos2::from_fixed(Packet::read_vec2(words, at))))
        }
    } else {
        Err(CodecError::UnknownTag)
    }
}

/// Unpacks a datagram and takes the table off.
fn read_segment(datagram: &[u8]) -> (r: Result<Vec<u8>, CodecError>)
    ensures
        match r {
            Ok(words) => segment_of(datagram@) == Ok::<Seq<u8>, CodecError>(words@),
            Err(e) => segment_of(datagram@) == Err::<Seq<u8>, CodecError>(e),
        },
{
    match unpack(datagram) {
        None => Err(CodecError::Truncated),
        Some(flat) => match read_frame(flat.as_slice()) {
            None => Err(CodecError::Malformed),
            Some(start) => {
                let mut words: Vec<u8> = Vec::new();
                put_range(&mut words, flat.as_slice(), start, flat.len() - start);
                assert(words@ =~= flat@.skip(8));
                Ok(words)
            },
        },
    }
}

/// Frames and packs a segment.
fn write_segment(words: &Vec<u8>) -> (datagram: Vec<u8>)
    requires
        words@.len() % 8 == 0,
        words@.len() <= 144,
    ensures
        datagram@ == datagram_of(words@),
        datagram@.len() <= MAX_DATAGRAM,
{
    let flat = write_frame(words.as_slice());
    proof {
        lemma_unframe_framed(words@);
        lemma_packed_length(flat@);
    }
    pack(flat.as_slice())
}

impl Packet {
    /// The datagram that carries this packet.
    pub open spec fn encoding(self) -> Seq<u8> {
        datagram_of(packet_message(self))
    }

    /// The packet that a datagram carries.
    pub open spec fn decoding(datagram: Seq<u8>) -> Result<Packet, CodecError> {
        match segment_of(datagram) {
            Err(e) => Err(e),
            Ok(words) => decoded_packet(words),
        }
    }

    /// Whether the handshake's opening is what a datagram carries.
    pub open spec fn connect_decoding(datagram: Seq<u8>) -> Result<(), CodecError> {
        match segment_of(datagram) {
            Err(e) => Err(e),
            Ok(words) => decoded_connect(words),
        }
    }

    /// The hero number of the handshake's reply that a datagram carries.
    pub open spec fn initial_sync_decoding(datagram: Seq<u8>) -> Result<usize, CodecError> {
        match segment_of(datagram) {
            Err(e) => Err(e),
            Ok(words) => decoded_initial_sync(words),
        }
    }

    /// Decodes the handshake's opening.
    pub fn read_connect(datagram: &[u8]) -> (r: Result<(), CodecError>)
        ensures
            r == Packet::connect_decoding(datagram@),
    {
        let words = match read_segment(datagram) {
            Err(e) => {
                return Err(e);
            },
            Ok(words) => words,
        };
        if words.len() < 8 {
            return Err(CodecError::Truncated);
        }
        let mut expected: Vec<u8> = Vec::new();
        put_le32(&mut expected, 0xffff_fffc);
        put_le16(&mut expected, 0);
        put_le16(&mut expected, 0);
        assert(expected@ =~= connect_message());
        if same_bytes(expected.as_slice(), words.as_slice()) {
            Ok(())
        } else {
            Err(CodecError::Malformed)
        }
    }

    /// Decodes the handshake's reply: the hero number that the host assigns.
    pub fn read_intial_sync(datagram: &[u8]) -> (r: Result<usize, CodecError>)
        ensures
            r == Packet::initial_sync_decoding(datagram@),
    {
        let words = match read_segment(datagram) {
            Err(e) => {
                return Err(e);
            },
            Ok(words) => words,
        };
        if words.len() < 16 {
            return Err(CodecError::Truncated);
        }
        let id: usize = words[8] as usize;
        let mut expected: Vec<u8> = Vec::new();
        put_struct_pointer(&mut expected, 0, 1, 0);
        expected.push(words[8]);
        put_zeros(&mut expected, 7);
        assert(expected@ =~= initial_sync_message(id));
        if same_bytes(expected.as_slice(), words.as_slice()) {
            Ok(id)
        } else {
            Err(CodecError::Malformed)
        }
    }

    /// Decodes a packet.
    pub fn read_packet(datagram: &[u8]) -> (r: Result<Packet, CodecError>)
        ensures
            r == Packet::decoding(datagram@),
    {
        let words = match read_segment(datagram) {
            Err(e) => {
                return Err(e);
            },
            Ok(words) => words,
        };
        if words.len() < 24 {
            return Err(CodecError::Truncated);
        }
        let tag = get_le16(words.as_slice(), 8);
        let packet = if tag == 0 {
            match Packet::read_instruction(words.as_slice(), 24) {
                Err(e) => {
                    return Err(e);
                },
                Ok(i) => Packet::InstructionPacket(i),
            }
        } else if tag == 1 {
            match Packet::read_sync(words.as_slice(), 24) {
                Err(e) => {
                    return Err(e);
                },
                Ok(s) => Packet::SyncPacket(s),
            }
        } else if tag == 2 {
            Packet::Ping
        } else if tag == 3 {
            Packet::YourPing(get_le32(words.as_slice(), 12))
        } else {
            return Err(CodecError::UnknownTag);
        };
        let expected = packet.segment();
        if same_bytes(expected.as_slice(), words.as_slice()) {
            Ok(packet)
        } else {
            Err(CodecError::Malformed)
        }
    }

    /// Reads the instruction whose struct starts at `at`.
    pub fn read_instruction(words: &[u8], at: usize) -> (r: Result<InstructionPacket, CodecError>)
        requires
            at <= words.len(),
        ensures
            r == parsed_instruction(words@, at as int),
    {
        if words.len() - at < 16 {
            return Err(CodecError::Truncated);
        }
        match read_target(words, at + 2, at + 16) {
            Err(e) => Err(e),
            Ok(move_to) => Ok(InstructionPacket { hero_id: words[at] as usize, move_to }),
        }
    }

    /// Reads the vector whose struct starts at `at`.
    pub fn read_vec2(words: &[u8], at: usize) -> (v: Vec2)
        requires
            at + 8 <= words.len(),
        ensures
            v == parsed_vec2(words@, at as int),
    {
        Vec2 { x: get_le32(words, at), y: get_le32(words, at + 4) }
    }

    /// Reads the sync whose struct starts at `at`.
    pub fn read_sync(words: &[u8], at: usize) -> (r: Result<SyncPacket, CodecError>)
        requires
            at <= words.len(),
        ensures
            r == parsed_sync(words@, at as int),
    {
        if words.len() - at < 16 {
            return Err(CodecError::Truncated);
        }
        match Packet::read_hero(words, at + 16) {
            Err(e) => Err(e),
            Ok(sync_frame) => Ok(SyncPacket { hero_id: words[at] as usize, sync_frame }),
        }
    }

    /// Reads the hero whose struct starts at `at`.
    pub fn read_hero(words: &[u8], at: usize) -> (r: Result<Hero, CodecError>)
        requires
            at <= words.len(),
        ensures
            r == parsed_hero(words@, at as int),
    {
        proof {
            reveal(parsed_hero);
        }
        if words.len() - at < 96 {
            return Err(CodecError::Truncated);
        }
        let entity = match Packet::read_entity(words, at + 32) {
            Err(e) => {
                return Err(e);
            },
            Ok(entity) => entity,
        };
        let target_pos = match read_target(words, at, at + 96) {
            Err(e) => {
                return Err(e);
            },
            Ok(target_pos) => target_pos,
        };
        Ok(Hero { entity, color: Packet::read_color(words, at + 80), target_pos })
    }

    /// Reads the entity whose struct starts at `at`.
    pub fn read_entity(words: &[u8], at: usize) -> (r: Result<Entity, CodecError>)
        requires
            at <= words.len(),
        ensures
            r == parsed_entity(words@, at as int),
    {
        proof {
            reveal(parsed_entity);
        }
        if words.len() - at < 48 {
            return Err(CodecError::Truncated);
        }
        match Packet::read_hitbox(words, at + 40) {
            Err(e) => Err(e),
            Ok(hitbox) => Ok(
                Entity {
                    pos: Pos2::from_fixed(Packet::read_vec2(words, at + 24)),
                    vel: Packet::read_vec2(words, at + 32),
                    hitbox,
                },
            ),
        }
    }

    /// Reads the hitbox whose struct starts at `at`.
    pub fn read_hitbox(words: &[u8], at: usize) -> (r: Result<Hitbox, CodecError>)
        requires
            at + 8 <= words.len(),
        ensures
            r == parsed_hitbox(words@, at as int),
    {
        let tag = get_le16(words, at);
        if tag == 0 {
            Ok(Hitbox::Empty)
        } else if tag == 1 {
            Ok(Hitbox::Circle(get_le32(words, at + 4)))
        } else {
            Err(CodecError::UnknownTag)
        }
    }

    /// Reads the colour whose struct starts at `at`.
    pub fn read_color(words: &[u8], at: usize) -> (c: Color)
        requires
            at + 16 <= words.len(),
        ensures
            c == parsed_color(words@, at as int),
    {
        Color {
            r: get_le32(words, at),
            g: get_le32(words, at + 4),
            b: get_le32(words, at + 8),
            a: get_le32(words, at + 12),
        }
    }

    /// The datagram of the handshake's opening.
    pub fn write_connect() -> (datagram: Vec<u8>)
        ensures
            datagram@ == datagram_of(connect_message()),
            datagram@.len() <= MAX_DATAGRAM,
    {
        let mut words: Vec<u8> = Vec::new();
        put_le32(&mut words, 0xffff_fffc);
        put_le16(&mut words, 0);
        put_le16(&mut words, 0);
        assert(words@ =~= connect_message());
        write_segment(&words)
    }

    /// The datagram of the handshake's reply, which assigns hero `id`. Only
    /// the low eight bits of `id` travel.
    pub fn write_initial_sync(id: usize) -> (datagram: Vec<u8>)
        ensures
            datagram@ == datagram_of(initial_sync_message(id)),
            datagram@.len() <= MAX_DATAGRAM,
    {
        let mut words: Vec<u8> = Vec::new();
        put_struct_pointer(&mut words, 0, 1, 0);
        words.push((id % 256) as u8);
        put_zeros(&mut words, 7);
        assert(words@ =~= initial_sync_message(id));
        write_segment(&words)
    }

    /// The segment of this packet's message.
    pub fn segment(self) -> (words: Vec<u8>)
        ensures
            words@ == packet_message(self),
            words@.len() % 8 == 0,
            words@.len() <= 144,
    {
        let mut words: Vec<u8> = Vec::new();
        put_struct_pointer(&mut words, 0, 1, 1);
        match self {
            Packet::InstructionPacket(ip) => {
                put_le16(&mut words, 0);
                put_zeros(&mut words, 2);
                put_le32(&mut words, 0);
                put_struct_pointer(&mut words, 0, 1, 1);
                Packet::write_instruction(ip, &mut words);
            },
            Packet::SyncPacket(sp) => {
                put_le16(&mut words, 1);
                put_zeros(&mut words, 2);
                put_le32(&mut words, 0);
                put_struct_pointer(&mut words, 0, 1, 1);
                Packet::write_sync(sp, &mut words);
            },
            Packet::Ping => {
                put_le16(&mut words, 2);
                put_zeros(&mut words, 2);
                put_le32(&mut words, 0);
                put_zeros(&mut words, 8);
            },
            Packet::YourPing(yp) => {
                put_le16(&mut words, 3);
                put_zeros(&mut words, 2);
                put_le32(&mut words, yp);
                put_zeros(&mut words, 8);
            },
        }
        proof {
            reveal(message);
            assert(words@ =~= packet_message(self));
            lemma_message_length(self);
        }
        words
    }

    /// The datagram that carries this packet. It is short enough for any
    /// transport of datagrams.
    pub fn write_packet(self) -> (datagram: Vec<u8>)
        ensures
            datagram@ == self.encoding(),
            datagram@.len() <= MAX_DATAGRAM,
    {
        let words = self.segment();
        write_segment(&words)
    }

    /// Appends an instruction's struct and its goal.
    pub fn write_instruction(ip: InstructionPacket, out: &mut Vec<u8>)
        ensures
            final(out)@ == old(out)@ + instruction_words(ip),
    {
        out.push((ip.hero_id % 256) as u8);
        out.push(0u8);
        put_target_tag(out, ip.move_to);
        put_zeros(out, 4);
        put_target_pointer(out, ip.move_to, 0);
        put_target(out, ip.move_to);
        proof {
            reveal(instruction_words);
            assert(out@ =~= old(out)@ + instruction_words(ip));
        }
    }

    /// Appends a vector's struct.
    pub fn write_vec2(v: Vec2, out: &mut Vec<u8>)
        ensures
            final(out)@ == old(out)@ + vec2_words(v),
    {
        put_le32(out, v.x);
        put_le32(out, v.y);
        assert(out@ =~= old(out)@ + vec2_words(v));
    }

    /// Appends a sync's struct and its hero.
    pub fn write_sync(sp: SyncPacket, out: &mut Vec<u8>)
        ensures
            final(out)@ == old(out)@ + sync_words(sp),
    {
        out.push((sp.hero_id % 256) as u8);
        put_zeros(out, 7);
        put_struct_pointer(out, 0, 1, 3);
        Packet::write_hero(sp.sync_frame, out);
        proof {
            reveal(sync_words);
            assert(out@ =~= old(out)@ + sync_words(sp));
        }
    }

    /// Appends a hero's struct, its entity, its colour and its goal.
    pub fn write_hero(hero: Hero, out: &mut Vec<u8>)
        ensures
            final(out)@ == old(out)@ + hero_words(hero),
    {
        put_target_tag(out, hero.target_pos);
        put_zeros(out, 6);
        put_struct_pointer(out, 2, 0, 3);
        put_struct_pointer(out, 7, 2, 0);
        put_target_pointer(out, hero.target_pos, 8);
        Packet::write_entity(hero.entity, out);
        Packet::write_color(hero.color, out);
        put_target(out, hero.target_pos);
        proof {
            reveal(hero_words);
            assert(out@ =~= old(out)@ + hero_words(hero));
        }
    }

    /// Appends an entity's struct, its position, its velocity and its hitbox.
    pub fn write_entity(entity: Entity, out: &mut Vec<u8>)
        ensures
            final(out)@ == old(out)@ + entity_words(entity),
    {
        put_struct_pointer(out, 2, 1, 0);
        put_struct_pointer(out, 2, 1, 0);
        put_struct_pointer(out, 2, 1, 0);
        Packet::write_vec2(entity.pos.into_fixed(), out);
        Packet::write_vec2(entity.vel, out);
        Packet::write_hitbox(entity.hitbox, out);
        proof {
            reveal(entity_words);
            assert(out@ =~= old(out)@ + entity_words(entity));
        }
    }

    /// Appends a hitbox's struct.
    pub fn write_hitbox(hitbox: Hitbox, out: &mut Vec<u8>)
        ensures
            final(out)@ == old(out)@ + hitbox_words(hitbox),
    {
        match hitbox {
            Hitbox::Empty => {
                put_le16(out, 0);
                put_zeros(out, 2);
                put_le32(out, 0);
            },
            Hitbox::Circle(r) => {
                put_le16(out, 1);
                put_zeros(out, 2);
                put_le32(out, r);
            },
        }
        assert(out@ =~= old(out)@ + hitbox_words(hitbox));
    }

    /// Appends a colour's struct.
    pub fn write_color(color: Color, out: &mut Vec<u8>)
        ensures
            final(out)@ == old(out)@ + color_words(color),
    {
        put_le32(out, color.r);
        put_le32(out, color.g);
        put_le32(out, color.b);
        put_le32(out, color.a);
        assert(out@ =~= old(out)@ + color_words(color));
    }
}

/// Packing the table and the segment in one go gives what packing the table
/// and then the segment gives: the table of a segment that is not empty opens
/// no run, so its packed form does not depend on what follows it.
pub proof fn lemma_table_packs_alone(words: Seq<u8>)
    requires
        words.len() % 8 == 0,
        8 <= words.len() <= MAX_SEGMENT_BYTES,
    ensures
        datagram_of(words) == packed(le32(0) + le32((words.len() / 8) as u32)) + packed(words),
{
    let n = (words.len() / 8) as u32;
    let table = le32(0) + le32(n);
    let flat = framed(words);
    assert(table.len() == 8);
    assert(flat.subrange(0, 8) =~= table);
    assert(table.subrange(0, 8) =~= table);
    assert(flat.skip(8) =~= words);
    assert(table.skip(8) =~= Seq::<u8>::empty());
    assert(table[0] == 0 && table[1] == 0 && table[2] == 0 && table[3] == 0);
    assert(table[4] != 0 || table[5] != 0 || table[6] != 0 || table[7] != 0) by {
        lemma_le32_read_back(n);
    }
    assert(tag_of(table, 0) != 0 && tag_of(table, 0) != 255) by {
        reveal_with_fuel(tag_of, 9);
    }
    assert(run_of(table) == 0 && run_of(flat) == 0);
    assert(packed(Seq::<u8>::empty()) =~= Seq::<u8>::empty());
    assert(packed(table) =~= packed_chunk(table) + packed(table.skip(8)));
    assert(packed_chunk(flat) =~= packed_chunk(table));
    assert(packed(flat) =~= packed_chunk(flat) + packed(flat.skip(8)));
}

/// The segment of a datagram that was made from a segment is that segment.
pub proof fn lemma_segment_of_datagram(words: Seq<u8>)
    requires
        words.len() % 8 == 0,
        words.len() <= MAX_SEGMENT_BYTES,
    ensures
        segment_of(datagram_of(words)) == Ok::<Seq<u8>, CodecError>(words),
{
    lemma_unframe_framed(words);
    lemma_unpack_packed(framed(words));
}

/// Encoding a packet and decoding the datagram gives the packet back,
/// whichever of the four kinds it is and whatever its fields hold, as long as
/// its hero number fits in the byte that carries it.
pub proof fn lemma_packet_round_trip(p: Packet)
    requires
        in_range(p),
    ensures
        Packet::decoding(p.encoding()) == Ok::<Packet, CodecError>(p),
{
    lemma_message_length(p);
    lemma_segment_of_datagram(packet_message(p));
    lemma_decoded_packet(p);
}

/// A datagram decodes to a packet only if it carries, word for word, the
/// segment that the encoder writes for that packet.
pub proof fn lemma_decoding_is_exact(datagram: Seq<u8>, p: Packet)
    requires
        Packet::decoding(datagram) == Ok::<Packet, CodecError>(p),
    ensures
        segment_of(datagram) == Ok::<Seq<u8>, CodecError>(packet_message(p)),
{
}

/// Decoding the handshake's opening, once encoded, succeeds.
pub proof fn lemma_connect_round_trip()
    ensures
        Packet::connect_decoding(datagram_of(connect_message())) == Ok::<(), CodecError>(()),
{
    lemma_decoded_connect();
    lemma_segment_of_datagram(connect_message());
}

/// Encoding the handshake's reply and decoding the datagram gives the hero
/// number back, as long as it fits in the byte that carries it.
pub proof fn lemma_initial_sync_round_trip(id: usize)
    requires
        id < 256,
    ensures
        Packet::initial_sync_decoding(datagram_of(initial_sync_message(id))) == Ok::<
            usize,
            CodecError,
        >(id),
{
    lemma_decoded_initial_sync(id);
    lemma_segment_of_datagram(initial_sync_message(id));
}

/// What the receiver pipeline does at the end of one turn.
#[derive(Clone, Copy, Debug, PartialEq, Eq, Structural)]
pub enum Turn {
    /// Nothing arrived in time: wait again.
    Wait,
    /// Hand the packet to the controller and wait again.
    Forward(Packet),
    /// End, because the pipeline was told to.
    Stop,
    /// End, because a datagram was not a packet.
    Fail(CodecError),
}

/// What one turn of the pipeline comes to, given whether it was told to stop
/// and the datagram that arrived, if one did.
pub open spec fn turn_of(killed: bool, heard: Option<Seq<u8>>) -> Turn {
    if killed {
        Turn::Stop
    } else {
        match heard {
            None => Turn::Wait,
            Some(datagram) => match Packet::decoding(datagram) {
                Ok(packet) => Turn::Forward(packet),
                Err(e) => Turn::Fail(e),
            },
        }
    }
}

/// One turn of the receiver pipeline. The caller has looked whether the
/// pipeline was told to stop and, if not, has waited for a datagram;
/// `heard` is the datagram and where it came from, or `None` if the wait ran
/// out. A pipeline that was told to stop ends. Otherwise the datagram's
/// sender is noted, and the datagram is decoded: a packet is to be handed
/// on, anything else ends the pipeline.
pub fn net_thread<A: Copy>(stream: &mut UdpStream<A>, killed: bool, heard: Option<(&[u8], A)>) -> (turn:
    Turn)
    ensures
        turn == turn_of(
            killed,
            match heard {
                Some((datagram, _)) => Some(datagram@),
                None => None,
            },
        ),
        final(stream).target == old(stream).target,
        final(stream).sender == match heard {
            Some((_, from)) if !killed => Some(from),
            _ => old(stream).sender,
        },
{
    if killed {
        return Turn::Stop;
    }
    match heard {
        None => Turn::Wait,
        Some((datagram, from)) => {
            stream.read(from);
            match Packet::read_packet(datagram) {
                Ok(packet) => Turn::Forward(packet),
                Err(e) => Turn::Fail(e),
            }
        },
    }
}

} // verus!

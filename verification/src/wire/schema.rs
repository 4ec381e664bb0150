//! How each message lies in its segment.
//!
//! A struct is a data section and a pointer section, each a whole number of
//! 8-byte words; a struct pointer holds the distance to its target in words,
//! counted from the pointer's end, and the sizes of the two sections. The
//! encoder allocates a struct when it meets the pointer to it, so every
//! struct is followed by what its pointers lead to, in the order of the
//! pointers, and every distance is a constant.
//!
//! | struct      | data                                         | pointers               |
//! |-------------|----------------------------------------------|------------------------|
//! | Connect     |                                              |                        |
//! | InitialSync | `your_id` u8 at 0                            |                        |
//! | Packet      | tag u16 at 0, `your_ping` u32 at 4           | Instruction or Sync    |
//! | Instruction | `hero_id` u8 at 0, tag of `move_to` u16 at 2 | target Vec2            |
//! | Sync        | `hero_id` u8 at 0                            | Hero                   |
//! | Hero        | tag of `target_pos` u16 at 0                 | Entity, Color, target  |
//! | Entity      |                                              | pos, vel, Hitbox       |
//! | Hitbox      | tag u16 at 0, radius at 4                    |                        |
//! | Vec2        | `x` at 0, `y` at 4                           |                        |
//! | Color       | `r` at 0, `g` at 4, `b` at 8, `a` at 12      |                        |
//!
//! Packet's tag is 0 for an instruction, 1 for a sync, 2 for a ping and 3 for
//! a measured ping. The tag of a goal is 0 for none and 1 for a point, that of
//! a hitbox 0 for none and 1 for a circle. A member that is not the one the
//! tag names is zero, and so is a pointer without a target.
//!
//! The `parsed_` functions read a message where the layout puts its fields
//! and do not look at the pointers; `Packet::read_packet` takes a message
//! only if it is, word for word, what the encoder writes for what was read.

use crate::entity::{Color, Entity, Hero, Hitbox};
use crate::geometry::{Pos2, Vec2};
use crate::packet::{InstructionPacket, Packet, SyncPacket};
use crate::wire::error::CodecError;
use crate::wire::le::{
    from_le16, from_le32, le16, le32, lemma_le16_read_back, lemma_le32_read_back, zeros,
};
use vstd::prelude::*;

verus! {

/// A pointer to a struct that starts `offset` words after the pointer, with
/// `data` words of data and `pointers` words of pointers.
pub open spec fn struct_pointer(offset: u32, data: u16, pointers: u16) -> Seq<u8> {
    le32((4 * offset) as u32) + le16(data) + le16(pointers)
}

/// The pointer to a struct of no size: its distance is minus one.
pub open spec fn empty_struct_pointer() -> Seq<u8> {
    le32(0xffff_fffc) + le16(0) + le16(0)
}

/// A vector's struct.
pub open spec fn vec2_words(v: Vec2) -> Seq<u8> {
    le32(v.x) + le32(v.y)
}

/// A colour's struct.
pub open spec fn color_words(c: Color) -> Seq<u8> {
    le32(c.r) + le32(c.g) + le32(c.b) + le32(c.a)
}

/// The tag of a hitbox.
pub open spec fn hitbox_tag(h: Hitbox) -> u16 {
    match h {
        Hitbox::Empty => 0,
        Hitbox::Circle(_) => 1,
    }
}

/// The radius of a hitbox, zero where it has none.
pub open spec fn hitbox_radius(h: Hitbox) -> u32 {
    match h {
        Hitbox::Empty => 0,
        Hitbox::Circle(r) => r,
    }
}

/// A hitbox's struct.
pub open spec fn hitbox_words(h: Hitbox) -> Seq<u8> {
    le16(hitbox_tag(h)) + zeros(2) + le32(hitbox_radius(h))
}

/// An entity's struct and what it points to.
#[verifier::opaque]
pub open spec fn entity_words(e: Entity) -> Seq<u8> {
    struct_pointer(2, 1, 0) + struct_pointer(2, 1, 0) + struct_pointer(2, 1, 0) + vec2_words(
        e.pos.into_fixed(),
    ) + vec2_words(e.vel) + hitbox_words(e.hitbox)
}

/// The tag of a goal.
pub open spec fn target_tag(t: Option<Pos2>) -> u16 {
    match t {
        None => 0,
        Some(_) => 1,
    }
}

/// The pointer to a goal's point, `offset` words ahead.
pub open spec fn target_pointer(t: Option<Pos2>, offset: u32) -> Seq<u8> {
    match t {
        None => zeros(8),
        Some(_) => struct_pointer(offset, 1, 0),
    }
}

/// A goal's point, where there is one.
pub open spec fn target_words(t: Option<Pos2>) -> Seq<u8> {
    match t {
        None => Seq::empty(),
        Some(p) => vec2_words(p.into_fixed()),
    }
}

/// A hero's struct and what it points to.
#[verifier::opaque]
pub open spec fn hero_words(h: Hero) -> Seq<u8> {
    le16(target_tag(h.target_pos)) + zeros(6) + struct_pointer(2, 0, 3) + struct_pointer(7, 2, 0)
        + target_pointer(h.target_pos, 8) + entity_words(h.entity) + color_words(h.color)
        + target_words(h.target_pos)
}

/// The byte that a hero's number travels as: its low eight bits.
pub open spec fn id_byte(id: usize) -> u8 {
    (id % 256) as u8
}

/// A sync's struct and what it points to.
#[verifier::opaque]
pub open spec fn sync_words(s: SyncPacket) -> Seq<u8> {
    seq![id_byte(s.hero_id)] + zeros(7) + struct_pointer(0, 1, 3) + hero_words(s.sync_frame)
}

/// An instruction's struct and what it points to.
#[verifier::opaque]
pub open spec fn instruction_words(i: InstructionPacket) -> Seq<u8> {
    seq![id_byte(i.hero_id), 0u8] + le16(target_tag(i.move_to)) + zeros(4) + target_pointer(
        i.move_to,
        0,
    ) + target_words(i.move_to)
}

/// The segment of a packet's message: the root pointer, the packet's struct
/// with `tag` and `ms` in its data and `pointer` as its pointer, and `rest`,
/// which is what the pointer leads to.
#[verifier::opaque]
pub open spec fn message(tag: u16, ms: u32, pointer: Seq<u8>, rest: Seq<u8>) -> Seq<u8> {
    struct_pointer(0, 1, 1) + (le16(tag) + zeros(2) + le32(ms) + pointer + rest)
}

/// The segment of a packet's message.
pub open spec fn packet_message(p: Packet) -> Seq<u8> {
    match p {
        Packet::InstructionPacket(i) => message(
            0,
            0,
            struct_pointer(0, 1, 1),
            instruction_words(i),
        ),
        Packet::SyncPacket(s) => message(1, 0, struct_pointer(0, 1, 1), sync_words(s)),
        Packet::Ping => message(2, 0, zeros(8), Seq::empty()),
        Packet::YourPing(ms) => message(3, ms, zeros(8), Seq::empty()),
    }
}

/// The segment of the handshake's reply.
pub open spec fn initial_sync_message(id: usize) -> Seq<u8> {
    struct_pointer(0, 1, 0) + seq![id_byte(id)] + zeros(7)
}

/// The segment of the handshake's opening.
pub open spec fn connect_message() -> Seq<u8> {
    empty_struct_pointer()
}

/// The vector whose struct starts at `at`.
pub open spec fn parsed_vec2(w: Seq<u8>, at: int) -> Vec2 {
    Vec2 { x: from_le32(w, at), y: from_le32(w, at + 4) }
}

/// The colour whose struct starts at `at`.
pub open spec fn parsed_color(w: Seq<u8>, at: int) -> Color {
    Color {
        r: from_le32(w, at),
        g: from_le32(w, at + 4),
        b: from_le32(w, at + 8),
        a: from_le32(w, at + 12),
    }
}

/// The hitbox whose struct starts at `at`.
pub open spec fn parsed_hitbox(w: Seq<u8>, at: int) -> Result<Hitbox, CodecError> {
    let tag = from_le16(w, at);
    if tag == 0 {
        Ok(Hitbox::Empty)
    } else if tag == 1 {
        Ok(Hitbox::Circle(from_le32(w, at + 4)))
    } else {
        Err(CodecError::UnknownTag)
    }
}

/// The goal whose tag is at `tag_at` and whose point, if the tag announces
/// one, is at `at`.
pub open spec fn parsed_target(w: Seq<u8>, tag_at: int, at: int) -> Result<
    Option<Pos2>,
    CodecError,
> {
    let tag = from_le16(w, tag_at);
    if tag == 0 {
        Ok(None)
    } else if tag == 1 {
        if w.len() < at + 8 {
            Err(CodecError::Truncated)
        } else {
            Ok(Some(Pos2::from_fixed(parsed_vec2(w, at))))
        }
    } else {
        Err(CodecError::UnknownTag)
    }
}

/// The entity whose struct starts at `at`.
#[verifier::opaque]
pub open spec fn parsed_entity(w: Seq<u8>, at: int) -> Result<Entity, CodecError> {
    if w.len() < at + 48 {
        Err(CodecError::Truncated)
    } else {
        match parsed_hitbox(w, at + 40) {
            Err(e) => Err(e),
            Ok(hitbox) => Ok(
                Entity {
                    pos: Pos2::from_fixed(parsed_vec2(w, at + 24)),
                    vel: parsed_vec2(w, at + 32),
                    hitbox,
                },
            ),
        }
    }
}

/// The hero whose struct starts at `at`.
#[verifier::opaque]
pub open spec fn parsed_hero(w: Seq<u8>, at: int) -> Result<Hero, CodecError> {
    if w.len() < at + 96 {
        Err(CodecError::Truncated)
    } else {
        match parsed_entity(w, at + 32) {
            Err(e) => Err(e),
            Ok(entity) => match parsed_target(w, at, at + 96) {
                Err(e) => Err(e),
                Ok(target_pos) => Ok(Hero { entity, color: parsed_color(w, at + 80), target_pos }),
            },
        }
    }
}

/// The sync whose struct starts at `at`.
pub open spec fn parsed_sync(w: Seq<u8>, at: int) -> Result<SyncPacket, CodecError> {
    if w.len() < at + 16 {
        Err(CodecError::Truncated)
    } else {
        match parsed_hero(w, at + 16) {
            Err(e) => Err(e),
            Ok(sync_frame) => Ok(SyncPacket { hero_id: w[at] as usize, sync_frame }),
        }
    }
}

/// The instruction whose struct starts at `at`.
pub open spec fn parsed_instruction(w: Seq<u8>, at: int) -> Result<InstructionPacket, CodecError> {
    if w.len() < at + 16 {
        Err(CodecError::Truncated)
    } else {
        match parsed_target(w, at + 2, at + 16) {
            Err(e) => Err(e),
            Ok(move_to) => Ok(InstructionPacket { hero_id: w[at] as usize, move_to }),
        }
    }
}

/// The packet of the message in segment `w`.
pub open spec fn parsed_packet(w: Seq<u8>) -> Result<Packet, CodecError> {
    if w.len() < 24 {
        Err(CodecError::Truncated)
    } else {
        let tag = from_le16(w, 8);
        if tag == 0 {
            match parsed_instruction(w, 24) {
                Err(e) => Err(e),
                Ok(i) => Ok(Packet::InstructionPacket(i)),
            }
        } else if tag == 1 {
            match parsed_sync(w, 24) {
                Err(e) => Err(e),
                Ok(s) => Ok(Packet::SyncPacket(s)),
            }
        } else if tag == 2 {
            Ok(Packet::Ping)
        } else if tag == 3 {
            Ok(Packet::YourPing(from_le32(w, 12)))
        } else {
            Err(CodecError::UnknownTag)
        }
    }
}

/// The packet that segment `w` is the message of: what its fields say, if
/// the encoder writes exactly `w` for that.
pub open spec fn decoded_packet(w: Seq<u8>) -> Result<Packet, CodecError> {
    match parsed_packet(w) {
        Err(e) => Err(e),
        Ok(p) => if packet_message(p) == w {
            Ok(p)
        } else {
            Err(CodecError::Malformed)
        },
    }
}

/// The hero number that segment `w` is the handshake's reply for.
pub open spec fn decoded_initial_sync(w: Seq<u8>) -> Result<usize, CodecError> {
    if w.len() < 16 {
        Err(CodecError::Truncated)
    } else if initial_sync_message(w[8] as usize) == w {
        Ok(w[8] as usize)
    } else {
        Err(CodecError::Malformed)
    }
}

/// Whether segment `w` is the handshake's opening.
pub open spec fn decoded_connect(w: Seq<u8>) -> Result<(), CodecError> {
    if w.len() < 8 {
        Err(CodecError::Truncated)
    } else if connect_message() == w {
        Ok(())
    } else {
        Err(CodecError::Malformed)
    }
}

/// Where a stretch of `w` is `a` followed by `b`, its front is `a` and its
/// back is `b`.
pub proof fn lemma_window(w: Seq<u8>, at: int, a: Seq<u8>, b: Seq<u8>)
    requires
        0 <= at,
        at + a.len() + b.len() <= w.len(),
        w.subrange(at, at + a.len() + b.len()) == a + b,
    ensures
        w.subrange(at, at + a.len()) == a,
        w.subrange(at + a.len(), at + a.len() + b.len()) == b,
{
    let whole = w.subrange(at, at + a.len() + b.len());
    assert forall|i: int| 0 <= i < a.len() implies w.subrange(at, at + a.len())[i] == a[i] by {
        assert(whole[i] == w[at + i]);
        assert((a + b)[i] == a[i]);
    }
    assert forall|i: int| 0 <= i < b.len() implies w.subrange(
        at + a.len(),
        at + a.len() + b.len(),
    )[i] == b[i] by {
        assert(whole[a.len() + i] == w[at + a.len() + i]);
        assert((a + b)[a.len() + i] == b[i]);
    }
    assert(w.subrange(at, at + a.len()) =~= a);
    assert(w.subrange(at + a.len(), at + a.len() + b.len()) =~= b);
}

/// Where four bytes of `w` are those of `x`, reading them gives `x`.
pub proof fn lemma_le32_at(w: Seq<u8>, at: int, x: u32)
    requires
        0 <= at,
        at + 4 <= w.len(),
        w.subrange(at, at + 4) == le32(x),
    ensures
        from_le32(w, at) == x,
{
    let s = w.subrange(at, at + 4);
    assert(s[0] == w[at] && s[1] == w[at + 1] && s[2] == w[at + 2] && s[3] == w[at + 3]);
    lemma_le32_read_back(x);
}

/// Where two bytes of `w` are those of `x`, reading them gives `x`.
pub proof fn lemma_le16_at(w: Seq<u8>, at: int, x: u16)
    requires
        0 <= at,
        at + 2 <= w.len(),
        w.subrange(at, at + 2) == le16(x),
    ensures
        from_le16(w, at) == x,
{
    let s = w.subrange(at, at + 2);
    assert(s[0] == w[at] && s[1] == w[at + 1]);
    lemma_le16_read_back(x);
}

/// How long each struct is with what it points to.
pub proof fn lemma_lengths(h: Hero, t: Option<Pos2>, offset: u32, data: u16, pointers: u16)
    ensures
        struct_pointer(offset, data, pointers).len() == 8,
        vec2_words(h.entity.vel).len() == 8,
        color_words(h.color).len() == 16,
        hitbox_words(h.entity.hitbox).len() == 8,
        entity_words(h.entity).len() == 48,
        target_pointer(t, offset).len() == 8,
        target_words(t).len() == 8 * target_tag(t),
        hero_words(h).len() == 96 + 8 * target_tag(h.target_pos),
{
    reveal(entity_words);
    reveal(hero_words);
    assert(vec2_words(h.entity.pos.into_fixed()).len() == 8);
    assert(struct_pointer(2, 1, 0).len() == 8);
    assert(struct_pointer(2, 0, 3).len() == 8);
    assert(struct_pointer(7, 2, 0).len() == 8);
    assert(struct_pointer(8, 1, 0).len() == 8);
    assert(entity_words(h.entity).len() == 48);
    match h.target_pos {
        None => {},
        Some(p) => {
            assert(vec2_words(p.into_fixed()).len() == 8);
        },
    }
    match t {
        None => {},
        Some(p) => {
            assert(vec2_words(p.into_fixed()).len() == 8);
        },
    }
}

/// How long a packet's message is: a whole number of words, eighteen at most.
pub proof fn lemma_message_length(p: Packet)
    ensures
        packet_message(p).len() % 8 == 0,
        24 <= packet_message(p).len() <= 144,
{
    reveal(message);
    reveal(instruction_words);
    reveal(sync_words);
    assert(struct_pointer(0, 1, 1).len() == 8);
    assert(zeros(8).len() == 8);
    match p {
        Packet::InstructionPacket(i) => {
            let h = Hero::spec_new(Pos2 { x: 0, y: 0 }, Color { r: 0, g: 0, b: 0, a: 0 });
            lemma_lengths(h, i.move_to, 0, 1, 0);
            assert(instruction_words(i).len() == 16 + 8 * target_tag(i.move_to));
        },
        Packet::SyncPacket(s) => {
            lemma_lengths(s.sync_frame, s.sync_frame.target_pos, 0, 1, 3);
            assert(struct_pointer(0, 1, 3).len() == 8);
            assert(sync_words(s).len() == 16 + hero_words(s.sync_frame).len());
        },
        Packet::Ping => {},
        Packet::YourPing(_) => {},
    }
}

/// Reading a vector's struct gives the vector.
pub proof fn lemma_parsed_vec2(w: Seq<u8>, at: int, v: Vec2)
    requires
        0 <= at,
        at + 8 <= w.len(),
        w.subrange(at, at + 8) == vec2_words(v),
    ensures
        parsed_vec2(w, at) == v,
{
    lemma_window(w, at, le32(v.x), le32(v.y));
    lemma_le32_at(w, at, v.x);
    lemma_le32_at(w, at + 4, v.y);
}

/// Reading a colour's struct gives the colour.
pub proof fn lemma_parsed_color(w: Seq<u8>, at: int, c: Color)
    requires
        0 <= at,
        at + 16 <= w.len(),
        w.subrange(at, at + 16) == color_words(c),
    ensures
        parsed_color(w, at) == c,
{
    lemma_window(w, at, le32(c.r) + le32(c.g) + le32(c.b), le32(c.a));
    lemma_window(w, at, le32(c.r) + le32(c.g), le32(c.b));
    lemma_window(w, at, le32(c.r), le32(c.g));
    lemma_le32_at(w, at, c.r);
    lemma_le32_at(w, at + 4, c.g);
    lemma_le32_at(w, at + 8, c.b);
    lemma_le32_at(w, at + 12, c.a);
}

/// Reading a hitbox's struct gives the hitbox.
pub proof fn lemma_parsed_hitbox(w: Seq<u8>, at: int, h: Hitbox)
    requires
        0 <= at,
        at + 8 <= w.len(),
        w.subrange(at, at + 8) == hitbox_words(h),
    ensures
        parsed_hitbox(w, at) == Ok::<Hitbox, CodecError>(h),
{
    lemma_window(w, at, le16(hitbox_tag(h)) + zeros(2), le32(hitbox_radius(h)));
    lemma_window(w, at, le16(hitbox_tag(h)), zeros(2));
    lemma_le16_at(w, at, hitbox_tag(h));
    lemma_le32_at(w, at + 4, hitbox_radius(h));
}

/// Reading a goal's tag and point gives the goal.
pub proof fn lemma_parsed_target(w: Seq<u8>, tag_at: int, at: int, t: Option<Pos2>)
    requires
        0 <= tag_at,
        tag_at + 2 <= w.len(),
        w.subrange(tag_at, tag_at + 2) == le16(target_tag(t)),
        0 <= at,
        at + target_words(t).len() <= w.len(),
        w.subrange(at, at + target_words(t).len()) == target_words(t),
    ensures
        parsed_target(w, tag_at, at) == Ok::<Option<Pos2>, CodecError>(t),
{
    lemma_le16_at(w, tag_at, target_tag(t));
    match t {
        None => {},
        Some(p) => {
            assert(vec2_words(p.into_fixed()).len() == 8);
            lemma_parsed_vec2(w, at, p.into_fixed());
        },
    }
}

/// Reading an entity's struct and what it points to gives the entity.
pub proof fn lemma_parsed_entity(w: Seq<u8>, at: int, e: Entity)
    requires
        0 <= at,
        at + 48 <= w.len(),
        w.subrange(at, at + 48) == entity_words(e),
    ensures
        parsed_entity(w, at) == Ok::<Entity, CodecError>(e),
{
    reveal(entity_words);
    reveal(parsed_entity);
    let p = struct_pointer(2, 1, 0);
    let pos = vec2_words(e.pos.into_fixed());
    let vel = vec2_words(e.vel);
    let hit = hitbox_words(e.hitbox);
    assert(p.len() == 8 && pos.len() == 8 && vel.len() == 8 && hit.len() == 8);
    lemma_window(w, at, p + p + p + pos + vel, hit);
    lemma_window(w, at, p + p + p + pos, vel);
    lemma_window(w, at, p + p + p, pos);
    lemma_parsed_vec2(w, at + 24, e.pos.into_fixed());
    lemma_parsed_vec2(w, at + 32, e.vel);
    lemma_parsed_hitbox(w, at + 40, e.hitbox);
}

/// Reading a hero's struct and what it points to gives the hero.
pub proof fn lemma_parsed_hero(w: Seq<u8>, at: int, h: Hero)
    requires
        0 <= at,
        at + hero_words(h).len() <= w.len(),
        w.subrange(at, at + hero_words(h).len()) == hero_words(h),
    ensures
        parsed_hero(w, at) == Ok::<Hero, CodecError>(h),
{
    reveal(hero_words);
    reveal(parsed_hero);
    lemma_lengths(h, h.target_pos, 8, 1, 0);
    let tag = le16(target_tag(h.target_pos));
    let pad = zeros(6);
    let p1 = struct_pointer(2, 0, 3);
    let p2 = struct_pointer(7, 2, 0);
    let p3 = target_pointer(h.target_pos, 8);
    let ent = entity_words(h.entity);
    let col = color_words(h.color);
    let tgt = target_words(h.target_pos);
    assert(p1.len() == 8 && p2.len() == 8);
    lemma_window(w, at, tag + pad + p1 + p2 + p3 + ent + col, tgt);
    lemma_window(w, at, tag + pad + p1 + p2 + p3 + ent, col);
    lemma_window(w, at, tag + pad + p1 + p2 + p3, ent);
    lemma_window(w, at, tag + pad + p1 + p2, p3);
    lemma_window(w, at, tag + pad + p1, p2);
    lemma_window(w, at, tag + pad, p1);
    lemma_window(w, at, tag, pad);
    lemma_parsed_entity(w, at + 32, h.entity);
    lemma_parsed_color(w, at + 80, h.color);
    lemma_parsed_target(w, at, at + 96, h.target_pos);
}

/// Reading a sync's struct and what it points to gives the sync, if the
/// hero's number fits in a byte.
pub proof fn lemma_parsed_sync(w: Seq<u8>, at: int, s: SyncPacket)
    requires
        s.hero_id < 256,
        0 <= at,
        at + sync_words(s).len() <= w.len(),
        w.subrange(at, at + sync_words(s).len()) == sync_words(s),
    ensures
        parsed_sync(w, at) == Ok::<SyncPacket, CodecError>(s),
{
    reveal(sync_words);
    let h = s.sync_frame;
    lemma_lengths(h, h.target_pos, 0, 1, 3);
    let id = seq![id_byte(s.hero_id)];
    assert(struct_pointer(0, 1, 3).len() == 8);
    let pad = zeros(7);
    let p = struct_pointer(0, 1, 3);
    let hero = hero_words(h);
    lemma_window(w, at, id + pad + p, hero);
    lemma_window(w, at, id + pad, p);
    lemma_window(w, at, id, pad);
    assert(w.subrange(at, at + 1)[0] == w[at]);
    lemma_parsed_hero(w, at + 16, h);
}

/// Reading an instruction's struct and its goal gives the instruction, if
/// the hero's number fits in a byte.
pub proof fn lemma_parsed_instruction(w: Seq<u8>, at: int, i: InstructionPacket)
    requires
        i.hero_id < 256,
        0 <= at,
        at + instruction_words(i).len() <= w.len(),
        w.subrange(at, at + instruction_words(i).len()) == instruction_words(i),
    ensures
        parsed_instruction(w, at) == Ok::<InstructionPacket, CodecError>(i),
{
    reveal(instruction_words);
    let h = Hero::spec_new(Pos2 { x: 0, y: 0 }, Color { r: 0, g: 0, b: 0, a: 0 });
    lemma_lengths(h, i.move_to, 0, 1, 0);
    let id = seq![id_byte(i.hero_id), 0u8];
    let tag = le16(target_tag(i.move_to));
    let pad = zeros(4);
    let p = target_pointer(i.move_to, 0);
    let tgt = target_words(i.move_to);
    lemma_window(w, at, id + tag + pad + p, tgt);
    lemma_window(w, at, id + tag + pad, p);
    lemma_window(w, at, id + tag, pad);
    lemma_window(w, at, id, tag);
    assert(w.subrange(at, at + 2)[0] == w[at]);
    lemma_parsed_target(w, at + 2, at + 16, i.move_to);
}

/// Whether every hero number in a packet fits in the byte that carries it.
pub open spec fn in_range(p: Packet) -> bool {
    match p {
        Packet::InstructionPacket(i) => i.hero_id < 256,
        Packet::SyncPacket(s) => s.hero_id < 256,
        Packet::Ping => true,
        Packet::YourPing(_) => true,
    }
}

/// Reading the packet struct of a message gives its tag and, for a measured
/// ping, the measure; what the struct points to follows it.
proof fn lemma_parsed_packet_head(tag: u16, ms: u32, pointer: Seq<u8>, rest: Seq<u8>)
    requires
        pointer.len() == 8,
    ensures
        message(tag, ms, pointer, rest).len() == 24 + rest.len(),
        from_le16(message(tag, ms, pointer, rest), 8) == tag,
        from_le32(message(tag, ms, pointer, rest), 12) == ms,
        message(tag, ms, pointer, rest).subrange(24, 24 + rest.len() as int) == rest,
{
    reveal(message);
    let w = message(tag, ms, pointer, rest);
    let root = struct_pointer(0, 1, 1);
    let head = le16(tag) + zeros(2) + le32(ms) + pointer;
    assert(root.len() == 8);
    assert(head.len() == 16);
    assert(w.subrange(0, w.len() as int) =~= w);
    lemma_window(w, 0, root, head + rest);
    lemma_window(w, 8, head, rest);
    lemma_window(w, 8, le16(tag) + zeros(2) + le32(ms), pointer);
    lemma_window(w, 8, le16(tag) + zeros(2), le32(ms));
    lemma_window(w, 8, le16(tag), zeros(2));
    lemma_le16_at(w, 8, tag);
    lemma_le32_at(w, 12, ms);
}

/// Reading the message of an instruction gives the instruction.
proof fn lemma_parsed_instruction_message(i: InstructionPacket)
    requires
        i.hero_id < 256,
    ensures
        parsed_packet(packet_message(Packet::InstructionPacket(i))) == Ok::<Packet, CodecError>(
            Packet::InstructionPacket(i),
        ),
{
    let root = struct_pointer(0, 1, 1);
    let rest = instruction_words(i);
    let w = message(0, 0, root, rest);
    assert(root.len() == 8);
    lemma_parsed_packet_head(0, 0, root, rest);
    lemma_parsed_instruction(w, 24, i);
}

/// Reading the message of a sync gives the sync.
proof fn lemma_parsed_sync_message(s: SyncPacket)
    requires
        s.hero_id < 256,
    ensures
        parsed_packet(packet_message(Packet::SyncPacket(s))) == Ok::<Packet, CodecError>(
            Packet::SyncPacket(s),
        ),
{
    let root = struct_pointer(0, 1, 1);
    let rest = sync_words(s);
    let w = message(1, 0, root, rest);
    assert(root.len() == 8);
    lemma_parsed_packet_head(1, 0, root, rest);
    lemma_parsed_sync(w, 24, s);
}

/// Reading the message of a probe or of a measure gives it back.
proof fn lemma_parsed_ping_message(p: Packet)
    requires
        p is Ping || p is YourPing,
    ensures
        parsed_packet(packet_message(p)) == Ok::<Packet, CodecError>(p),
{
    let none = Seq::<u8>::empty();
    assert(zeros(8).len() == 8);
    match p {
        Packet::YourPing(ms) => {
            lemma_parsed_packet_head(3, ms, zeros(8), none);
        },
        _ => {
            lemma_parsed_packet_head(2, 0, zeros(8), none);
        },
    }
}

/// Decoding the segment of a packet's message gives the packet, if its hero
/// number fits in a byte.
pub proof fn lemma_decoded_packet(p: Packet)
    requires
        in_range(p),
    ensures
        decoded_packet(packet_message(p)) == Ok::<Packet, CodecError>(p),
{
    match p {
        Packet::InstructionPacket(i) => lemma_parsed_instruction_message(i),
        Packet::SyncPacket(s) => lemma_parsed_sync_message(s),
        _ => lemma_parsed_ping_message(p),
    }
}

/// Decoding the segment of the handshake's reply gives the hero number, if it
/// fits in a byte.
pub proof fn lemma_decoded_initial_sync(id: usize)
    requires
        id < 256,
    ensures
        decoded_initial_sync(initial_sync_message(id)) == Ok::<usize, CodecError>(id),
        initial_sync_message(id).len() == 16,
{
    let w = initial_sync_message(id);
    assert(struct_pointer(0, 1, 0).len() == 8);
    assert(w[8] == id_byte(id));
}

/// Decoding the segment of the handshake's opening succeeds.
pub proof fn lemma_decoded_connect()
    ensures
        decoded_connect(connect_message()) == Ok::<(), CodecError>(()),
        connect_message().len() == 8,
{
}

} // verus!

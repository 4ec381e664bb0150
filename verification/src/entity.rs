//! Heroes and what one tick does to them.
//!
//! Coordinates are bit patterns (see `geometry`), so the two pieces of
//! arithmetic that a tick needs come from the caller: how a hero stands to
//! its target (`Approach`), and where an entity's velocity takes it in the
//! tick's time. What is decided here is everything else: when a hero snaps to
//! its target, when its velocity is replaced, and that a velocity lasts one
//! tick.

use crate::geometry::{Pos2, Vec2};
use crate::packet::InstructionPacket;
use vstd::prelude::*;

verus! {

/// The region that an entity occupies.
#[derive(Clone, Copy, Debug, PartialEq, Eq, Structural)]
pub enum Hitbox {
    /// No region at all.
    Empty,
    /// A circle of the given radius.
    Circle(u32),
}

/// A thing with a position and, for the length of one tick, a velocity.
#[derive(Clone, Copy, Debug, PartialEq, Eq, Structural)]
pub struct Entity {
    pub pos: Pos2,
    pub vel: Vec2,
    pub hitbox: Hitbox,
}

/// Red, green, blue and opacity.
#[derive(Clone, Copy, Debug, PartialEq, Eq, Structural)]
pub struct Color {
    pub r: u32,
    pub g: u32,
    pub b: u32,
    pub a: u32,
}

/// A player's character.
#[derive(Clone, Copy, Debug, PartialEq, Eq, Structural)]
pub struct Hero {
    pub entity: Entity,
    /// Chosen once, when the hero is made.
    pub color: Color,
    /// Where the hero is heading; `None` when it has no goal.
    pub target_pos: Option<Pos2>,
}

/// How a hero stands to its target, as the caller's arithmetic finds it.
#[derive(Clone, Copy, Debug, PartialEq, Eq, Structural)]
pub enum Approach {
    /// The target is less than one unit away.
    Arrived,
    /// The target is farther: the velocity that points at it, at the hero's
    /// speed.
    Heading(Vec2),
}

impl Entity {
    /// Ends a tick: the entity stands at `moved`, which the caller has found
    /// as position plus velocity times the tick's length, and its velocity is
    /// spent.
    pub fn update(&mut self, moved: Pos2)
        ensures
            final(self).pos == moved,
            final(self).vel == Vec2::zero(),
            final(self).hitbox == old(self).hitbox,
    {
        self.pos = moved;
        self.vel = Vec2::zero();
    }
}

impl Hero {
    /// What `new` returns.
    pub open spec fn spec_new(sp: Pos2, color: Color) -> Hero {
        Hero {
            entity: Entity { pos: sp, vel: Vec2::zero(), hitbox: Hitbox::Empty },
            color,
            target_pos: None,
        }
    }

    /// A hero at rest at `sp`, with no goal and no hitbox.
    pub fn new(sp: Pos2, color: Color) -> (hero: Hero)
        ensures
            hero == Hero::spec_new(sp, color),
    {
        Hero {
            entity: Entity { pos: sp, vel: Vec2::zero(), hitbox: Hitbox::Empty },
            color,
            target_pos: None,
        }
    }

    /// The hero after an instruction: its goal is the instruction's.
    pub open spec fn instructed(self, instr: InstructionPacket) -> Hero {
        Hero { target_pos: instr.move_to, ..self }
    }

    /// Takes an instruction: the hero's goal becomes the instruction's, be it
    /// a point or none.
    pub fn instruct(&mut self, instr: InstructionPacket)
        ensures
            *final(self) == old(self).instructed(instr),
    {
        self.target_pos = instr.move_to;
    }

    /// The hero after steering by `approach`.
    pub open spec fn steered(self, approach: Approach) -> Hero {
        match self.target_pos {
            None => self,
            Some(dest) => match approach {
                Approach::Arrived => Hero {
                    entity: Entity { pos: dest, ..self.entity },
                    target_pos: None,
                    ..self
                },
                Approach::Heading(vel) => Hero { entity: Entity { vel, ..self.entity }, ..self },
            },
        }
    }

    /// Steers the hero for one tick. With no goal nothing changes. With a
    /// goal that `approach` says is reached, the hero stands exactly on it and
    /// the goal is cleared; otherwise its velocity becomes the heading. The
    /// caller then moves the entity and calls `Entity::update`.
    pub fn update(&mut self, approach: Approach)
        ensures
            *final(self) == old(self).steered(approach),
    {
        if let Some(dest) = self.target_pos {
            match approach {
                Approach::Arrived => {
                    self.entity.pos = dest;
                    self.target_pos = None;
                },
                Approach::Heading(vel) => {
                    self.entity.vel = vel;
                },
            }
        }
    }
}

} // verus!

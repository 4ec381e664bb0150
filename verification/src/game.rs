//! The game as one participant sees it: the two heroes, the local player's
//! pending instruction, and the network state. One tick applies the local
//! instruction and sends it, applies what has arrived, and sends a heartbeat
//! when one is due. Moving the heroes is arithmetic on coordinates and
//! follows the tick, through `Hero::update` and `Entity::update`.

use crate::entity::{Color, Hero};
use crate::geometry::Pos2;
use crate::net::{now, poll, ChannelDisconnected, Delivery, NetController, NetView, Timestamp};
use crate::packet::{InstructionPacket, Packet, SyncPacket};
use vstd::prelude::*;

verus! {

/// The number of heroes, one for each participant.
pub const PARTICIPANTS: usize = 2;

/// The bit pattern of 100.
pub const BITS_100: u32 = 0x42c8_0000;

/// The bit pattern of 200.
pub const BITS_200: u32 = 0x4348_0000;

/// The bit pattern of 300.
pub const BITS_300: u32 = 0x4396_0000;

/// The largest count of ticks since a heartbeat that a tick can start from.
pub const MAX_SYNC_COUNT: usize = 420;

/// Where hero 0 starts: (100, 100).
pub open spec fn spec_spawn_point() -> Pos2 {
    Pos2 { x: BITS_100, y: BITS_100 }
}

/// Where hero 0 starts: (100, 100).
#[verifier::when_used_as_spec(spec_spawn_point)]
pub fn spawn_point() -> (p: Pos2)
    ensures
        p == spec_spawn_point(),
{
    Pos2 { x: BITS_100, y: BITS_100 }
}

/// Where hero 1 starts: (200, 300).
pub open spec fn spec_other_spawn_point() -> Pos2 {
    Pos2 { x: BITS_200, y: BITS_300 }
}

/// Where hero 1 starts: (200, 300).
#[verifier::when_used_as_spec(spec_other_spawn_point)]
pub fn other_spawn_point() -> (p: Pos2)
    ensures
        p == spec_other_spawn_point(),
{
    Pos2 { x: BITS_200, y: BITS_300 }
}

/// What the local player pressed.
#[derive(Clone, Copy, Debug, PartialEq, Eq, Structural)]
pub enum Button {
    /// The key that turns debugging on.
    KeyD,
    /// Any other key or mouse button.
    Other,
}

/// Why a tick stopped early.
#[derive(Clone, Copy, Debug, PartialEq, Eq, Structural)]
pub enum GameError {
    /// The receiver pipeline has ended.
    ChannelDisconnected,
    /// A packet names a hero that does not exist.
    NoSuchHero(usize),
}

/// The local player's latest intent, kept until the next tick sends it.
#[derive(Clone, Copy, Debug, PartialEq, Eq, Structural)]
pub struct Controller {
    pub hero_id: usize,
    /// Whether `instruction_packet` has yet to be applied and sent.
    pub dirty: bool,
    pub instruction_packet: InstructionPacket,
}

impl Controller {
    /// A controller of hero `id` with nothing to send.
    pub fn new(id: usize) -> (c: Controller)
        ensures
            c == (Controller {
                hero_id: id,
                dirty: false,
                instruction_packet: InstructionPacket { hero_id: id, move_to: None },
            }),
    {
        Controller { hero_id: id, dirty: false, instruction_packet: InstructionPacket::new(id) }
    }

    /// The controller after `refresh`.
    pub open spec fn refreshed(self) -> Controller {
        if self.dirty {
            Controller {
                dirty: false,
                instruction_packet: InstructionPacket { hero_id: self.hero_id, move_to: None },
                ..self
            }
        } else {
            self
        }
    }

    /// Forgets an instruction that has been sent: a dirty controller gets a
    /// fresh, empty instruction and is clean.
    pub fn refresh(&mut self)
        ensures
            *final(self) == old(self).refreshed(),
    {
        if !self.dirty {
            return ;
        }
        self.instruction_packet = InstructionPacket::new(self.hero_id);
        self.dirty = false;
    }
}

/// One participant's game.
pub struct Game {
    pub net_controller: NetController,
    pub controller: Controller,
    /// The roster, indexed by hero number.
    pub heroes: Vec<Hero>,
    /// Where the pointer was seen last.
    pub cursor: Pos2,
    pub debug: bool,
}

/// A game as plain values.
pub struct GameView {
    pub net: NetView,
    pub controller: Controller,
    pub heroes: Seq<Hero>,
    pub cursor: Pos2,
    pub debug: bool,
}

impl View for Game {
    type V = GameView;

    open spec fn view(&self) -> GameView {
        GameView {
            net: self.net_controller@,
            controller: self.controller,
            heroes: self.heroes@,
            cursor: self.cursor,
            debug: self.debug,
        }
    }
}

impl GameView {
    /// Whether the roster is complete and the controller belongs to one of
    /// its heroes.
    pub open spec fn wf(self) -> bool {
        &&& self.heroes.len() == PARTICIPANTS
        &&& self.controller.hero_id < PARTICIPANTS
        &&& self.controller.instruction_packet.hero_id == self.controller.hero_id
        &&& self.net.frames_since_last_sync <= MAX_SYNC_COUNT
    }

    /// With hero `ip.hero_id` instructed.
    pub open spec fn instructed(self, ip: InstructionPacket) -> GameView {
        GameView {
            heroes: self.heroes.update(
                ip.hero_id as int,
                self.heroes[ip.hero_id as int].instructed(ip),
            ),
            ..self
        }
    }

    /// With hero `sp.hero_id` replaced by the snapshot.
    pub open spec fn synced(self, sp: SyncPacket) -> GameView {
        GameView { heroes: self.heroes.update(sp.hero_id as int, sp.sync_frame), ..self }
    }

    /// With a heartbeat of the controlled hero queued.
    pub open spec fn heartbeat_sent(self) -> GameView {
        GameView {
            net: self.net.synced(
                SyncPacket {
                    hero_id: self.controller.hero_id,
                    sync_frame: self.heroes[self.controller.hero_id as int],
                },
            ),
            ..self
        }
    }

    /// After the pointer was seen at (`x`, `y`).
    pub open spec fn pointed(self, x: u32, y: u32) -> GameView {
        GameView { cursor: Pos2 { x, y }, ..self }
    }

    /// After the local player pressed `button`.
    pub open spec fn pressed(self, button: Button) -> GameView {
        GameView {
            debug: self.debug || button == Button::KeyD,
            controller: Controller {
                dirty: true,
                instruction_packet: InstructionPacket {
                    move_to: Some(self.cursor),
                    ..self.controller.instruction_packet
                },
                ..self.controller
            },
            ..self
        }
    }

    /// The first step of a tick: a pending instruction of the local player
    /// is applied to its hero and queued for the peer.
    pub open spec fn flushed(self) -> GameView {
        if self.controller.dirty {
            let ip = self.controller.instruction_packet;
            GameView { net: self.net.sending(Packet::InstructionPacket(ip)), ..self.instructed(ip) }
        } else {
            self
        }
    }

    /// What one packet that has arrived does, handled at the moment `now`.
    /// A packet that names a hero outside the roster does nothing and is an
    /// error.
    pub open spec fn dispatched(self, packet: Packet, now: Timestamp) -> (GameView, Result<
        (),
        GameError,
    >) {
        match packet {
            Packet::InstructionPacket(ip) => if ip.hero_id < self.heroes.len() {
                (self.instructed(ip), Ok(()))
            } else {
                (self, Err(GameError::NoSuchHero(ip.hero_id)))
            },
            Packet::SyncPacket(sp) => if sp.hero_id < self.heroes.len() {
                (self.synced(sp), Ok(()))
            } else {
                (self, Err(GameError::NoSuchHero(sp.hero_id)))
            },
            Packet::Ping => (GameView { net: self.net.pinged(now), ..self }, Ok(())),
            Packet::YourPing(p) => (GameView { net: self.net.measured(p), ..self }, Ok(())),
        }
    }

    /// After the pending packets were handled, newest first, up to and with
    /// the first that is an error.
    pub open spec fn drained(self, now: Timestamp) -> (GameView, Result<(), GameError>)
        decreases self.net.packets.len(),
    {
        match self.net.newest() {
            None => (self, Ok(())),
            Some(packet) => {
                let (next, r) = GameView { net: self.net.taken(), ..self }.dispatched(packet, now);
                if r is Err {
                    (next, r)
                } else {
                    next.drained(now)
                }
            },
        }
    }

    /// The last steps of a tick: the tick is counted, a heartbeat is sent if
    /// one is due, and the controller is refreshed.
    pub open spec fn closed(self) -> GameView {
        let counted = GameView { net: self.net.counted(), ..self };
        let beaten = if counted.net.sync_due() {
            counted.heartbeat_sent()
        } else {
            counted
        };
        GameView { controller: beaten.controller.refreshed(), ..beaten }
    }

    /// One tick, given what the look into the channel finds and what the
    /// clock shows. The tick stops at the first error, with everything up to
    /// there done.
    pub open spec fn ticked(self, delivery: Delivery, now: Timestamp) -> (GameView, Result<
        (),
        GameError,
    >) {
        let flushed = self.flushed();
        if delivery == Delivery::Disconnected {
            (flushed, Err(GameError::ChannelDisconnected))
        } else {
            let (drained, r) = GameView { net: flushed.net.accepted(delivery), ..flushed }.drained(
                now,
            );
            if r is Err {
                (drained, r)
            } else {
                (drained.closed(), Ok(()))
            }
        }
    }
}

impl Game {
    /// A new game around an established controller: hero 0 at (100, 100),
    /// hero 1 at (200, 300), each in its colour, the pointer at the origin.
    pub fn new(nc: NetController, colors: [Color; 2]) -> (game: Game)
        requires
            nc.assigned_hero_id < PARTICIPANTS,
            nc.frames_since_last_sync <= MAX_SYNC_COUNT,
        ensures
            game@ == (GameView {
                net: nc@,
                controller: Controller {
                    hero_id: nc.assigned_hero_id,
                    dirty: false,
                    instruction_packet: InstructionPacket {
                        hero_id: nc.assigned_hero_id,
                        move_to: None,
                    },
                },
                heroes: seq![
                    Hero::spec_new(spawn_point(), colors[0]),
                    Hero::spec_new(other_spawn_point(), colors[1]),
                ],
                cursor: Pos2 { x: 0, y: 0 },
                debug: false,
            }),
            game@.wf(),
    {
        let id = nc.assigned_hero_id;
        let mut heroes: Vec<Hero> = Vec::new();
        heroes.push(Hero::new(spawn_point(), colors[0]));
        heroes.push(Hero::new(other_spawn_point(), colors[1]));
        let game = Game {
            net_controller: nc,
            controller: Controller::new(id),
            heroes,
            cursor: Pos2::new(0, 0),
            debug: false,
        };
        assert(game@.heroes =~= seq![
            Hero::spec_new(spawn_point(), colors[0]),
            Hero::spec_new(other_spawn_point(), colors[1]),
        ]);
        game
    }

    /// Takes note of where the pointer is.
    pub fn update_cursor(&mut self, x: u32, y: u32)
        ensures
            final(self)@ == old(self)@.pointed(x, y),
    {
        self.cursor = Pos2::new(x, y);
    }

    /// Takes a press of the local player: the controlled hero is to head for
    /// where the pointer is. The debug key also turns debugging on.
    pub fn input_press(&mut self, button: Button)
        ensures
            final(self)@ == old(self)@.pressed(button),
    {
        if let Button::KeyD = button {
            self.debug = true;
        }
        self.controller.instruction_packet.move_to = Some(Pos2::new(self.cursor.x, self.cursor.y));
        self.controller.dirty = true;
    }

    /// Hands an instruction to the hero that it names.
    pub fn instruct_hero(&mut self, ip: InstructionPacket)
        requires
            ip.hero_id < old(self).heroes.len(),
        ensures
            final(self)@ == old(self)@.instructed(ip),
    {
        let mut hero = self.heroes[ip.hero_id];
        hero.instruct(ip);
        self.heroes.set(ip.hero_id, hero);
    }

    /// Replaces the hero that a snapshot names by the snapshot, whatever the
    /// hero was doing.
    pub fn sync_hero(&mut self, sp: SyncPacket)
        requires
            sp.hero_id < old(self).heroes.len(),
        ensures
            final(self)@ == old(self)@.synced(sp),
    {
        self.heroes.set(sp.hero_id, sp.sync_frame);
    }

    /// The roster as it is to be drawn.
    pub fn render_state(&self) -> (roster: Vec<Hero>)
        ensures
            roster@ == self@.heroes,
    {
        let mut roster: Vec<Hero> = Vec::new();
        let mut i: usize = 0;
        while i < self.heroes.len()
            invariant
                i <= self.heroes.len(),
                roster@ == self.heroes@.subrange(0, i as int),
            decreases self.heroes.len() - i,
        {
            roster.push(self.heroes[i]);
            assert(roster@ =~= self.heroes@.subrange(0, i + 1));
            i = i + 1;
        }
        assert(self.heroes@.subrange(0, i as int) =~= self.heroes@);
        roster
    }

    /// Queues a heartbeat: a snapshot of the controlled hero.
    pub fn send_controlled_hero_sync(&mut self)
        requires
            old(self).controller.hero_id < old(self).heroes.len(),
        ensures
            final(self)@ == old(self)@.heartbeat_sent(),
    {
        let controlled_hero = self.heroes[self.controller.hero_id];
        let sync_packet = SyncPacket::new(self.controller.hero_id, controlled_hero);
        self.net_controller.send_sync_packet(sync_packet);
    }

    /// Handles one packet that has arrived, at the moment `now`.
    pub fn dispatch(&mut self, packet: Packet, now: Timestamp) -> (r: Result<(), GameError>)
        ensures
            (final(self)@, r) == old(self)@.dispatched(packet, now),
    {
        match packet {
            Packet::InstructionPacket(ip) => {
                if ip.hero_id < self.heroes.len() {
                    self.instruct_hero(ip);
                    Ok(())
                } else {
                    Err(GameError::NoSuchHero(ip.hero_id))
                }
            },
            Packet::SyncPacket(sp) => {
                if sp.hero_id < self.heroes.len() {
                    self.sync_hero(sp);
                    Ok(())
                } else {
                    Err(GameError::NoSuchHero(sp.hero_id))
                }
            },
            Packet::Ping => {
                self.net_controller.handle_ping_at(now);
                Ok(())
            },
            Packet::YourPing(p) => {
                self.net_controller.update_ping(p);
                Ok(())
            },
        }
    }

    /// Handles the pending packets, newest first, until none is left or one
    /// is an error.
    pub fn drain(&mut self, now: Timestamp) -> (r: Result<(), GameError>)
        ensures
            (final(self)@, r) == old(self)@.drained(now),
    {
        loop
            invariant
                self@.drained(now) == old(self)@.drained(now),
            decreases self.net_controller.packets.len(),
        {
            let ghost before = self@;
            match self.net_controller.next() {
                None => {
                    return Ok(());
                },
                Some(packet) => {
                    assert(self@ == GameView { net: before.net.taken(), ..before });
                    let r = self.dispatch(packet, now);
                    if r.is_err() {
                        return r;
                    }
                },
            }
        }
    }

    /// One tick, given what the look into the channel finds and what the
    /// clock shows.
    pub fn tick(&mut self, delivery: Delivery, now: Timestamp) -> (r: Result<(), GameError>)
        requires
            old(self)@.wf(),
        ensures
            (final(self)@, r) == old(self)@.ticked(delivery, now),
            final(self)@.wf(),
    {
        if self.controller.dirty {
            let ip = self.controller.instruction_packet;
            self.instruct_hero(ip);
            self.net_controller.send_instruction(ip);
        }
        let ghost flushed = self@;
        match self.net_controller.accept(delivery) {
            Err(ChannelDisconnected) => {
                return Err(GameError::ChannelDisconnected);
            },
            Ok(_) => {},
        }
        assert(self@ == GameView { net: flushed.net.accepted(delivery), ..flushed });
        proof {
            lemma_drained_keeps(self@, now);
        }
        let r = self.drain(now);
        if r.is_err() {
            return r;
        }
        if self.net_controller.poke_sync() {
            self.send_controlled_hero_sync();
        }
        self.controller.refresh();
        Ok(())
    }

    /// One tick: looks at the clock and into the channel, and does with what
    /// they show what `tick` does.
    pub fn update(&mut self) -> (r: Result<(), GameError>)
        requires
            old(self)@.wf(),
        ensures
            exists|delivery: Delivery, now: Timestamp|
                now.in_second() && (final(self)@, r) == old(self)@.ticked(delivery, now),
            final(self)@.wf(),
    {
        let t = now();
        let delivery = poll(&self.net_controller.net_thread_outbox);
        self.tick(delivery, t)
    }
}

/// Handling the pending packets keeps the roster complete, the controller as
/// it is and the tick count as it is.
pub proof fn lemma_drained_keeps(game: GameView, now: Timestamp)
    ensures
        game.drained(now).0.heroes.len() == game.heroes.len(),
        game.drained(now).0.controller == game.controller,
        game.drained(now).0.net.frames_since_last_sync == game.net.frames_since_last_sync,
    decreases game.net.packets.len(),
{
    match game.net.newest() {
        None => {},
        Some(packet) => {
            let (next, r) = GameView { net: game.net.taken(), ..game }.dispatched(packet, now);
            if r is Ok {
                lemma_drained_keeps(next, now);
            }
        },
    }
}

/// A snapshot that arrives replaces the hero it names, whatever an
/// instruction had made of that hero before.
pub proof fn lemma_sync_overwrites(game: GameView, ip: InstructionPacket, sp: SyncPacket)
    requires
        ip.hero_id == sp.hero_id,
        sp.hero_id < game.heroes.len(),
    ensures
        game.instructed(ip).synced(sp).heroes == game.synced(sp).heroes,
        game.synced(sp).heroes[sp.hero_id as int] == sp.sync_frame,
{
    assert(game.instructed(ip).synced(sp).heroes =~= game.synced(sp).heroes);
}

} // verus!

//! The entity store: every live object of a game, kept in one table per kind.
use vstd::prelude::*;
use crate::grid::Pos;
use crate::timer::Timer;

verus! {

/// Largest blast radius a player or a bomb may carry.
pub const MAX_POWER: u64 = 65536;

/// A player-controlled character.
#[derive(Clone, Copy, Debug, PartialEq, Eq, Structural)]
pub struct Player {
    pub entity: u64,
    pub pos: Pos,
    /// Blast radius, in tiles, handed to the bombs this player places.
    pub power: u64,
    /// Bombs of this player that are placed and not yet recovered.
    pub current: u64,
    /// How many bombs this player may have placed at once.
    pub max: u64,
    pub speed: u64,
    pub stopped: bool,
}

/// A placed bomb. Once no player overlaps it, it carries the wall marker.
#[derive(Clone, Copy, Debug, PartialEq, Eq, Structural)]
pub struct Bomb {
    pub owner: u64,
    pub pos: Pos,
    pub power: u64,
    pub timer: Timer,
    pub wall: bool,
}

/// One tile of a blast.
#[derive(Clone, Copy, Debug, PartialEq, Eq, Structural)]
pub struct Fire {
    pub pos: Pos,
    pub timer: Timer,
}

/// What a destructible object is, and so what fire does to it.
#[derive(Clone, Copy, Debug, PartialEq, Eq, Structural)]
pub enum Destructable {
    Player,
    NormalBox,
    PowerBuffBox,
    SpeedBuffBox,
    BombNumberBuffBox,
}

/// An object that fire destroys.
#[derive(Clone, Copy, Debug, PartialEq, Eq, Structural)]
pub struct Destructible {
    pub entity: u64,
    pub kind: Destructable,
    pub pos: Pos,
}

/// The kinds of pickup.
#[derive(Clone, Copy, Debug, PartialEq, Eq, Structural)]
pub enum Buff {
    PowerBuff,
    SpeedBuff,
    BombNumberBuff,
}

/// A pickup lying in the world.
#[derive(Clone, Copy, Debug, PartialEq, Eq, Structural)]
pub struct BuffItem {
    pub kind: Buff,
    pub pos: Pos,
}

/// A computer-controlled character; only its pause marker concerns this library.
#[derive(Clone, Copy, Debug, PartialEq, Eq, Structural)]
pub struct Creature {
    pub entity: u64,
    pub stopped: bool,
}

/// All live objects of a game, and the events that wait to be consumed.
pub struct World {
    pub players: Vec<Player>,
    pub bombs: Vec<Bomb>,
    pub fires: Vec<Fire>,
    pub walls: Vec<Pos>,
    pub destructibles: Vec<Destructible>,
    pub buffs: Vec<BuffItem>,
    pub portals: Vec<Pos>,
    pub creatures: Vec<Creature>,
    pub animations: Vec<Timer>,
    /// Owners of detonated bombs, waiting for their capacity to come back.
    pub recovery_events: Vec<u64>,
    /// Entities that fire has caught.
    pub game_over_events: Vec<u64>,
    /// Players that reached a portal.
    pub victory_events: Vec<u64>,
    /// The identity the next spawned entity receives.
    pub next_entity: u64,
}

impl Player {
    pub open spec fn wf(self) -> bool {
        &&& self.pos.in_field()
        &&& self.power <= MAX_POWER
        &&& self.current <= self.max
    }
}

impl Bomb {
    pub open spec fn wf(self) -> bool {
        &&& self.pos.in_field()
        &&& self.power <= MAX_POWER
        &&& self.timer.wf()
    }
}

/// No two players share an identity.
pub open spec fn ids_unique(ps: Seq<Player>) -> bool {
    forall|i: int, j: int| 0 <= i < ps.len() && 0 <= j < ps.len() && i != j
        ==> ps[i].entity != ps[j].entity
}

/// No two bombs share a tile.
pub open spec fn tiles_unique(bs: Seq<Bomb>) -> bool {
    forall|i: int, j: int| 0 <= i < bs.len() && 0 <= j < bs.len() && i != j
        ==> bs[i].pos != bs[j].pos
}

pub open spec fn timers_wf(ts: Seq<Timer>) -> bool {
    forall|i: int| 0 <= i < ts.len() ==> ts[i].wf()
}

pub open spec fn fires_wf(fs: Seq<Fire>) -> bool {
    forall|i: int| 0 <= i < fs.len() ==> fs[i].timer.wf()
}

impl World {
    pub open spec fn wf(&self) -> bool {
        &&& forall|i: int| 0 <= i < self.players@.len() ==> self.players@[i].wf()
        &&& forall|i: int| 0 <= i < self.players@.len() ==> self.players@[i].entity < self.next_entity
        &&& ids_unique(self.players@)
        &&& forall|i: int| 0 <= i < self.bombs@.len() ==> self.bombs@[i].wf()
        &&& tiles_unique(self.bombs@)
        &&& fires_wf(self.fires@)
        &&& timers_wf(self.animations@)
    }
}

impl World {
    /// No entity and no event is in the world.
    pub open spec fn is_empty(&self) -> bool {
        &&& self.players@.len() == 0
        &&& self.bombs@.len() == 0
        &&& self.fires@.len() == 0
        &&& self.walls@.len() == 0
        &&& self.destructibles@.len() == 0
        &&& self.buffs@.len() == 0
        &&& self.portals@.len() == 0
        &&& self.creatures@.len() == 0
        &&& self.animations@.len() == 0
        &&& self.recovery_events@.len() == 0
        &&& self.game_over_events@.len() == 0
        &&& self.victory_events@.len() == 0
    }

    pub fn new() -> (r: World)
        ensures
            r.wf(),
            r.is_empty(),
            r.next_entity == 0,
    {
        World {
            players: Vec::new(),
            bombs: Vec::new(),
            fires: Vec::new(),
            walls: Vec::new(),
            destructibles: Vec::new(),
            buffs: Vec::new(),
            portals: Vec::new(),
            creatures: Vec::new(),
            animations: Vec::new(),
            recovery_events: Vec::new(),
            game_over_events: Vec::new(),
            victory_events: Vec::new(),
            next_entity: 0,
        }
    }

    /// Despawns every entity and drops every pending event. Identities are
    /// never handed out twice, so the counter stays.
    pub fn clear(&mut self)
        ensures
            final(self).wf(),
            final(self).is_empty(),
            final(self).next_entity == old(self).next_entity,
    {
        let next = self.next_entity;
        *self = World::new();
        self.next_entity = next;
    }

    /// Adds a player at `pos` with no bomb placed, and marks it destructible.
    /// Returns its identity, or `None` when identities have run out.
    pub fn spawn_player(&mut self, pos: Pos, power: u64, max: u64, speed: u64) -> (r: Option<u64>)
        requires
            old(self).wf(),
            pos.in_field(),
            power <= MAX_POWER,
        ensures
            final(self).wf(),
            old(self).next_entity == u64::MAX ==> r.is_none() && *final(self) == *old(self),
            old(self).next_entity < u64::MAX ==> {
                let p = Player { entity: old(self).next_entity, pos, power, current: 0, max, speed, stopped: false };
                &&& r == Some(old(self).next_entity)
                &&& final(self).next_entity == old(self).next_entity + 1
                &&& final(self).players@ == old(self).players@.push(p)
                &&& final(self).destructibles@ == old(self).destructibles@.push(
                    Destructible { entity: old(self).next_entity, kind: Destructable::Player, pos })
                &&& final(self).bombs@ == old(self).bombs@
                &&& final(self).fires@ == old(self).fires@
                &&& final(self).walls@ == old(self).walls@
                &&& final(self).buffs@ == old(self).buffs@
                &&& final(self).portals@ == old(self).portals@
                &&& final(self).creatures@ == old(self).creatures@
                &&& final(self).animations@ == old(self).animations@
                &&& final(self).recovery_events@ == old(self).recovery_events@
                &&& final(self).game_over_events@ == old(self).game_over_events@
                &&& final(self).victory_events@ == old(self).victory_events@
            },
    {
        if self.next_entity == u64::MAX {
            return None;
        }
        let id = self.next_entity;
        self.players.push(Player { entity: id, pos, power, current: 0, max, speed, stopped: false });
        self.destructibles.push(Destructible { entity: id, kind: Destructable::Player, pos });
        self.next_entity = id + 1;
        Some(id)
    }

    /// Adds a destructible box of kind `kind` at `pos`. Returns its identity,
    /// or `None` when identities have run out.
    pub fn spawn_destructible(&mut self, kind: Destructable, pos: Pos) -> (r: Option<u64>)
        requires
            old(self).wf(),
        ensures
            final(self).wf(),
            old(self).next_entity == u64::MAX ==> r.is_none() && *final(self) == *old(self),
            old(self).next_entity < u64::MAX ==> {
                &&& r == Some(old(self).next_entity)
                &&& final(self).next_entity == old(self).next_entity + 1
                &&& final(self).destructibles@ == old(self).destructibles@.push(
                    Destructible { entity: old(self).next_entity, kind, pos })
                &&& final(self).players@ == old(self).players@
                &&& final(self).bombs@ == old(self).bombs@
                &&& final(self).fires@ == old(self).fires@
                &&& final(self).walls@ == old(self).walls@
                &&& final(self).buffs@ == old(self).buffs@
                &&& final(self).portals@ == old(self).portals@
                &&& final(self).creatures@ == old(self).creatures@
                &&& final(self).animations@ == old(self).animations@
                &&& final(self).recovery_events@ == old(self).recovery_events@
                &&& final(self).game_over_events@ == old(self).game_over_events@
                &&& final(self).victory_events@ == old(self).victory_events@
            },
    {
        if self.next_entity == u64::MAX {
            return None;
        }
        let id = self.next_entity;
        self.destructibles.push(Destructible { entity: id, kind, pos });
        self.next_entity = id + 1;
        Some(id)
    }

    /// Adds a computer-controlled character. Returns its identity, or `None`
    /// when identities have run out.
    pub fn spawn_creature(&mut self) -> (r: Option<u64>)
        requires
            old(self).wf(),
        ensures
            final(self).wf(),
            old(self).next_entity == u64::MAX ==> r.is_none() && *final(self) == *old(self),
            old(self).next_entity < u64::MAX ==> {
                &&& r == Some(old(self).next_entity)
                &&& final(self).next_entity == old(self).next_entity + 1
                &&& final(self).creatures@ == old(self).creatures@.push(
                    Creature { entity: old(self).next_entity, stopped: false })
                &&& final(self).players@ == old(self).players@
                &&& final(self).bombs@ == old(self).bombs@
                &&& final(self).fires@ == old(self).fires@
                &&& final(self).walls@ == old(self).walls@
                &&& final(self).destructibles@ == old(self).destructibles@
                &&& final(self).buffs@ == old(self).buffs@
                &&& final(self).portals@ == old(self).portals@
                &&& final(self).animations@ == old(self).animations@
                &&& final(self).recovery_events@ == old(self).recovery_events@
                &&& final(self).game_over_events@ == old(self).game_over_events@
                &&& final(self).victory_events@ == old(self).victory_events@
            },
    {
        if self.next_entity == u64::MAX {
            return None;
        }
        let id = self.next_entity;
        self.creatures.push(Creature { entity: id, stopped: false });
        self.next_entity = id + 1;
        Some(id)
    }

    /// Moves the player `entity`, and its destructible marker, to `pos`.
    pub fn move_player(&mut self, entity: u64, pos: Pos)
        requires
            old(self).wf(),
            pos.in_field(),
        ensures
            final(self).wf(),
            final(self).players@ == old(self).players@.map_values(
                |p: Player| if p.entity == entity { Player { pos, ..p } } else { p }),
            final(self).destructibles@ == old(self).destructibles@.map_values(
                |d: Destructible| if d.entity == entity && d.kind == Destructable::Player {
                    Destructible { pos, ..d }
                } else {
                    d
                }),
            final(self).bombs@ == old(self).bombs@,
            final(self).fires@ == old(self).fires@,
            final(self).walls@ == old(self).walls@,
            final(self).buffs@ == old(self).buffs@,
            final(self).portals@ == old(self).portals@,
            final(self).creatures@ == old(self).creatures@,
            final(self).animations@ == old(self).animations@,
            final(self).recovery_events@ == old(self).recovery_events@,
            final(self).game_over_events@ == old(self).game_over_events@,
            final(self).victory_events@ == old(self).victory_events@,
            final(self).next_entity == old(self).next_entity,
    {
        let ghost ps = self.players@.map_values(
            |p: Player| if p.entity == entity { Player { pos, ..p } } else { p });
        let mut i: usize = 0;
        while i < self.players.len()
            invariant
                i <= self.players@.len(),
                old(self).wf(),
                pos.in_field(),
                self.players@.len() == old(self).players@.len(),
                ps == old(self).players@.map_values(
                    |p: Player| if p.entity == entity { Player { pos, ..p } } else { p }),
                forall|k: int| 0 <= k < i ==> #[trigger] self.players@[k] == ps[k],
                forall|k: int| i <= k < self.players@.len() ==> #[trigger] self.players@[k] == old(self).players@[k],
                self.destructibles@ == old(self).destructibles@,
                self.bombs@ == old(self).bombs@,
                self.fires@ == old(self).fires@,
                self.animations@ == old(self).animations@,
                self.walls@ == old(self).walls@,
                self.buffs@ == old(self).buffs@,
                self.portals@ == old(self).portals@,
                self.creatures@ == old(self).creatures@,
                self.recovery_events@ == old(self).recovery_events@,
                self.game_over_events@ == old(self).game_over_events@,
                self.victory_events@ == old(self).victory_events@,
                self.next_entity == old(self).next_entity,
            decreases self.players@.len() - i,
        {
            let p = self.players[i];
            if p.entity == entity {
                self.players.set(i, Player { pos, ..p });
            }
            i = i + 1;
        }
        assert(self.players@ =~= ps);
        let ghost ds = self.destructibles@.map_values(
            |d: Destructible| if d.entity == entity && d.kind == Destructable::Player {
                Destructible { pos, ..d }
            } else {
                d
            });
        let mut i: usize = 0;
        while i < self.destructibles.len()
            invariant
                i <= self.destructibles@.len(),
                self.destructibles@.len() == old(self).destructibles@.len(),
                ds == old(self).destructibles@.map_values(
                    |d: Destructible| if d.entity == entity && d.kind == Destructable::Player {
                        Destructible { pos, ..d }
                    } else {
                        d
                    }),
                forall|k: int| 0 <= k < i ==> #[trigger] self.destructibles@[k] == ds[k],
                forall|k: int| i <= k < self.destructibles@.len() ==> #[trigger] self.destructibles@[k] == old(self).destructibles@[k],
                self.players@ == ps,
                self.bombs@ == old(self).bombs@,
                self.fires@ == old(self).fires@,
                self.animations@ == old(self).animations@,
                self.walls@ == old(self).walls@,
                self.buffs@ == old(self).buffs@,
                self.portals@ == old(self).portals@,
                self.creatures@ == old(self).creatures@,
                self.recovery_events@ == old(self).recovery_events@,
                self.game_over_events@ == old(self).game_over_events@,
                self.victory_events@ == old(self).victory_events@,
                self.next_entity == old(self).next_entity,
            decreases self.destructibles@.len() - i,
        {
            let d = self.destructibles[i];
            if d.entity == entity && d.kind == Destructable::Player {
                self.destructibles.set(i, Destructible { pos, ..d });
            }
            i = i + 1;
        }
        assert(self.destructibles@ =~= ds);
        assert forall|k: int| 0 <= k < self.players@.len() implies (#[trigger] self.players@[k]).wf()
            && self.players@[k].entity < self.next_entity by {
            assert(old(self).players@[k].wf());
        }
        assert forall|a: int, b: int| 0 <= a < self.players@.len() && 0 <= b < self.players@.len() && a != b
            implies self.players@[a].entity != self.players@[b].entity by {
            assert(old(self).players@[a].entity != old(self).players@[b].entity);
        }
    }

    /// Adds a static wall at `pos`.
    pub fn spawn_wall(&mut self, pos: Pos)
        requires
            old(self).wf(),
        ensures
            final(self).wf(),
            final(self).walls@ == old(self).walls@.push(pos),
            final(self).players@ == old(self).players@,
            final(self).bombs@ == old(self).bombs@,
            final(self).fires@ == old(self).fires@,
            final(self).destructibles@ == old(self).destructibles@,
            final(self).buffs@ == old(self).buffs@,
            final(self).portals@ == old(self).portals@,
            final(self).creatures@ == old(self).creatures@,
            final(self).animations@ == old(self).animations@,
            final(self).recovery_events@ == old(self).recovery_events@,
            final(self).game_over_events@ == old(self).game_over_events@,
            final(self).victory_events@ == old(self).victory_events@,
            final(self).next_entity == old(self).next_entity,
    {
        self.walls.push(pos);
    }

    /// Adds a portal at `pos`.
    pub fn spawn_portal(&mut self, pos: Pos)
        requires
            old(self).wf(),
        ensures
            final(self).wf(),
            final(self).portals@ == old(self).portals@.push(pos),
            final(self).players@ == old(self).players@,
            final(self).bombs@ == old(self).bombs@,
            final(self).fires@ == old(self).fires@,
            final(self).walls@ == old(self).walls@,
            final(self).destructibles@ == old(self).destructibles@,
            final(self).buffs@ == old(self).buffs@,
            final(self).creatures@ == old(self).creatures@,
            final(self).animations@ == old(self).animations@,
            final(self).recovery_events@ == old(self).recovery_events@,
            final(self).game_over_events@ == old(self).game_over_events@,
            final(self).victory_events@ == old(self).victory_events@,
            final(self).next_entity == old(self).next_entity,
    {
        self.portals.push(pos);
    }

    /// Adds a running animation timer of `duration` milliseconds.
    pub fn add_animation(&mut self, duration: u64)
        requires
            old(self).wf(),
        ensures
            final(self).wf(),
            final(self).animations@ == old(self).animations@.push(Timer::fresh(duration)),
            final(self).players@ == old(self).players@,
            final(self).bombs@ == old(self).bombs@,
            final(self).fires@ == old(self).fires@,
            final(self).walls@ == old(self).walls@,
            final(self).destructibles@ == old(self).destructibles@,
            final(self).buffs@ == old(self).buffs@,
            final(self).portals@ == old(self).portals@,
            final(self).creatures@ == old(self).creatures@,
            final(self).recovery_events@ == old(self).recovery_events@,
            final(self).game_over_events@ == old(self).game_over_events@,
            final(self).victory_events@ == old(self).victory_events@,
            final(self).next_entity == old(self).next_entity,
    {
        let t = Timer::new(duration);
        self.animations.push(t);
    }
}

} // verus!

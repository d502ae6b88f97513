//! Reaching a portal wins the level.
use vstd::prelude::*;
use crate::grid::{overlaps, overlaps_spec, Pos};
use crate::world::{Player, World};

verus! {

/// Some portal overlaps tile `t`.
pub open spec fn portal_on(portals: Seq<Pos>, t: (int, int)) -> bool {
    exists|i: int| 0 <= i < portals.len() && overlaps_spec((#[trigger] portals[i]).tile(), t)
}

/// The identities of the first `n` players of `ps` that stand on a portal.
pub open spec fn arrivals(ps: Seq<Player>, portals: Seq<Pos>, n: int) -> Seq<u64>
    decreases n,
{
    if n <= 0 {
        Seq::empty()
    } else if portal_on(portals, ps[n - 1].pos.tile()) {
        arrivals(ps, portals, n - 1).push(ps[n - 1].entity)
    } else {
        arrivals(ps, portals, n - 1)
    }
}

fn portal_overlaps(portals: &Vec<Pos>, p: Pos) -> (r: bool)
    ensures
        r == portal_on(portals@, p.tile()),
{
    let mut i: usize = 0;
    while i < portals.len()
        invariant
            i <= portals@.len(),
            forall|k: int| 0 <= k < i ==> !overlaps_spec((#[trigger] portals@[k]).tile(), p.tile()),
        decreases portals@.len() - i,
    {
        if overlaps(portals[i], p) {
            return true;
        }
        i = i + 1;
    }
    false
}

/// Every player standing on a portal stops and raises a victory event.
pub fn portal_player_collision(world: &mut World)
    requires
        old(world).wf(),
    ensures
        final(world).wf(),
        final(world).players@ == old(world).players@.map_values(
            |p: Player| Player { stopped: p.stopped || portal_on(old(world).portals@, p.pos.tile()), ..p }),
        final(world).victory_events@ == old(world).victory_events@
            + arrivals(old(world).players@, old(world).portals@, old(world).players@.len() as int),
        final(world).bombs@ == old(world).bombs@,
        final(world).fires@ == old(world).fires@,
        final(world).walls@ == old(world).walls@,
        final(world).destructibles@ == old(world).destructibles@,
        final(world).buffs@ == old(world).buffs@,
        final(world).portals@ == old(world).portals@,
        final(world).creatures@ == old(world).creatures@,
        final(world).animations@ == old(world).animations@,
        final(world).recovery_events@ == old(world).recovery_events@,
        final(world).game_over_events@ == old(world).game_over_events@,
        final(world).next_entity == old(world).next_entity,
{
    let ghost p0 = world.players@;
    let ghost target = p0.map_values(
        |p: Player| Player { stopped: p.stopped || portal_on(world.portals@, p.pos.tile()), ..p });
    let mut i: usize = 0;
    while i < world.players.len()
        invariant
            0 <= i <= p0.len(),
            old(world).wf(),
            p0 == old(world).players@,
            target == p0.map_values(
                |p: Player| Player { stopped: p.stopped || portal_on(old(world).portals@, p.pos.tile()), ..p }),
            world.players@.len() == p0.len(),
            forall|k: int| 0 <= k < i ==> #[trigger] world.players@[k] == target[k],
            forall|k: int| i <= k < p0.len() ==> #[trigger] world.players@[k] == p0[k],
            world.victory_events@ == old(world).victory_events@ + arrivals(p0, world.portals@, i as int),
            world.bombs@ == old(world).bombs@,
            world.fires@ == old(world).fires@,
            world.walls@ == old(world).walls@,
            world.destructibles@ == old(world).destructibles@,
            world.buffs@ == old(world).buffs@,
            world.portals@ == old(world).portals@,
            world.creatures@ == old(world).creatures@,
            world.animations@ == old(world).animations@,
            world.recovery_events@ == old(world).recovery_events@,
            world.game_over_events@ == old(world).game_over_events@,
            world.next_entity == old(world).next_entity,
        decreases p0.len() - i,
    {
        let p = world.players[i];
        if portal_overlaps(&world.portals, p.pos) {
            world.players.set(i, Player { stopped: true, ..p });
            world.victory_events.push(p.entity);
        }
        assert(world.victory_events@ =~= old(world).victory_events@ + arrivals(p0, world.portals@, i + 1));
        i = i + 1;
    }
    assert(world.players@ =~= target);
    assert forall|k: int| 0 <= k < world.players@.len() implies (#[trigger] world.players@[k]).wf()
        && world.players@[k].entity < world.next_entity by {
        assert(p0[k].wf());
    }
    assert forall|a: int, b: int| 0 <= a < world.players@.len() && 0 <= b < world.players@.len() && a != b
        implies world.players@[a].entity != world.players@[b].entity by {
        assert(p0[a].entity != p0[b].entity);
    }
}

} // verus!

//! The bomb systems: placement, detonation and fire spread, fire expiry,
//! capacity recovery, bomb blocking and destruction.
use vstd::prelude::*;
use crate::grid::{overlaps, overlaps_spec, quantize_pos, quantize_spec, Pos, TILE_WIDTH};
use crate::timer::{Timer, BOMB_FUSE_MS, FIRE_MS};
use crate::world::{
    Bomb, Buff, BuffItem, Destructable, Destructible, Fire, Player, World, MAX_POWER, fires_wf,
    ids_unique, tiles_unique,
};

verus! {

/// The four directions a blast spreads in.
#[derive(Clone, Copy, Debug, PartialEq, Eq, Structural)]
pub enum Dir {
    Up,
    Down,
    Left,
    Right,
}

/// The tile `j` steps from `o` in direction `d`.
pub open spec fn arm_tile(o: Pos, d: Dir, j: int) -> (int, int) {
    let w = TILE_WIDTH as int;
    match d {
        Dir::Up => (o.x as int, o.y + j * w),
        Dir::Down => (o.x as int, o.y - j * w),
        Dir::Left => (o.x - j * w, o.y as int),
        Dir::Right => (o.x + j * w, o.y as int),
    }
}

/// Some wall, or some bomb carrying the wall marker, overlaps tile `t`.
pub open spec fn blocked(walls: Seq<Pos>, bombs: Seq<Bomb>, t: (int, int)) -> bool {
    (exists|i: int| 0 <= i < walls.len() && overlaps_spec(#[trigger] walls[i].tile(), t))
    || (exists|i: int| 0 <= i < bombs.len() && #[trigger] bombs[i].wall && overlaps_spec(bombs[i].pos.tile(), t))
}

/// How far an arm reaches when it has got past step `j - 1`: it stops before
/// the first blocked step, and after `power` steps.
pub open spec fn arm_from(walls: Seq<Pos>, bombs: Seq<Bomb>, o: Pos, d: Dir, j: int, power: int) -> int
    decreases power + 1 - j,
{
    if j > power {
        power
    } else if blocked(walls, bombs, arm_tile(o, d, j)) {
        j - 1
    } else {
        arm_from(walls, bombs, o, d, j + 1, power)
    }
}

/// Length of the arm of a bomb of power `power` at `o` in direction `d`.
pub open spec fn arm_len(walls: Seq<Pos>, bombs: Seq<Bomb>, o: Pos, d: Dir, power: int) -> int {
    arm_from(walls, bombs, o, d, 1, power)
}

/// The first `n` tiles of an arm, nearest first.
pub open spec fn arm_tiles(o: Pos, d: Dir, n: int) -> Seq<(int, int)> {
    Seq::new(n as nat, |k: int| arm_tile(o, d, k + 1))
}

/// The tiles a bomb sets on fire: its own, then the arms up, down, left and right.
pub open spec fn blast(walls: Seq<Pos>, bombs: Seq<Bomb>, b: Bomb) -> Seq<(int, int)> {
    let p = b.power as int;
    seq![b.pos.tile()]
        + arm_tiles(b.pos, Dir::Up, arm_len(walls, bombs, b.pos, Dir::Up, p))
        + arm_tiles(b.pos, Dir::Down, arm_len(walls, bombs, b.pos, Dir::Down, p))
        + arm_tiles(b.pos, Dir::Left, arm_len(walls, bombs, b.pos, Dir::Left, p))
        + arm_tiles(b.pos, Dir::Right, arm_len(walls, bombs, b.pos, Dir::Right, p))
}

/// `new` is `old` followed by one fresh fire on each tile of `ts`, in order.
pub open spec fn fires_appended(old: Seq<Fire>, new: Seq<Fire>, ts: Seq<(int, int)>) -> bool {
    &&& new.len() == old.len() + ts.len()
    &&& forall|i: int| 0 <= i < old.len() ==> new[i] == old[i]
    &&& forall|j: int| 0 <= j < ts.len() ==> (#[trigger] new[old.len() + j]).pos.tile() == ts[j]
        && new[old.len() + j].timer == Timer::fresh(FIRE_MS)
}

proof fn lemma_fires_appended_trans(a: Seq<Fire>, b: Seq<Fire>, c: Seq<Fire>, t1: Seq<(int, int)>, t2: Seq<(int, int)>)
    requires
        fires_appended(a, b, t1),
        fires_appended(b, c, t2),
    ensures
        fires_appended(a, c, t1 + t2),
{
    let t = t1 + t2;
    assert forall|j: int| 0 <= j < t.len() implies (#[trigger] c[a.len() + j]).pos.tile() == t[j]
        && c[a.len() + j].timer == Timer::fresh(FIRE_MS) by {
        if j < t1.len() {
            assert(b[a.len() + j] == c[a.len() + j]);
        } else {
            let k = j - t1.len();
            assert(c[b.len() + k] == c[a.len() + j]);
        }
    }
}

/// The bombs at their timers after `delta` milliseconds.
pub open spec fn ticked_bombs(bs: Seq<Bomb>, delta: u64) -> Seq<Bomb> {
    bs.map_values(|b: Bomb| Bomb { timer: b.timer.ticked(delta), ..b })
}

/// Detonates the bombs among the first `n` of `bs` whose fuse has run out.
/// Returns the bombs that stay, the fire tiles, and one recovery event per
/// detonation carrying the owner. Walls and marked bombs of `bs` block the arms.
pub open spec fn detonate(bs: Seq<Bomb>, walls: Seq<Pos>, n: int) -> (Seq<Bomb>, Seq<(int, int)>, Seq<u64>)
    decreases n,
{
    if n <= 0 {
        (Seq::empty(), Seq::empty(), Seq::empty())
    } else {
        let r = detonate(bs, walls, n - 1);
        let b = bs[n - 1];
        if b.timer.is_finished() {
            (r.0, r.1 + blast(walls, bs, b), r.2.push(b.owner))
        } else {
            (r.0.push(b), r.1, r.2)
        }
    }
}

/// Whether a wall, or a bomb carrying the wall marker, overlaps `t`.
fn is_blocked(walls: &Vec<Pos>, bombs: &Vec<Bomb>, t: Pos) -> (r: bool)
    ensures
        r == blocked(walls@, bombs@, t.tile()),
{
    let mut i: usize = 0;
    while i < walls.len()
        invariant
            i <= walls@.len(),
            forall|k: int| 0 <= k < i ==> !overlaps_spec(#[trigger] walls@[k].tile(), t.tile()),
        decreases walls@.len() - i,
    {
        if overlaps(walls[i], t) {
            return true;
        }
        i = i + 1;
    }
    let mut i: usize = 0;
    while i < bombs.len()
        invariant
            i <= bombs@.len(),
            forall|k: int| 0 <= k < walls@.len() ==> !overlaps_spec(#[trigger] walls@[k].tile(), t.tile()),
            forall|k: int| 0 <= k < i ==> !(#[trigger] bombs@[k].wall && overlaps_spec(bombs@[k].pos.tile(), t.tile())),
        decreases bombs@.len() - i,
    {
        if bombs[i].wall && overlaps(bombs[i].pos, t) {
            return true;
        }
        i = i + 1;
    }
    false
}

/// The point one tile from `p` in direction `d`; `p` lies well inside `i64`.
fn step(p: Pos, d: Dir) -> (r: Pos)
    requires
        -0x4000_0000_0000_0000 <= p.x <= 0x4000_0000_0000_0000,
        -0x4000_0000_0000_0000 <= p.y <= 0x4000_0000_0000_0000,
    ensures
        r.tile() == arm_tile(p, d, 1),
{
    match d {
        Dir::Up => Pos { x: p.x, y: p.y + TILE_WIDTH },
        Dir::Down => Pos { x: p.x, y: p.y - TILE_WIDTH },
        Dir::Left => Pos { x: p.x - TILE_WIDTH, y: p.y },
        Dir::Right => Pos { x: p.x + TILE_WIDTH, y: p.y },
    }
}

/// Spreads one arm of a blast from `o`, one fire per open step.
fn spread_arm(fires: &mut Vec<Fire>, walls: &Vec<Pos>, bombs: &Vec<Bomb>, o: Pos, d: Dir, power: u64)
    requires
        o.in_field(),
        power <= MAX_POWER,
    ensures
        fires_appended(old(fires)@, final(fires)@, arm_tiles(o, d, arm_len(walls@, bombs@, o, d, power as int))),
{
    let ghost start = fires@;
    let ghost full = arm_len(walls@, bombs@, o, d, power as int);
    let mut j: u64 = 1;
    let mut cur: Pos = o;
    let mut stop: bool = false;
    while j <= power && !stop
        invariant
            1 <= j <= power + 1,
            power <= MAX_POWER,
            o.in_field(),
            cur.tile() == arm_tile(o, d, j - 1),
            !stop ==> full == arm_from(walls@, bombs@, o, d, j as int, power as int),
            stop ==> full == j - 1,
            fires_appended(start, fires@, arm_tiles(o, d, j - 1)),
        decreases power + 1 - j, if stop { 0int } else { 1int },
    {
        let next = step(cur, d);
        assert(next.tile() == arm_tile(o, d, j as int));
        if is_blocked(walls, bombs, next) {
            stop = true;
        } else {
            fires.push(Fire { pos: next, timer: Timer::new(FIRE_MS) });
            assert(arm_tiles(o, d, j as int) =~= arm_tiles(o, d, j - 1).push(arm_tile(o, d, j as int)));
            cur = next;
            j = j + 1;
        }
    }
}

/// Sets the tiles of `b`'s blast on fire.
fn spread_blast(fires: &mut Vec<Fire>, walls: &Vec<Pos>, bombs: &Vec<Bomb>, b: Bomb)
    requires
        b.wf(),
    ensures
        fires_appended(old(fires)@, final(fires)@, blast(walls@, bombs@, b)),
{
    let ghost f0 = fires@;
    let ghost p = b.power as int;
    fires.push(Fire { pos: b.pos, timer: Timer::new(FIRE_MS) });
    let ghost f1 = fires@;
    let ghost t0 = seq![b.pos.tile()];
    assert(fires_appended(f0, f1, t0));
    spread_arm(fires, walls, bombs, b.pos, Dir::Up, b.power);
    let ghost f2 = fires@;
    let ghost t1 = arm_tiles(b.pos, Dir::Up, arm_len(walls@, bombs@, b.pos, Dir::Up, p));
    proof { lemma_fires_appended_trans(f0, f1, f2, t0, t1); }
    spread_arm(fires, walls, bombs, b.pos, Dir::Down, b.power);
    let ghost f3 = fires@;
    let ghost t2 = arm_tiles(b.pos, Dir::Down, arm_len(walls@, bombs@, b.pos, Dir::Down, p));
    proof { lemma_fires_appended_trans(f0, f2, f3, t0 + t1, t2); }
    spread_arm(fires, walls, bombs, b.pos, Dir::Left, b.power);
    let ghost f4 = fires@;
    let ghost t3 = arm_tiles(b.pos, Dir::Left, arm_len(walls@, bombs@, b.pos, Dir::Left, p));
    proof { lemma_fires_appended_trans(f0, f3, f4, t0 + t1 + t2, t3); }
    spread_arm(fires, walls, bombs, b.pos, Dir::Right, b.power);
    let ghost f5 = fires@;
    let ghost t4 = arm_tiles(b.pos, Dir::Right, arm_len(walls@, bombs@, b.pos, Dir::Right, p));
    proof { lemma_fires_appended_trans(f0, f4, f5, t0 + t1 + t2 + t3, t4); }
}

/// Advances every bomb's fuse by `delta` milliseconds, then detonates each bomb
/// whose fuse has run out: the bomb goes, its blast catches fire, and one
/// recovery event carries its owner.
pub fn bomb_trigger(world: &mut World, delta: u64)
    requires
        old(world).wf(),
    ensures
        final(world).wf(),
        ({
            let tb = ticked_bombs(old(world).bombs@, delta);
            let r = detonate(tb, old(world).walls@, tb.len() as int);
            &&& final(world).bombs@ == r.0
            &&& fires_appended(old(world).fires@, final(world).fires@, r.1)
            &&& final(world).recovery_events@ == old(world).recovery_events@ + r.2
        }),
        final(world).players@ == old(world).players@,
        final(world).walls@ == old(world).walls@,
        final(world).destructibles@ == old(world).destructibles@,
        final(world).buffs@ == old(world).buffs@,
        final(world).portals@ == old(world).portals@,
        final(world).creatures@ == old(world).creatures@,
        final(world).animations@ == old(world).animations@,
        final(world).game_over_events@ == old(world).game_over_events@,
        final(world).victory_events@ == old(world).victory_events@,
        final(world).next_entity == old(world).next_entity,
{
    let ghost b0 = world.bombs@;
    let ghost tbs = ticked_bombs(b0, delta);
    let mut tb: Vec<Bomb> = Vec::new();
    let mut i: usize = 0;
    while i < world.bombs.len()
        invariant
            i <= world.bombs@.len(),
            world.bombs@ == b0,
            tbs == ticked_bombs(b0, delta),
            world.wf(),
            tb@.len() == i,
            tb@ =~= tbs.take(i as int),
        decreases world.bombs@.len() - i,
    {
        let b0i = world.bombs[i];
        assert(b0i.wf());
        let mut t = b0i.timer;
        t.tick(delta);
        tb.push(Bomb { owner: b0i.owner, pos: b0i.pos, power: b0i.power, timer: t, wall: b0i.wall });
        assert(tb@ =~= tbs.take(i + 1)) by {
            assert(tb@[i as int] == tbs[i as int]);
        }
        i = i + 1;
    }
    assert(tb@ =~= tbs);
    assert forall|k: int| 0 <= k < tbs.len() implies (#[trigger] tbs[k]).wf() && tbs[k].pos == b0[k].pos by {
        assert(b0[k].wf());
    }
    let ghost f0 = world.fires@;
    let ghost e0 = world.recovery_events@;
    let mut kept: Vec<Bomb> = Vec::new();
    let mut i: usize = 0;
    while i < tb.len()
        invariant
            i <= tb@.len(),
            tb@ == tbs,
            tbs == ticked_bombs(b0, delta),
            forall|k: int| 0 <= k < tbs.len() ==> (#[trigger] tbs[k]).wf() && tbs[k].pos == b0[k].pos,
            tiles_unique(b0),
            fires_wf(f0),
            world.bombs@ == old(world).bombs@,
            world.walls@ == old(world).walls@,
            world.players@ == old(world).players@,
            world.destructibles@ == old(world).destructibles@,
            world.buffs@ == old(world).buffs@,
            world.portals@ == old(world).portals@,
            world.creatures@ == old(world).creatures@,
            world.animations@ == old(world).animations@,
            world.game_over_events@ == old(world).game_over_events@,
            world.victory_events@ == old(world).victory_events@,
            world.next_entity == old(world).next_entity,
            old(world).wf(),
            kept@ == detonate(tbs, world.walls@, i as int).0,
            fires_appended(f0, world.fires@, detonate(tbs, world.walls@, i as int).1),
            world.recovery_events@ == e0 + detonate(tbs, world.walls@, i as int).2,
            forall|m: int| 0 <= m < kept@.len() ==> exists|k: int| 0 <= k < i && #[trigger] kept@[m] == tbs[k],
            forall|m: int| 0 <= m < kept@.len() ==> (#[trigger] kept@[m]).wf(),
            tiles_unique(kept@),
        decreases tb@.len() - i,
    {
        let b = tb[i];
        assert(b == tbs[i as int]);
        assert(b.wf());
        if b.timer.finished() {
            let ghost fa = world.fires@;
            spread_blast(&mut world.fires, &world.walls, &tb, b);
            proof {
                lemma_fires_appended_trans(f0, fa, world.fires@, detonate(tbs, world.walls@, i as int).1, blast(world.walls@, tbs, b));
            }
            world.recovery_events.push(b.owner);
            assert(world.recovery_events@ =~= e0 + detonate(tbs, world.walls@, i + 1).2);
        } else {
            assert forall|m: int| 0 <= m < kept@.len() implies (#[trigger] kept@[m]).pos != b.pos by {
                let k = choose|k: int| 0 <= k < i && kept@[m] == tbs[k];
                assert(tbs[k].pos == b0[k].pos);
                assert(b0[k].pos != b0[i as int].pos);
            }
            kept.push(b);
            assert forall|m: int| 0 <= m < kept@.len() implies exists|k: int| 0 <= k < i + 1 && #[trigger] kept@[m] == tbs[k] by {
                if m == kept@.len() - 1 {
                    assert(kept@[m] == tbs[i as int]);
                } else {
                    let k = choose|k: int| 0 <= k < i && kept@[m] == tbs[k];
                    assert(kept@[m] == tbs[k]);
                }
            }
        }
        i = i + 1;
    }
    world.bombs = kept;
    let ghost r = detonate(tbs, world.walls@, tbs.len() as int);
    assert forall|k: int| 0 <= k < world.fires@.len() implies (#[trigger] world.fires@[k]).timer.wf() by {
        if k >= f0.len() {
            assert(world.fires@[f0.len() + (k - f0.len())] == world.fires@[k]);
        }
    }
}

/// The tile a player at `p` places a bomb on.
pub open spec fn target_tile(p: Pos) -> Pos {
    Pos { x: quantize_spec(p.x as int) as i64, y: quantize_spec(p.y as int) as i64 }
}

/// Some bomb of `bs` stands exactly at `t`.
pub open spec fn bomb_on(bs: Seq<Bomb>, t: Pos) -> bool {
    exists|i: int| 0 <= i < bs.len() && (#[trigger] bs[i]).pos == t
}

/// The bomb `p` places: on its tile, with a fresh fuse and `p`'s current power.
pub open spec fn new_bomb(p: Player) -> Bomb {
    Bomb {
        owner: p.entity,
        pos: target_tile(p.pos),
        power: p.power,
        timer: Timer::fresh(BOMB_FUSE_MS),
        wall: false,
    }
}

/// Player `p` may place a bomb: its tile is free and it has capacity left.
pub open spec fn can_place(bs: Seq<Bomb>, p: Player) -> bool {
    !bomb_on(bs, target_tile(p.pos)) && p.current < p.max
}

/// The bombs and the player after `p` asks to place a bomb.
pub open spec fn place_one(bs: Seq<Bomb>, p: Player) -> (Seq<Bomb>, Player) {
    if can_place(bs, p) {
        (bs.push(new_bomb(p)), Player { current: (p.current + 1) as u64, ..p })
    } else {
        (bs, p)
    }
}

/// The bombs and the first `n` players after each of them, in order, asks to
/// place a bomb.
pub open spec fn place_all(bs: Seq<Bomb>, ps: Seq<Player>, n: int) -> (Seq<Bomb>, Seq<Player>)
    decreases n,
{
    if n <= 0 {
        (bs, Seq::empty())
    } else {
        let r = place_all(bs, ps, n - 1);
        let q = place_one(r.0, ps[n - 1]);
        (q.0, r.1.push(q.1))
    }
}

/// Whether a bomb stands exactly at `t`.
fn has_bomb_at(bombs: &Vec<Bomb>, t: Pos) -> (r: bool)
    ensures
        r == bomb_on(bombs@, t),
{
    let mut i: usize = 0;
    while i < bombs.len()
        invariant
            i <= bombs@.len(),
            forall|k: int| 0 <= k < i ==> (#[trigger] bombs@[k]).pos != t,
        decreases bombs@.len() - i,
    {
        if bombs[i].pos == t {
            return true;
        }
        i = i + 1;
    }
    false
}

/// On a press of the place-bomb input, each player in turn places a bomb on
/// its tile, unless a bomb stands there already or its capacity is used up.
/// A placed bomb takes the player's power and reserves one unit of capacity.
pub fn space_to_set_bomb(world: &mut World, pressed: bool)
    requires
        old(world).wf(),
    ensures
        final(world).wf(),
        pressed ==> ({
            let r = place_all(old(world).bombs@, old(world).players@, old(world).players@.len() as int);
            final(world).bombs@ == r.0 && final(world).players@ == r.1
        }),
        !pressed ==> final(world).bombs@ == old(world).bombs@ && final(world).players@ == old(world).players@,
        final(world).fires@ == old(world).fires@,
        final(world).walls@ == old(world).walls@,
        final(world).destructibles@ == old(world).destructibles@,
        final(world).buffs@ == old(world).buffs@,
        final(world).portals@ == old(world).portals@,
        final(world).creatures@ == old(world).creatures@,
        final(world).animations@ == old(world).animations@,
        final(world).recovery_events@ == old(world).recovery_events@,
        final(world).game_over_events@ == old(world).game_over_events@,
        final(world).victory_events@ == old(world).victory_events@,
        final(world).next_entity == old(world).next_entity,
{
    if !pressed {
        return;
    }
    let ghost b0 = world.bombs@;
    let ghost p0 = world.players@;
    let mut i: usize = 0;
    while i < world.players.len()
        invariant
            0 <= i <= p0.len(),
            old(world).wf(),
            b0 == old(world).bombs@,
            p0 == old(world).players@,
            world.players@.len() == p0.len(),
            place_all(b0, p0, i as int).1.len() == i,
            world.bombs@ == place_all(b0, p0, i as int).0,
            forall|k: int| 0 <= k < i ==> world.players@[k] == #[trigger] place_all(b0, p0, i as int).1[k],
            forall|k: int| i <= k < p0.len() ==> #[trigger] world.players@[k] == p0[k],
            forall|k: int| 0 <= k < p0.len() ==> (#[trigger] world.players@[k]).entity == p0[k].entity
                && world.players@[k].wf(),
            forall|k: int| 0 <= k < world.bombs@.len() ==> (#[trigger] world.bombs@[k]).wf(),
            tiles_unique(world.bombs@),
            world.fires@ == old(world).fires@,
            world.walls@ == old(world).walls@,
            world.destructibles@ == old(world).destructibles@,
            world.buffs@ == old(world).buffs@,
            world.portals@ == old(world).portals@,
            world.creatures@ == old(world).creatures@,
            world.animations@ == old(world).animations@,
            world.recovery_events@ == old(world).recovery_events@,
            world.game_over_events@ == old(world).game_over_events@,
            world.victory_events@ == old(world).victory_events@,
            world.next_entity == old(world).next_entity,
        decreases p0.len() - i,
    {
        let p = world.players[i];
        assert(p == p0[i as int]);
        let target = quantize_pos(p.pos);
        assert(target == target_tile(p.pos));
        let occupied = has_bomb_at(&world.bombs, target);
        let ghost pa = place_all(b0, p0, i as int);
        if !occupied && p.current < p.max {
            let b = Bomb {
                owner: p.entity,
                pos: target,
                power: p.power,
                timer: Timer::new(BOMB_FUSE_MS),
                wall: false,
            };
            assert(forall|k: int| 0 <= k < world.bombs@.len() ==> (#[trigger] world.bombs@[k]).pos != target);
            world.bombs.push(b);
            world.players.set(i, Player { current: p.current + 1, ..p });
        }
        assert(place_all(b0, p0, i + 1).1 =~= pa.1.push(place_one(pa.0, p).1));
        i = i + 1;
    }
    assert(world.players@ =~= place_all(b0, p0, p0.len() as int).1);
}

/// Some fire overlaps tile `t`.
pub open spec fn fire_hits(fs: Seq<Fire>, t: (int, int)) -> bool {
    exists|i: int| 0 <= i < fs.len() && overlaps_spec((#[trigger] fs[i]).pos.tile(), t)
}

/// The pickup a destroyed object leaves behind, if any.
pub open spec fn buff_of(k: Destructable) -> Option<Buff> {
    match k {
        Destructable::PowerBuffBox => Some(Buff::PowerBuff),
        Destructable::SpeedBuffBox => Some(Buff::SpeedBuff),
        Destructable::BombNumberBuffBox => Some(Buff::BombNumberBuff),
        _ => None,
    }
}

/// Resolves the first `n` destructibles of `ds` against the fires `fs`.
/// Returns the objects that stay, the pickups that appear, and the entities
/// caught by fire. An object no fire overlaps stays untouched; a caught player
/// stays and is reported; a caught box goes, leaving its pickup if it has one.
pub open spec fn resolve(ds: Seq<Destructible>, fs: Seq<Fire>, n: int) -> (Seq<Destructible>, Seq<BuffItem>, Seq<u64>)
    decreases n,
{
    if n <= 0 {
        (Seq::empty(), Seq::empty(), Seq::empty())
    } else {
        let r = resolve(ds, fs, n - 1);
        let d = ds[n - 1];
        if !fire_hits(fs, d.pos.tile()) {
            (r.0.push(d), r.1, r.2)
        } else if d.kind == Destructable::Player {
            (r.0.push(d), r.1, r.2.push(d.entity))
        } else {
            match buff_of(d.kind) {
                Some(b) => (r.0, r.1.push(BuffItem { kind: b, pos: d.pos }), r.2),
                None => (r.0, r.1, r.2),
            }
        }
    }
}

/// Whether some fire overlaps `p`.
fn fire_overlaps(fires: &Vec<Fire>, p: Pos) -> (r: bool)
    ensures
        r == fire_hits(fires@, p.tile()),
{
    let mut i: usize = 0;
    while i < fires.len()
        invariant
            i <= fires@.len(),
            forall|k: int| 0 <= k < i ==> !overlaps_spec((#[trigger] fires@[k]).pos.tile(), p.tile()),
        decreases fires@.len() - i,
    {
        if overlaps(fires[i].pos, p) {
            return true;
        }
        i = i + 1;
    }
    false
}

/// Destroys what the fires overlap: a caught player raises a game-over event,
/// a normal box disappears, and a buff box disappears leaving its pickup at
/// the same position.
pub fn bomb_destruction(world: &mut World)
    requires
        old(world).wf(),
    ensures
        final(world).wf(),
        ({
            let r = resolve(old(world).destructibles@, old(world).fires@, old(world).destructibles@.len() as int);
            &&& final(world).destructibles@ == r.0
            &&& final(world).buffs@ == old(world).buffs@ + r.1
            &&& final(world).game_over_events@ == old(world).game_over_events@ + r.2
        }),
        final(world).players@ == old(world).players@,
        final(world).bombs@ == old(world).bombs@,
        final(world).fires@ == old(world).fires@,
        final(world).walls@ == old(world).walls@,
        final(world).portals@ == old(world).portals@,
        final(world).creatures@ == old(world).creatures@,
        final(world).animations@ == old(world).animations@,
        final(world).recovery_events@ == old(world).recovery_events@,
        final(world).victory_events@ == old(world).victory_events@,
        final(world).next_entity == old(world).next_entity,
{
    let ghost d0 = world.destructibles@;
    let mut kept: Vec<Destructible> = Vec::new();
    let mut i: usize = 0;
    while i < world.destructibles.len()
        invariant
            0 <= i <= d0.len(),
            old(world).wf(),
            d0 == old(world).destructibles@,
            world.destructibles@ == d0,
            kept@ == resolve(d0, world.fires@, i as int).0,
            world.buffs@ == old(world).buffs@ + resolve(d0, world.fires@, i as int).1,
            world.game_over_events@ == old(world).game_over_events@ + resolve(d0, world.fires@, i as int).2,
            world.players@ == old(world).players@,
            world.bombs@ == old(world).bombs@,
            world.fires@ == old(world).fires@,
            world.walls@ == old(world).walls@,
            world.portals@ == old(world).portals@,
            world.creatures@ == old(world).creatures@,
            world.animations@ == old(world).animations@,
            world.recovery_events@ == old(world).recovery_events@,
            world.victory_events@ == old(world).victory_events@,
            world.next_entity == old(world).next_entity,
        decreases d0.len() - i,
    {
        let d = world.destructibles[i];
        let ghost r = resolve(d0, world.fires@, i as int);
        if !fire_overlaps(&world.fires, d.pos) {
            kept.push(d);
        } else {
            match d.kind {
                Destructable::Player => {
                    kept.push(d);
                    world.game_over_events.push(d.entity);
                },
                Destructable::NormalBox => {},
                Destructable::PowerBuffBox => {
                    world.buffs.push(BuffItem { kind: Buff::PowerBuff, pos: d.pos });
                },
                Destructable::SpeedBuffBox => {
                    world.buffs.push(BuffItem { kind: Buff::SpeedBuff, pos: d.pos });
                },
                Destructable::BombNumberBuffBox => {
                    world.buffs.push(BuffItem { kind: Buff::BombNumberBuff, pos: d.pos });
                },
            }
        }
        assert(world.buffs@ =~= old(world).buffs@ + resolve(d0, world.fires@, i + 1).1);
        assert(world.game_over_events@ =~= old(world).game_over_events@ + resolve(d0, world.fires@, i + 1).2);
        i = i + 1;
    }
    world.destructibles = kept;
}

/// How many times `v` occurs in `s`.
pub open spec fn count_of(s: Seq<u64>, v: u64) -> nat
    decreases s.len(),
{
    if s.len() == 0 {
        0
    } else {
        count_of(s.drop_last(), v) + if s.last() == v { 1nat } else { 0nat }
    }
}

/// `c` lowered by `n`, stopping at zero.
pub open spec fn sat_sub(c: u64, n: nat) -> u64 {
    if n >= c { 0 } else { (c - n) as u64 }
}

/// The players after one unit of capacity comes back for each event naming
/// them; a count already at zero stays at zero.
pub open spec fn recovered(ps: Seq<Player>, evs: Seq<u64>) -> Seq<Player> {
    ps.map_values(|p: Player| Player { current: sat_sub(p.current, count_of(evs, p.entity)), ..p })
}

/// Drains the recovery events: each one gives its player back one unit of
/// capacity. An event naming no live player does nothing.
pub fn recovery_bomb_number(world: &mut World)
    requires
        old(world).wf(),
    ensures
        final(world).wf(),
        final(world).players@ == recovered(old(world).players@, old(world).recovery_events@),
        final(world).recovery_events@ == Seq::<u64>::empty(),
        final(world).bombs@ == old(world).bombs@,
        final(world).fires@ == old(world).fires@,
        final(world).walls@ == old(world).walls@,
        final(world).destructibles@ == old(world).destructibles@,
        final(world).buffs@ == old(world).buffs@,
        final(world).portals@ == old(world).portals@,
        final(world).creatures@ == old(world).creatures@,
        final(world).animations@ == old(world).animations@,
        final(world).game_over_events@ == old(world).game_over_events@,
        final(world).victory_events@ == old(world).victory_events@,
        final(world).next_entity == old(world).next_entity,
{
    let ghost p0 = world.players@;
    let ghost evs = world.recovery_events@;
    assert(recovered(p0, evs.take(0)) =~= p0);
    let mut e: usize = 0;
    while e < world.recovery_events.len()
        invariant
            0 <= e <= evs.len(),
            old(world).wf(),
            p0 == old(world).players@,
            evs == old(world).recovery_events@,
            world.recovery_events@ == evs,
            world.players@ == recovered(p0, evs.take(e as int)),
            world.bombs@ == old(world).bombs@,
            world.fires@ == old(world).fires@,
            world.walls@ == old(world).walls@,
            world.destructibles@ == old(world).destructibles@,
            world.buffs@ == old(world).buffs@,
            world.portals@ == old(world).portals@,
            world.creatures@ == old(world).creatures@,
            world.animations@ == old(world).animations@,
            world.game_over_events@ == old(world).game_over_events@,
            world.victory_events@ == old(world).victory_events@,
            world.next_entity == old(world).next_entity,
        decreases evs.len() - e,
    {
        let id = world.recovery_events[e];
        let ghost before = evs.take(e as int);
        let ghost after = evs.take(e + 1);
        assert(after.drop_last() =~= before);
        assert(forall|v: u64| count_of(after, v) == count_of(before, v) + if v == id { 1nat } else { 0nat });
        let mut j: usize = 0;
        let mut done: bool = false;
        while j < world.players.len() && !done
            invariant
                0 <= j <= p0.len(),
                world.players@.len() == p0.len(),
                ids_unique(p0),
                e < evs.len(),
                id == evs[e as int],
                world.recovery_events@ == evs,
                world.bombs@ == old(world).bombs@,
                world.fires@ == old(world).fires@,
                world.walls@ == old(world).walls@,
                world.destructibles@ == old(world).destructibles@,
                world.buffs@ == old(world).buffs@,
                world.portals@ == old(world).portals@,
                world.creatures@ == old(world).creatures@,
                world.animations@ == old(world).animations@,
                world.game_over_events@ == old(world).game_over_events@,
                world.victory_events@ == old(world).victory_events@,
                world.next_entity == old(world).next_entity,
                forall|v: u64| count_of(after, v) == count_of(before, v) + if v == id { 1nat } else { 0nat },
                done ==> world.players@ == recovered(p0, after),
                !done ==> world.players@ == recovered(p0, before),
                !done ==> forall|k: int| 0 <= k < j ==> (#[trigger] p0[k]).entity != id,
            decreases p0.len() - j, if done { 0int } else { 1int },
        {
            let p = world.players[j];
            if p.entity == id {
                let c: u64 = if p.current > 0 { p.current - 1 } else { 0 };
                world.players.set(j, Player { current: c, ..p });
                done = true;
                assert(world.players@ =~= recovered(p0, after)) by {
                    assert forall|k: int| 0 <= k < p0.len() implies world.players@[k] == recovered(p0, after)[k] by {
                        if k != j {
                            assert(p0[k].entity != p0[j as int].entity);
                        }
                    }
                }
            } else {
                j = j + 1;
            }
        }
        if !done {
            assert(world.players@ =~= recovered(p0, after)) by {
                assert forall|k: int| 0 <= k < p0.len() implies world.players@[k] == recovered(p0, after)[k] by {
                    assert(p0[k].entity != id);
                }
            }
        }
        e = e + 1;
    }
    assert(evs.take(evs.len() as int) =~= evs);
    world.recovery_events = Vec::new();
    assert forall|k: int| 0 <= k < world.players@.len() implies (#[trigger] world.players@[k]).wf()
        && world.players@[k].entity < world.next_entity by {
        assert(p0[k].wf());
    }
}

/// The fires at their timers after `delta` milliseconds.
pub open spec fn ticked_fires(fs: Seq<Fire>, delta: u64) -> Seq<Fire> {
    fs.map_values(|f: Fire| Fire { timer: f.timer.ticked(delta), ..f })
}

/// The fires among the first `n` of `fs` whose timer has not run out.
pub open spec fn live_fires(fs: Seq<Fire>, n: int) -> Seq<Fire>
    decreases n,
{
    if n <= 0 {
        Seq::empty()
    } else if fs[n - 1].timer.is_finished() {
        live_fires(fs, n - 1)
    } else {
        live_fires(fs, n - 1).push(fs[n - 1])
    }
}

/// Advances every fire's timer by `delta` milliseconds and removes the fires
/// whose time is up.
pub fn despawn_fire(world: &mut World, delta: u64)
    requires
        old(world).wf(),
    ensures
        final(world).wf(),
        ({
            let tf = ticked_fires(old(world).fires@, delta);
            final(world).fires@ == live_fires(tf, tf.len() as int)
        }),
        final(world).players@ == old(world).players@,
        final(world).bombs@ == old(world).bombs@,
        final(world).walls@ == old(world).walls@,
        final(world).destructibles@ == old(world).destructibles@,
        final(world).buffs@ == old(world).buffs@,
        final(world).portals@ == old(world).portals@,
        final(world).creatures@ == old(world).creatures@,
        final(world).animations@ == old(world).animations@,
        final(world).recovery_events@ == old(world).recovery_events@,
        final(world).game_over_events@ == old(world).game_over_events@,
        final(world).victory_events@ == old(world).victory_events@,
        final(world).next_entity == old(world).next_entity,
{
    let ghost tf = ticked_fires(world.fires@, delta);
    let mut live: Vec<Fire> = Vec::new();
    let mut i: usize = 0;
    while i < world.fires.len()
        invariant
            0 <= i <= world.fires@.len(),
            old(world).wf(),
            world.fires@ == old(world).fires@,
            tf == ticked_fires(old(world).fires@, delta),
            live@ == live_fires(tf, i as int),
            forall|k: int| 0 <= k < live@.len() ==> (#[trigger] live@[k]).timer.wf(),
            world.players@ == old(world).players@,
            world.bombs@ == old(world).bombs@,
            world.walls@ == old(world).walls@,
            world.destructibles@ == old(world).destructibles@,
            world.buffs@ == old(world).buffs@,
            world.portals@ == old(world).portals@,
            world.creatures@ == old(world).creatures@,
            world.animations@ == old(world).animations@,
            world.recovery_events@ == old(world).recovery_events@,
            world.game_over_events@ == old(world).game_over_events@,
            world.victory_events@ == old(world).victory_events@,
            world.next_entity == old(world).next_entity,
        decreases world.fires@.len() - i,
    {
        let f = world.fires[i];
        assert(f.timer.wf());
        let mut t = f.timer;
        t.tick(delta);
        assert(tf[i as int] == Fire { timer: t, ..f });
        if !t.finished() {
            live.push(Fire { pos: f.pos, timer: t });
        }
        i = i + 1;
    }
    world.fires = live;
}

/// Some player overlaps tile `t`.
pub open spec fn player_on(ps: Seq<Player>, t: (int, int)) -> bool {
    exists|i: int| 0 <= i < ps.len() && overlaps_spec((#[trigger] ps[i]).pos.tile(), t)
}

/// The bombs after each one that no player overlaps takes the wall marker.
pub open spec fn blocked_bombs(bs: Seq<Bomb>, ps: Seq<Player>) -> Seq<Bomb> {
    bs.map_values(|b: Bomb| Bomb { wall: b.wall || !player_on(ps, b.pos.tile()), ..b })
}

/// Whether some player overlaps `p`.
fn player_overlaps(players: &Vec<Player>, p: Pos) -> (r: bool)
    ensures
        r == player_on(players@, p.tile()),
{
    let mut i: usize = 0;
    while i < players.len()
        invariant
            i <= players@.len(),
            forall|k: int| 0 <= k < i ==> !overlaps_spec((#[trigger] players@[k]).pos.tile(), p.tile()),
        decreases players@.len() - i,
    {
        if overlaps(players[i].pos, p) {
            return true;
        }
        i = i + 1;
    }
    false
}

/// Gives the wall marker to every bomb that no player overlaps. A bomb a
/// player still stands on keeps its marker as it was.
pub fn bomb_block_player(world: &mut World)
    requires
        old(world).wf(),
    ensures
        final(world).wf(),
        final(world).bombs@ == blocked_bombs(old(world).bombs@, old(world).players@),
        final(world).players@ == old(world).players@,
        final(world).fires@ == old(world).fires@,
        final(world).walls@ == old(world).walls@,
        final(world).destructibles@ == old(world).destructibles@,
        final(world).buffs@ == old(world).buffs@,
        final(world).portals@ == old(world).portals@,
        final(world).creatures@ == old(world).creatures@,
        final(world).animations@ == old(world).animations@,
        final(world).recovery_events@ == old(world).recovery_events@,
        final(world).game_over_events@ == old(world).game_over_events@,
        final(world).victory_events@ == old(world).victory_events@,
        final(world).next_entity == old(world).next_entity,
{
    let ghost b0 = world.bombs@;
    let ghost target = blocked_bombs(b0, world.players@);
    let mut i: usize = 0;
    while i < world.bombs.len()
        invariant
            0 <= i <= b0.len(),
            old(world).wf(),
            b0 == old(world).bombs@,
            target == blocked_bombs(b0, old(world).players@),
            world.bombs@.len() == b0.len(),
            forall|k: int| 0 <= k < i ==> #[trigger] world.bombs@[k] == target[k],
            forall|k: int| i <= k < b0.len() ==> #[trigger] world.bombs@[k] == b0[k],
            world.players@ == old(world).players@,
            world.fires@ == old(world).fires@,
            world.walls@ == old(world).walls@,
            world.destructibles@ == old(world).destructibles@,
            world.buffs@ == old(world).buffs@,
            world.portals@ == old(world).portals@,
            world.creatures@ == old(world).creatures@,
            world.animations@ == old(world).animations@,
            world.recovery_events@ == old(world).recovery_events@,
            world.game_over_events@ == old(world).game_over_events@,
            world.victory_events@ == old(world).victory_events@,
            world.next_entity == old(world).next_entity,
        decreases b0.len() - i,
    {
        let b = world.bombs[i];
        if !b.wall && !player_overlaps(&world.players, b.pos) {
            world.bombs.set(i, Bomb { wall: true, ..b });
        }
        i = i + 1;
    }
    assert(world.bombs@ =~= target);
    assert forall|k: int| 0 <= k < world.bombs@.len() implies (#[trigger] world.bombs@[k]).wf() by {
        assert(b0[k].wf());
    }
    assert forall|a: int, c: int| 0 <= a < world.bombs@.len() && 0 <= c < world.bombs@.len() && a != c
        implies world.bombs@[a].pos != world.bombs@[c].pos by {
        assert(b0[a].pos != b0[c].pos);
    }
}

proof fn lemma_place_all_len(bs: Seq<Bomb>, ps: Seq<Player>, n: int)
    requires
        0 <= n,
    ensures
        place_all(bs, ps, n).1.len() == n,
    decreases n,
{
    if n > 0 {
        lemma_place_all_len(bs, ps, n - 1);
    }
}

/// A request to place a bomb on a tile that a bomb already occupies leaves the
/// bombs as they were; and however many players ask in turn, no tile ever
/// holds two bombs.
pub proof fn lemma_no_second_bomb(bs: Seq<Bomb>, ps: Seq<Player>, n: int)
    requires
        tiles_unique(bs),
    ensures
        forall|p: Player| bomb_on(bs, target_tile(p.pos)) ==> #[trigger] place_one(bs, p).0 == bs,
        tiles_unique(place_all(bs, ps, n).0),
    decreases n,
{
    if n > 0 {
        lemma_no_second_bomb(bs, ps, n - 1);
        let r = place_all(bs, ps, n - 1).0;
        let p = ps[n - 1];
        if can_place(r, p) {
            let q = r.push(new_bomb(p));
            assert forall|i: int, j: int| 0 <= i < q.len() && 0 <= j < q.len() && i != j
                implies q[i].pos != q[j].pos by {
                if i == r.len() {
                    assert(r[j] == q[j]);
                } else if j == r.len() {
                    assert(r[i] == q[i]);
                }
            }
        }
    }
}

/// A player whose capacity is used up places nothing and keeps its count;
/// a player within its capacity stays within it after placing.
pub proof fn lemma_capacity_bounded(bs: Seq<Bomb>, ps: Seq<Player>, n: int)
    requires
        0 <= n <= ps.len(),
        forall|k: int| 0 <= k < ps.len() ==> (#[trigger] ps[k]).current <= ps[k].max,
    ensures
        forall|k: int| 0 <= k < n ==> (#[trigger] place_all(bs, ps, n).1[k]).current <= ps[k].max,
        forall|k: int| 0 <= k < n && ps[k].current >= ps[k].max ==> #[trigger] place_all(bs, ps, n).1[k] == ps[k],
        forall|p: Player| p.current >= p.max ==> #[trigger] place_one(bs, p) == (bs, p),
    decreases n,
{
    if n > 0 {
        lemma_capacity_bounded(bs, ps, n - 1);
        lemma_place_all_len(bs, ps, n - 1);
        let r = place_all(bs, ps, n - 1);
        assert forall|k: int| 0 <= k < n implies (#[trigger] place_all(bs, ps, n).1[k]).current <= ps[k].max
            && (ps[k].current >= ps[k].max ==> place_all(bs, ps, n).1[k] == ps[k]) by {
            if k < n - 1 {
                assert(place_all(bs, ps, n).1[k] == r.1[k]);
            }
        }
    }
}

proof fn lemma_arm_clear(walls: Seq<Pos>, bombs: Seq<Bomb>, o: Pos, d: Dir, j: int, power: int)
    requires
        1 <= j,
        forall|m: int| j <= m <= power ==> !blocked(walls, bombs, #[trigger] arm_tile(o, d, m)),
    ensures
        arm_from(walls, bombs, o, d, j, power) == power,
    decreases power + 1 - j,
{
    if j <= power {
        lemma_arm_clear(walls, bombs, o, d, j + 1, power);
    }
}

proof fn lemma_arm_stops(walls: Seq<Pos>, bombs: Seq<Bomb>, o: Pos, d: Dir, j: int, k: int, power: int)
    requires
        1 <= j <= k <= power,
        blocked(walls, bombs, arm_tile(o, d, k)),
        forall|m: int| j <= m < k ==> !blocked(walls, bombs, #[trigger] arm_tile(o, d, m)),
    ensures
        arm_from(walls, bombs, o, d, j, power) == k - 1,
    decreases k - j,
{
    if j < k {
        lemma_arm_stops(walls, bombs, o, d, j + 1, k, power);
    }
}

/// With nothing blocking any of the `power` steps in any direction, a blast
/// is its centre and `power` tiles each way: `4 * power + 1` fires.
pub proof fn lemma_blast_in_clear_space(walls: Seq<Pos>, bombs: Seq<Bomb>, b: Bomb)
    requires
        forall|d: Dir, m: int| 1 <= m <= b.power ==> !blocked(walls, bombs, #[trigger] arm_tile(b.pos, d, m)),
    ensures
        arm_len(walls, bombs, b.pos, Dir::Up, b.power as int) == b.power,
        arm_len(walls, bombs, b.pos, Dir::Down, b.power as int) == b.power,
        arm_len(walls, bombs, b.pos, Dir::Left, b.power as int) == b.power,
        arm_len(walls, bombs, b.pos, Dir::Right, b.power as int) == b.power,
        blast(walls, bombs, b).len() == 4 * b.power + 1,
        blast(walls, bombs, b)[0] == b.pos.tile(),
{
    lemma_arm_clear(walls, bombs, b.pos, Dir::Up, 1, b.power as int);
    lemma_arm_clear(walls, bombs, b.pos, Dir::Down, 1, b.power as int);
    lemma_arm_clear(walls, bombs, b.pos, Dir::Left, 1, b.power as int);
    lemma_arm_clear(walls, bombs, b.pos, Dir::Right, 1, b.power as int);
}

/// An arm whose first blocked step is step `k` holds exactly the `k - 1`
/// steps before it, and no fire at or beyond the blocked step.
pub proof fn lemma_blocked_arm(walls: Seq<Pos>, bombs: Seq<Bomb>, o: Pos, d: Dir, power: int, k: int)
    requires
        1 <= k <= power,
        blocked(walls, bombs, arm_tile(o, d, k)),
        forall|m: int| 1 <= m < k ==> !blocked(walls, bombs, #[trigger] arm_tile(o, d, m)),
    ensures
        arm_len(walls, bombs, o, d, power) == k - 1,
        arm_tiles(o, d, arm_len(walls, bombs, o, d, power)).len() == k - 1,
{
    lemma_arm_stops(walls, bombs, o, d, 1, k, power);
}

/// How many of the first `n` bombs of `bs` belong to `v` and have run out.
pub open spec fn fuses_out(bs: Seq<Bomb>, n: int, v: u64) -> nat
    decreases n,
{
    if n <= 0 {
        0
    } else {
        fuses_out(bs, n - 1, v) + if bs[n - 1].timer.is_finished() && bs[n - 1].owner == v { 1nat } else { 0nat }
    }
}

proof fn lemma_count_push(s: Seq<u64>, x: u64, v: u64)
    ensures
        count_of(s.push(x), v) == count_of(s, v) + if x == v { 1nat } else { 0nat },
{
    assert(s.push(x).drop_last() =~= s);
}

/// Each bomb either stays or detonates, and each detonation raises exactly
/// one recovery event, for the bomb's owner.
pub proof fn lemma_one_event_per_detonation(bs: Seq<Bomb>, walls: Seq<Pos>, n: int, v: u64)
    requires
        0 <= n <= bs.len(),
    ensures
        detonate(bs, walls, n).0.len() + detonate(bs, walls, n).2.len() == n,
        count_of(detonate(bs, walls, n).2, v) == fuses_out(bs, n, v),
    decreases n,
{
    if n > 0 {
        lemma_one_event_per_detonation(bs, walls, n - 1, v);
        lemma_count_push(detonate(bs, walls, n - 1).2, bs[n - 1].owner, v);
    }
}

/// When one bomb of a player detonates, draining the recovery events gives
/// that player back exactly one unit of capacity.
pub proof fn lemma_detonation_recovers_one(bs: Seq<Bomb>, walls: Seq<Pos>, ps: Seq<Player>, k: int)
    requires
        0 <= k < ps.len(),
        fuses_out(bs, bs.len() as int, ps[k].entity) == 1,
        ps[k].current >= 1,
    ensures
        recovered(ps, detonate(bs, walls, bs.len() as int).2)[k].current == ps[k].current - 1,
{
    lemma_one_event_per_detonation(bs, walls, bs.len() as int, ps[k].entity);
}

/// Resolving twice against the same fires destroys nothing more and leaves no
/// second pickup: whatever a fire caught the first time is gone or a player.
pub proof fn lemma_destroyed_once(ds: Seq<Destructible>, fs: Seq<Fire>)
    ensures
        ({
            let r = resolve(ds, fs, ds.len() as int);
            let again = resolve(r.0, fs, r.0.len() as int);
            again.0 == r.0 && again.1.len() == 0
        }),
{
    lemma_resolve_survivors(ds, fs, ds.len() as int);
    let r = resolve(ds, fs, ds.len() as int);
    lemma_resolve_spares(r.0, fs, r.0.len() as int);
}

proof fn lemma_resolve_survivors(ds: Seq<Destructible>, fs: Seq<Fire>, n: int)
    ensures
        forall|m: int| 0 <= m < resolve(ds, fs, n).0.len() ==>
            !fire_hits(fs, (#[trigger] resolve(ds, fs, n).0[m]).pos.tile())
            || resolve(ds, fs, n).0[m].kind == Destructable::Player,
    decreases n,
{
    if n > 0 {
        lemma_resolve_survivors(ds, fs, n - 1);
        let r = resolve(ds, fs, n - 1);
        assert forall|m: int| 0 <= m < resolve(ds, fs, n).0.len() implies
            !fire_hits(fs, (#[trigger] resolve(ds, fs, n).0[m]).pos.tile())
            || resolve(ds, fs, n).0[m].kind == Destructable::Player by {
            if m < r.0.len() {
                assert(resolve(ds, fs, n).0[m] == r.0[m]);
            }
        }
    }
}

proof fn lemma_resolve_spares(ds: Seq<Destructible>, fs: Seq<Fire>, n: int)
    requires
        0 <= n <= ds.len(),
        forall|m: int| 0 <= m < ds.len() ==> !fire_hits(fs, (#[trigger] ds[m]).pos.tile())
            || ds[m].kind == Destructable::Player,
    ensures
        resolve(ds, fs, n).0 == ds.take(n),
        resolve(ds, fs, n).1.len() == 0,
    decreases n,
{
    if n > 0 {
        lemma_resolve_spares(ds, fs, n - 1);
        assert(ds.take(n) =~= ds.take(n - 1).push(ds[n - 1]));
    } else {
        assert(ds.take(0) =~= Seq::<Destructible>::empty());
    }
    if n == ds.len() {
        assert(ds.take(n) =~= ds);
    }
}

/// A power-buff box that a fire catches leaves exactly one power pickup, at
/// its own position, and nothing else.
pub proof fn lemma_power_box_yields_one(d: Destructible, fs: Seq<Fire>)
    requires
        d.kind == Destructable::PowerBuffBox,
        fire_hits(fs, d.pos.tile()),
    ensures
        resolve(seq![d], fs, 1).0.len() == 0,
        resolve(seq![d], fs, 1).1 == seq![BuffItem { kind: Buff::PowerBuff, pos: d.pos }],
        resolve(seq![d], fs, 1).2.len() == 0,
{
    let ds = seq![d];
    assert(ds[0] == d);
    let r0 = resolve(ds, fs, 0);
    assert(r0.1.len() == 0);
    assert(resolve(ds, fs, 1).1 =~= seq![BuffItem { kind: Buff::PowerBuff, pos: d.pos }]);
}

/// A bomb some player still overlaps does not take the wall marker; one that
/// no player overlaps has it after a single blocking pass.
pub proof fn lemma_wall_marker(bs: Seq<Bomb>, ps: Seq<Player>, i: int)
    requires
        0 <= i < bs.len(),
    ensures
        player_on(ps, bs[i].pos.tile()) ==> blocked_bombs(bs, ps)[i].wall == bs[i].wall,
        !player_on(ps, bs[i].pos.tile()) ==> blocked_bombs(bs, ps)[i].wall,
{
}

} // verus!

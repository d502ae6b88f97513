use bomberman::bomb::{
    bomb_block_player, bomb_destruction, bomb_trigger, despawn_fire, recovery_bomb_number,
    space_to_set_bomb,
};
use bomberman::grid::Pos;
use bomberman::world::{Buff, Destructable, World};

fn p(x: i64, y: i64) -> Pos {
    Pos { x, y }
}

fn world_with_player(x: i64, y: i64, power: u64, max: u64) -> (World, u64) {
    let mut w = World::new();
    let id = w.spawn_player(p(x, y), power, max, 1).unwrap();
    (w, id)
}

fn fire_at(w: &World, x: i64, y: i64) -> bool {
    w.fires.iter().any(|f| f.pos == p(x, y))
}

#[test]
fn placement_quantizes_and_reserves_capacity() {
    let (mut w, id) = world_with_player(17, 40, 2, 3);
    space_to_set_bomb(&mut w, true);
    assert_eq!(w.bombs.len(), 1);
    assert_eq!(w.bombs[0].pos, p(32, 32));
    assert_eq!(w.bombs[0].owner, id);
    assert_eq!(w.bombs[0].power, 2);
    assert_eq!(w.bombs[0].timer.remaining(), 3000);
    assert!(!w.bombs[0].wall);
    assert_eq!(w.players[0].current, 1);
}

#[test]
fn no_press_places_nothing() {
    let (mut w, _) = world_with_player(0, 0, 1, 3);
    space_to_set_bomb(&mut w, false);
    assert!(w.bombs.is_empty());
    assert_eq!(w.players[0].current, 0);
}

#[test]
fn occupied_tile_gets_no_second_bomb() {
    let (mut w, _) = world_with_player(0, 0, 1, 5);
    space_to_set_bomb(&mut w, true);
    w.move_player(w.players[0].entity, p(10, -10));
    space_to_set_bomb(&mut w, true);
    assert_eq!(w.bombs.len(), 1);
    assert_eq!(w.players[0].current, 1);
    // a second player on the same tile in the same press is refused too
    w.spawn_player(p(-5, 5), 1, 5, 1).unwrap();
    space_to_set_bomb(&mut w, true);
    assert_eq!(w.bombs.len(), 1);
}

#[test]
fn full_capacity_is_rejected() {
    let (mut w, id) = world_with_player(0, 0, 1, 1);
    space_to_set_bomb(&mut w, true);
    w.move_player(id, p(64, 0));
    space_to_set_bomb(&mut w, true);
    assert_eq!(w.bombs.len(), 1);
    assert_eq!(w.players[0].current, 1);
    assert!(w.players[0].current <= w.players[0].max);
}

#[test]
fn zero_capacity_places_nothing() {
    let (mut w, _) = world_with_player(0, 0, 1, 0);
    space_to_set_bomb(&mut w, true);
    assert!(w.bombs.is_empty());
    assert_eq!(w.players[0].current, 0);
}

#[test]
fn later_power_does_not_change_placed_bomb() {
    let (mut w, _) = world_with_player(0, 0, 1, 2);
    space_to_set_bomb(&mut w, true);
    w.players[0].power = 4;
    assert_eq!(w.bombs[0].power, 1);
}

#[test]
fn bomb_waits_for_its_fuse() {
    let (mut w, _) = world_with_player(0, 0, 1, 1);
    space_to_set_bomb(&mut w, true);
    bomb_trigger(&mut w, 2999);
    assert_eq!(w.bombs.len(), 1);
    assert!(w.fires.is_empty());
    assert!(w.recovery_events.is_empty());
    assert_eq!(w.bombs[0].timer.remaining(), 1);
}

#[test]
fn clear_blast_is_a_plus_of_four_p_plus_one() {
    let (mut w, id) = world_with_player(0, 0, 2, 1);
    space_to_set_bomb(&mut w, true);
    bomb_trigger(&mut w, 3000);
    assert!(w.bombs.is_empty());
    assert_eq!(w.fires.len(), 9);
    assert_eq!(w.fires[0].pos, p(0, 0));
    for (x, y) in [(0, 32), (0, 64), (0, -32), (0, -64), (32, 0), (64, 0), (-32, 0), (-64, 0)] {
        assert!(fire_at(&w, x, y));
    }
    assert!(!fire_at(&w, 0, 96));
    assert!(w.fires.iter().all(|f| f.timer.remaining() == 500));
    assert_eq!(w.recovery_events, vec![id]);
}

#[test]
fn wall_truncates_one_arm() {
    let (mut w, _) = world_with_player(0, 0, 3, 1);
    w.spawn_wall(p(0, 64));
    w.spawn_wall(p(-32, 0));
    space_to_set_bomb(&mut w, true);
    bomb_trigger(&mut w, 3000);
    // up: blocked at distance 2 -> 1 fire; left: blocked at 1 -> none
    assert!(fire_at(&w, 0, 32));
    assert!(!fire_at(&w, 0, 64));
    assert!(!fire_at(&w, 0, 96));
    assert!(!fire_at(&w, -32, 0));
    assert!(!fire_at(&w, -64, 0));
    assert_eq!(w.fires.len(), 1 + 1 + 3 + 0 + 3);
}

#[test]
fn marked_bomb_blocks_fire() {
    let (mut w, id) = world_with_player(0, 0, 2, 2);
    space_to_set_bomb(&mut w, true);
    w.move_player(id, p(0, 32));
    space_to_set_bomb(&mut w, true);
    w.move_player(id, p(320, 320));
    bomb_block_player(&mut w);
    assert!(w.bombs.iter().all(|b| b.wall));
    w.bombs[1].timer.pause();
    bomb_trigger(&mut w, 3000);
    assert_eq!(w.bombs.len(), 1);
    assert!(!fire_at(&w, 0, 32));
    assert!(!fire_at(&w, 0, 64));
    assert_eq!(w.fires.len(), 7);
}

#[test]
fn recovery_returns_one_unit() {
    let (mut w, id) = world_with_player(0, 0, 1, 2);
    space_to_set_bomb(&mut w, true);
    w.move_player(id, p(64, 64));
    space_to_set_bomb(&mut w, true);
    assert_eq!(w.players[0].current, 2);
    w.bombs[1].timer.pause();
    bomb_trigger(&mut w, 3000);
    assert_eq!(w.recovery_events.len(), 1);
    recovery_bomb_number(&mut w);
    assert_eq!(w.players[0].current, 1);
    assert!(w.recovery_events.is_empty());
    recovery_bomb_number(&mut w);
    assert_eq!(w.players[0].current, 1);
}

#[test]
fn recovery_stops_at_zero_and_ignores_unknown_players() {
    let (mut w, id) = world_with_player(0, 0, 1, 2);
    w.recovery_events.push(id);
    w.recovery_events.push(id + 100);
    recovery_bomb_number(&mut w);
    assert_eq!(w.players[0].current, 0);
    assert!(w.recovery_events.is_empty());
}

#[test]
fn recovery_goes_to_the_owner_only() {
    let mut w = World::new();
    let a = w.spawn_player(p(0, 0), 1, 2, 1).unwrap();
    let b = w.spawn_player(p(320, 0), 1, 2, 1).unwrap();
    space_to_set_bomb(&mut w, true);
    assert_eq!(w.players[0].current, 1);
    assert_eq!(w.players[1].current, 1);
    w.recovery_events.push(b);
    recovery_bomb_number(&mut w);
    assert_eq!(w.players[0].current, 1);
    assert_eq!(w.players[1].current, 0);
    assert_ne!(a, b);
}

#[test]
fn fire_expires_after_half_a_second() {
    let (mut w, _) = world_with_player(0, 0, 1, 1);
    space_to_set_bomb(&mut w, true);
    bomb_trigger(&mut w, 3000);
    assert_eq!(w.fires.len(), 5);
    despawn_fire(&mut w, 499);
    assert_eq!(w.fires.len(), 5);
    despawn_fire(&mut w, 1);
    assert!(w.fires.is_empty());
}

#[test]
fn power_box_leaves_one_power_buff() {
    let (mut w, _) = world_with_player(0, 0, 1, 1);
    w.spawn_destructible(Destructable::PowerBuffBox, p(32, 0)).unwrap();
    space_to_set_bomb(&mut w, true);
    bomb_trigger(&mut w, 3000);
    bomb_destruction(&mut w);
    assert_eq!(w.buffs.len(), 1);
    assert_eq!(w.buffs[0].kind, Buff::PowerBuff);
    assert_eq!(w.buffs[0].pos, p(32, 0));
    assert!(w.destructibles.iter().all(|d| d.kind != Destructable::PowerBuffBox));
    bomb_destruction(&mut w);
    assert_eq!(w.buffs.len(), 1);
}

#[test]
fn each_box_kind_resolves() {
    let mut w = World::new();
    let pl = w.spawn_player(p(0, 0), 1, 1, 1).unwrap();
    w.spawn_destructible(Destructable::NormalBox, p(0, 32)).unwrap();
    w.spawn_destructible(Destructable::SpeedBuffBox, p(0, -32)).unwrap();
    w.spawn_destructible(Destructable::BombNumberBuffBox, p(32, 0)).unwrap();
    let far = w.spawn_destructible(Destructable::NormalBox, p(320, 320)).unwrap();
    space_to_set_bomb(&mut w, true);
    bomb_trigger(&mut w, 3000);
    bomb_destruction(&mut w);
    assert_eq!(w.game_over_events, vec![pl]);
    let kinds: Vec<Buff> = w.buffs.iter().map(|b| b.kind).collect();
    assert_eq!(kinds, vec![Buff::SpeedBuff, Buff::BombNumberBuff]);
    assert_eq!(w.buffs[0].pos, p(0, -32));
    assert_eq!(w.destructibles.len(), 2);
    assert_eq!(w.destructibles[0].entity, pl);
    assert_eq!(w.destructibles[1].entity, far);
}

#[test]
fn standing_player_keeps_bomb_open() {
    let (mut w, id) = world_with_player(5, 5, 1, 1);
    space_to_set_bomb(&mut w, true);
    bomb_block_player(&mut w);
    assert!(!w.bombs[0].wall);
    w.move_player(id, p(31, 0));
    bomb_block_player(&mut w);
    assert!(!w.bombs[0].wall);
    w.move_player(id, p(32, 0));
    bomb_block_player(&mut w);
    assert!(w.bombs[0].wall);
    w.move_player(id, p(0, 0));
    bomb_block_player(&mut w);
    assert!(w.bombs[0].wall);
}

use bomberman::grid::{overlaps, quantize, Pos, TILE_WIDTH};
use bomberman::timer::{Timer, BOMB_FUSE_MS, FIRE_MS};

#[test]
fn quantize_rounds_half_up() {
    assert_eq!(TILE_WIDTH, 32);
    assert_eq!(quantize(0), 0);
    assert_eq!(quantize(15), 0);
    assert_eq!(quantize(16), 32);
    assert_eq!(quantize(47), 32);
    assert_eq!(quantize(48), 64);
    assert_eq!(quantize(-16), 0);
    assert_eq!(quantize(-17), -32);
    assert_eq!(quantize(-48), -32);
    assert_eq!(quantize(-49), -64);
}

#[test]
fn overlap_is_open_interval() {
    let a = Pos { x: 0, y: 0 };
    assert!(overlaps(a, Pos { x: 31, y: -31 }));
    assert!(!overlaps(a, Pos { x: 32, y: 0 }));
    assert!(!overlaps(a, Pos { x: 0, y: -32 }));
    assert!(overlaps(a, a));
}

#[test]
fn timer_counts_down_and_stops_at_duration() {
    let mut t = Timer::new(BOMB_FUSE_MS);
    assert_eq!(t.remaining(), 3000);
    t.tick(1000);
    assert_eq!(t.remaining(), 2000);
    assert!(!t.finished());
    t.tick(5000);
    assert!(t.finished());
    assert_eq!(t.elapsed, 3000);
    assert_eq!(t.remaining(), 0);
}

#[test]
fn paused_timer_does_not_advance() {
    let mut t = Timer::new(FIRE_MS);
    t.tick(100);
    t.pause();
    assert!(t.is_paused());
    t.tick(1000);
    assert_eq!(t.remaining(), 400);
    t.unpause();
    t.tick(400);
    assert!(t.finished());
}

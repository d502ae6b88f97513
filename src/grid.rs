//! Tile quantization and the axis-aligned overlap test.
use vstd::prelude::*;

verus! {

/// Width of one tile, in world units.
pub const TILE_WIDTH: i64 = 32;

/// Half a tile, in world units.
pub const HALF_TILE: i64 = 16;

/// Largest absolute coordinate an entity may stand at.
pub const MAX_COORD: i64 = 1099511627776;

/// `MAX_COORD` counted in tiles.
pub const MAX_TILES: i64 = 34359738368;

/// A point of the world, in world units.
#[derive(Clone, Copy, Debug, PartialEq, Eq, Structural)]
pub struct Pos {
    pub x: i64,
    pub y: i64,
}

/// A coordinate an entity may stand at.
pub open spec fn coord_ok(c: int) -> bool {
    -(MAX_COORD as int) <= c <= MAX_COORD as int
}

impl Pos {
    /// Both coordinates lie in the playing field.
    pub open spec fn in_field(self) -> bool {
        coord_ok(self.x as int) && coord_ok(self.y as int)
    }

    /// The point as a pair of mathematical integers.
    pub open spec fn tile(self) -> (int, int) {
        (self.x as int, self.y as int)
    }
}

/// The tile-aligned coordinate nearest to `c`; a half rounds up.
pub open spec fn quantize_spec(c: int) -> int {
    ((c + HALF_TILE as int) / (TILE_WIDTH as int)) * TILE_WIDTH as int
}

pub open spec fn abs_diff(a: int, b: int) -> int {
    if a >= b { a - b } else { b - a }
}

/// Two points overlap when both axis distances are strictly below one tile.
pub open spec fn overlaps_spec(a: (int, int), b: (int, int)) -> bool {
    abs_diff(a.0, b.0) < TILE_WIDTH as int && abs_diff(a.1, b.1) < TILE_WIDTH as int
}

/// Rounds a coordinate to the nearest tile, a half rounding up.
pub fn quantize(c: i64) -> (r: i64)
    requires
        coord_ok(c as int),
    ensures
        r == quantize_spec(c as int),
        coord_ok(r as int),
{
    let s: u64 = (c + MAX_COORD + HALF_TILE) as u64;
    let q: u64 = s / (TILE_WIDTH as u64);
    assert(q as int == (c + HALF_TILE as int) / (TILE_WIDTH as int) + MAX_TILES as int);
    assert(q <= 2 * MAX_TILES);
    let r: i64 = (q as i64 - MAX_TILES) * TILE_WIDTH;
    r
}

/// Quantizes both coordinates of a point.
pub fn quantize_pos(p: Pos) -> (r: Pos)
    requires
        p.in_field(),
    ensures
        r.x == quantize_spec(p.x as int),
        r.y == quantize_spec(p.y as int),
        r.in_field(),
{
    Pos { x: quantize(p.x), y: quantize(p.y) }
}

/// The overlap test used for every collision between two entities.
pub fn overlaps(a: Pos, b: Pos) -> (r: bool)
    ensures
        r == overlaps_spec(a.tile(), b.tile()),
{
    let dx: i128 = a.x as i128 - b.x as i128;
    let dy: i128 = a.y as i128 - b.y as i128;
    let ax: i128 = if dx >= 0 { dx } else { -dx };
    let ay: i128 = if dy >= 0 { dy } else { -dy };
    ax < TILE_WIDTH as i128 && ay < TILE_WIDTH as i128
}

} // verus!

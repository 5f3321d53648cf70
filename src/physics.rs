use vstd::prelude::*;
use crate::math::{SCALE, floor_sqrt, is_floor_sqrt, isqrt};
use crate::tables::{Circle, DbVector2, Entity, MAX_WORLD_SIZE};

verus! {

/// Mass of a freshly spawned player circle.
pub const START_PLAYER_MASS: u32 = 15;

/// Base move speed, in world units per tick, of a circle of starting mass.
pub const START_PLAYER_SPEED: u32 = 10;

/// A circle of radius `sqrt(mass)` world units, in position units.
pub open spec fn radius(mass: nat) -> nat {
    floor_sqrt(mass * (SCALE * SCALE) as nat)
}

/// `2 * START_PLAYER_SPEED / (1 + sqrt(mass / START_PLAYER_MASS))` world units,
/// in position units.
pub open spec fn max_move_speed(mass: nat) -> nat {
    (2 * START_PLAYER_SPEED * SCALE * SCALE) as nat / (SCALE as nat + floor_sqrt(
        (mass * (SCALE * SCALE) as nat) / START_PLAYER_MASS as nat,
    ))
}

/// `v` clamped into `[lo, hi]`, the bound `lo` taking precedence.
pub open spec fn clamp(v: int, lo: int, hi: int) -> int {
    if v < lo {
        lo
    } else if v > hi {
        hi
    } else {
        v
    }
}

/// `d * k / SCALE^2`, rounded toward zero.
pub open spec fn scaled(d: int, k: nat) -> int {
    let q = (SCALE * SCALE) as int;
    if d >= 0 {
        (d * k) / q
    } else {
        -((-d * k) / q)
    }
}

/// One coordinate after a tick of movement, kept a radius away from the walls.
pub open spec fn moved_coord(p: int, d: int, speed: nat, mass: nat, world_size: nat) -> int {
    let r = radius(mass) as int;
    clamp(p + scaled(d, speed * max_move_speed(mass)), r, world_size * SCALE - r)
}

/// The entity of circle `c` after one tick of movement.
pub open spec fn moved_entity(e: Entity, c: Circle, world_size: nat) -> Entity {
    Entity {
        position: DbVector2 {
            x: moved_coord(e.position.x as int, c.direction.x as int, c.speed as nat, e.mass as nat, world_size) as i64,
            y: moved_coord(e.position.y as int, c.direction.y as int, c.speed as nat, e.mass as nat, world_size) as i64,
        },
        ..e
    }
}

/// The squared distance between two points.
pub open spec fn dist_sq(a: DbVector2, b: DbVector2) -> int {
    (a.x - b.x) * (a.x - b.x) + (a.y - b.y) * (a.y - b.y)
}

/// The larger of two masses.
pub open spec fn max_mass(a: u32, b: u32) -> nat {
    if a >= b {
        a as nat
    } else {
        b as nat
    }
}

/// Two entities touch when their centres lie within the larger radius:
/// `dist^2 <= max(radius(a), radius(b))^2`, and `radius^2` is the mass.
pub open spec fn overlapping(a: Entity, b: Entity) -> bool {
    dist_sq(a.position, b.position) <= max_mass(a.mass, b.mass) * (SCALE * SCALE) as nat
}

/// The radius of an entity of the given mass, in position units.
pub fn mass_to_radius(mass: u32) -> (r: u64)
    ensures
        r == radius(mass as nat),
        is_floor_sqrt(mass as nat * 1_000_000, r as nat),
        r <= 70_000_000,
{
    let n: u128 = mass as u128 * 1_000_000;
    let r = isqrt(n);
    assert(r <= 70_000_000) by (nonlinear_arith)
        requires
            r * r <= n,
            n <= 0xffff_ffffu128 * 1_000_000,
    ;
    r as u64
}

/// The fastest a circle of the given mass moves in one tick, in position units.
pub fn mass_to_max_move_speed(mass: u32) -> (r: u64)
    ensures
        r == max_move_speed(mass as nat),
        r <= 2 * START_PLAYER_SPEED * SCALE,
{
    let q = isqrt(mass as u128 * 1_000_000 / 15);
    let num: u128 = 20_000_000;
    let r = num / (1000 + q);
    assert(r <= 20_000) by (nonlinear_arith)
        requires
            r as int == num as int / (1000 + q as int),
            num == 20_000_000,
    ;
    r as u64
}

fn clamp_coord(v: i128, lo: i128, hi: i128) -> (r: i128)
    ensures
        r == clamp(v as int, lo as int, hi as int),
{
    if v < lo {
        lo
    } else if v > hi {
        hi
    } else {
        v
    }
}

fn scale_component(d: i64, k: u64) -> (r: i128)
    requires
        -(SCALE as int) <= d <= SCALE,
        k <= SCALE * 2 * START_PLAYER_SPEED * SCALE,
    ensures
        r == scaled(d as int, k as nat),
        -20_000 <= r <= 20_000,
{
    let q: i128 = (SCALE * SCALE) as i128;
    if d >= 0 {
        assert(d * k <= 1000 * 20_000_000) by (nonlinear_arith)
            requires
                0 <= d <= 1000,
                0 <= k <= 20_000_000,
        ;
        let r = (d as i128 * k as i128) / q;
        assert(0 <= r <= 20_000) by (nonlinear_arith)
            requires
                r == (d * k) / 1_000_000,
                0 <= d * k <= 1000 * 20_000_000,
        ;
        r
    } else {
        assert(-d * k <= 1000 * 20_000_000) by (nonlinear_arith)
            requires
                0 <= -d <= 1000,
                0 <= k <= 20_000_000,
        ;
        let r = (-(d as i128) * k as i128) / q;
        assert(0 <= r <= 20_000) by (nonlinear_arith)
            requires
                r == (-d * k) / 1_000_000,
                0 <= -d * k <= 1000 * 20_000_000,
        ;
        -r
    }
}

/// Moves the entity of circle `c` one tick along its direction at its speed,
/// keeping the whole circle inside a world of the given size.
pub fn move_entity(e: &Entity, c: &Circle, world_size: u64) -> (r: Entity)
    requires
        world_size <= MAX_WORLD_SIZE,
        c.speed <= SCALE,
        -(SCALE as int) <= c.direction.x <= SCALE,
        -(SCALE as int) <= c.direction.y <= SCALE,
    ensures
        r == moved_entity(*e, *c, world_size as nat),
        2 * radius(e.mass as nat) <= world_size * SCALE ==> {
            &&& radius(e.mass as nat) <= r.position.x <= world_size * SCALE - radius(e.mass as nat)
            &&& radius(e.mass as nat) <= r.position.y <= world_size * SCALE - radius(e.mass as nat)
        },
{
    let rad = mass_to_radius(e.mass);
    let ms = mass_to_max_move_speed(e.mass);
    assert(c.speed * ms <= 1000 * 20_000) by (nonlinear_arith)
        requires
            c.speed <= 1000,
            ms <= 20_000,
    ;
    let k: u64 = c.speed * ms;
    let lo: i128 = rad as i128;
    let hi: i128 = world_size as i128 * 1000 - rad as i128;
    let dx = scale_component(c.direction.x, k);
    let dy = scale_component(c.direction.y, k);
    let x = clamp_coord(e.position.x as i128 + dx, lo, hi);
    let y = clamp_coord(e.position.y as i128 + dy, lo, hi);
    Entity { entity_id: e.entity_id, position: DbVector2 { x: x as i64, y: y as i64 }, mass: e.mass }
}

/// Whether two entities overlap: their squared centre distance is at most the
/// square of the larger radius.
pub fn is_overlapping(a: &Entity, b: &Entity) -> (r: bool)
    ensures
        r == overlapping(*a, *b),
{
    let m: u128 = if a.mass >= b.mass { a.mass as u128 } else { b.mass as u128 };
    let lim: u128 = m * 1_000_000;
    let dx: i128 = a.position.x as i128 - b.position.x as i128;
    let dy: i128 = a.position.y as i128 - b.position.y as i128;
    let ax: u128 = if dx < 0 { (-dx) as u128 } else { dx as u128 };
    let ay: u128 = if dy < 0 { (-dy) as u128 } else { dy as u128 };
    assert(ax * ax <= 0xffff_ffff_ffff_ffffu128 * 0xffff_ffff_ffff_ffffu128) by (nonlinear_arith)
        requires
            ax <= 0xffff_ffff_ffff_ffffu128,
    ;
    assert(ay * ay <= 0xffff_ffff_ffff_ffffu128 * 0xffff_ffff_ffff_ffffu128) by (nonlinear_arith)
        requires
            ay <= 0xffff_ffff_ffff_ffffu128,
    ;
    assert(ax * ax == dx * dx) by (nonlinear_arith)
        requires
            ax == dx || ax == -dx,
    ;
    assert(ay * ay == dy * dy) by (nonlinear_arith)
        requires
            ay == dy || ay == -dy,
    ;
    let sx = ax * ax;
    let sy = ay * ay;
    if sx > lim || sy > lim {
        false
    } else {
        sx + sy <= lim
    }
}

} // verus!

use vstd::prelude::*;
use crate::collision::{absorbs, lemma_compact_all, move_all_players_outcome};
use crate::food::{TARGET_FOOD_COUNT, food_count, spawn_food_outcome};
use crate::math::{SCALE, floor_sqrt, lemma_floor_sqrt_exists, lemma_floor_sqrt_monotone};
use crate::physics::{START_PLAYER_MASS, max_move_speed, moved_entity, radius};
use crate::session::{disconnect_outcome, index_of, not_owned_by};
use crate::tables::{Body, Circle, Entity, GameError, Identity, World, has_identity};

verus! {

/// After moving, a circle lies wholly inside the arena: each coordinate of
/// its centre is at least its radius from either wall, whenever the arena is
/// wide enough to hold it.
pub proof fn lemma_moved_inside_walls(e: Entity, c: Circle, world_size: nat)
    requires
        world_size * SCALE <= i64::MAX,
        2 * radius(e.mass as nat) <= world_size * SCALE,
    ensures
        ({
            let m = moved_entity(e, c, world_size);
            let r = radius(e.mass as nat) as int;
            &&& r <= m.position.x <= world_size * SCALE - r
            &&& r <= m.position.y <= world_size * SCALE - r
        }),
{
}

/// A circle whose mass is at least the safe ratio of its attacker's is never
/// absorbed by it.
pub proof fn lemma_safe_ratio(attacker: Body, other: Body)
    requires
        other.is_circle(),
        100 * (other.entity.mass as int) >= 85 * (attacker.entity.mass as int),
    ensures
        !absorbs(attacker, other),
{
}

/// Starting from no food with a player connected, one run of the food
/// controller brings the food count to exactly its target, and a second run
/// leaves the store as it is.
pub proof fn lemma_food_population_converges(
    w0: World,
    w1: World,
    w2: World,
    r1: Result<(), GameError>,
    r2: Result<(), GameError>,
)
    requires
        w0.players@.len() > 0,
        w0.config is Some,
        food_count(w0.bodies@) == 0,
        w0.next_entity_id + TARGET_FOOD_COUNT <= u32::MAX,
        spawn_food_outcome(w0, w1, r1),
        spawn_food_outcome(w1, w2, r2),
    ensures
        r1 == Ok::<(), GameError>(()),
        food_count(w1.bodies@) == TARGET_FOOD_COUNT,
        r2 == Ok::<(), GameError>(()),
        w2 == w1,
{
}

/// Disconnecting a player that owns no circle removes no entity, and moves
/// its row to the logged-out table exactly once.
pub proof fn lemma_disconnect_without_circles(w1: World, identity: Identity, w2: World, r: Result<(), GameError>)
    requires
        w1.wf(),
        has_identity(w1.players@, identity),
        forall|k: int| 0 <= k < w1.bodies@.len() ==> !((#[trigger] w1.bodies@[k]).is_circle()
            && w1.bodies@[k].owner() == w1.players@[index_of(w1.players@, identity)].player_id),
        disconnect_outcome(w1, identity, w2, r),
    ensures
        r == Ok::<(), GameError>(()),
        w2.bodies@ == w1.bodies@,
        w2.logged_out_players@.len() == w1.logged_out_players@.len() + 1,
        w2.logged_out_players@.last() == w1.players@[index_of(w1.players@, identity)],
        w2.players@.len() == w1.players@.len() - 1,
        !has_identity(w2.players@, identity),
{
    let k = index_of(w1.players@, identity);
    let pid = w1.players@[k].player_id;
    lemma_compact_all(w1.bodies@, not_owned_by(w1.bodies@, pid));
    if has_identity(w2.players@, identity) {
        let j = choose|j: int| 0 <= j < w2.players@.len() && (#[trigger] w2.players@[j]).identity == identity;
        let jj = if j < k { j } else { j + 1 };
        assert(w2.players@[j] == w1.players@[jj]);
    }
}

/// The movement tick is a function of the store: two ticks from the same
/// state reach the same state and report the same result.
pub proof fn lemma_tick_deterministic(
    a1: World,
    a2: World,
    ra: Result<(), GameError>,
    b1: World,
    b2: World,
    rb: Result<(), GameError>,
)
    requires
        a1 == b1,
        move_all_players_outcome(a1, a2, ra),
        move_all_players_outcome(b1, b2, rb),
    ensures
        a2.bodies@ == b2.bodies@,
        a2.config == b2.config,
        a2.players@ == b2.players@,
        a2.logged_out_players@ == b2.logged_out_players@,
        a2.next_entity_id == b2.next_entity_id,
        ra == rb,
{
}

/// Heavier circles are never faster: the maximum move speed does not grow
/// with mass.
pub proof fn lemma_max_speed_non_increasing(m1: nat, m2: nat)
    requires
        m1 <= m2,
    ensures
        max_move_speed(m2) <= max_move_speed(m1),
{
    let n1 = (m1 * (SCALE * SCALE) as nat) / START_PLAYER_MASS as nat;
    let n2 = (m2 * (SCALE * SCALE) as nat) / START_PLAYER_MASS as nat;
    assert(n1 <= n2) by (nonlinear_arith)
        requires
            m1 <= m2,
            n1 == (m1 * 1_000_000) / 15,
            n2 == (m2 * 1_000_000) / 15,
    ;
    lemma_floor_sqrt_exists(n1);
    lemma_floor_sqrt_exists(n2);
    lemma_floor_sqrt_monotone(n1, n2, floor_sqrt(n1), floor_sqrt(n2));
    let d1 = 1000 + floor_sqrt(n1);
    let d2 = 1000 + floor_sqrt(n2);
    assert(20_000_000nat / d2 <= 20_000_000nat / d1) by (nonlinear_arith)
        requires
            0 < d1 <= d2,
    ;
}

} // verus!

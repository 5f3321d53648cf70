use vstd::prelude::*;
use rand::rngs::StdRng;
use crate::math::{SCALE, is_floor_sqrt, lemma_floor_sqrt_monotone};
use crate::physics::{radius, mass_to_radius};
use crate::rng::gen_range;
use crate::tables::{Body, DbVector2, Entity, GameError, Role, SpawnFoodTimer, World};

verus! {

/// Smallest mass of a food pellet.
pub const FOOD_MASS_MIN: u32 = 2;

/// Food pellets weigh less than this.
pub const FOOD_MASS_MAX: u32 = 4;

/// The number of food pellets the controller keeps in the arena.
pub const TARGET_FOOD_COUNT: usize = 600;

/// The number of food pellets among `b`.
pub open spec fn food_count(b: Seq<Body>) -> nat
    decreases b.len(),
{
    if b.len() == 0 {
        0
    } else {
        food_count(b.drop_last()) + if b.last().is_food() {
            1nat
        } else {
            0
        }
    }
}

/// `w2` is `w1` with body `x` added under the next entity id.
pub open spec fn appended(w1: World, w2: World, x: Body) -> bool {
    &&& x.entity.entity_id == w1.next_entity_id
    &&& w2.bodies@ == w1.bodies@.push(x)
    &&& w2.next_entity_id == w1.next_entity_id + 1
    &&& w2.config == w1.config
    &&& w2.players@ == w1.players@
    &&& w2.logged_out_players@ == w1.logged_out_players@
    &&& w2.spawn_food_timers@ == w1.spawn_food_timers@
    &&& w2.move_all_players_timers@ == w1.move_all_players_timers@
    &&& w2.next_player_id == w1.next_player_id
    &&& w2.next_scheduled_id == w1.next_scheduled_id
}

/// A pellet the controller may spawn: food of mass in
/// `FOOD_MASS_MIN..FOOD_MASS_MAX`, placed a radius or more inside the walls.
pub open spec fn spawnable_food(x: Body, world_size: nat) -> bool {
    let r = radius(x.entity.mass as nat) as int;
    &&& x.is_food()
    &&& FOOD_MASS_MIN <= x.entity.mass < FOOD_MASS_MAX
    &&& r <= x.entity.position.x < world_size * SCALE - r
    &&& r <= x.entity.position.y < world_size * SCALE - r
}

/// A world whose every pellet can be spawned in one with at least `ws` units.
pub open spec fn food_fits(world_size: nat) -> bool {
    2 * radius((FOOD_MASS_MAX - 1) as nat) < world_size * SCALE
}

proof fn lemma_food_count_push(b: Seq<Body>, x: Body)
    ensures
        food_count(b.push(x)) == food_count(b) + if x.is_food() {
            1nat
        } else {
            0
        },
{
    assert(b.push(x).drop_last() =~= b);
}

/// Counts the food pellets of the world.
pub fn count_food(world: &World) -> (r: usize)
    ensures
        r == food_count(world.bodies@),
{
    let mut c: usize = 0;
    let mut k: usize = 0;
    while k < world.bodies.len()
        invariant
            k <= world.bodies.len(),
            c == food_count(world.bodies@.take(k as int)),
            c <= k,
        decreases world.bodies.len() - k,
    {
        proof {
            assert(world.bodies@.take(k + 1).drop_last() =~= world.bodies@.take(k as int));
        }
        if let Role::Food = world.bodies[k].role {
            c += 1;
        }
        k += 1;
    }
    proof {
        assert(world.bodies@.take(world.bodies.len() as int) =~= world.bodies@);
    }
    c
}

/// Adds a food pellet of the given mass at the given position under the next
/// entity id, and returns its entity. Fails, changing nothing, when every
/// entity id has been handed out.
pub fn place_food(world: &mut World, mass: u32, position: DbVector2) -> (r: Result<Entity, GameError>)
    requires
        old(world).wf(),
        mass > 0,
    ensures
        final(world).wf(),
        old(world).next_entity_id == u32::MAX ==> r == Err::<Entity, GameError>(GameError::IdsExhausted)
            && *final(world) == *old(world),
        old(world).next_entity_id < u32::MAX ==> r == Ok::<Entity, GameError>(
            Entity { entity_id: old(world).next_entity_id, position, mass },
        ) && appended(*old(world), *final(world), Body {
            entity: Entity { entity_id: old(world).next_entity_id, position, mass },
            role: Role::Food,
        }),
{
    if world.next_entity_id == u32::MAX {
        return Err(GameError::IdsExhausted);
    }
    let e = Entity { entity_id: world.next_entity_id, position, mass };
    world.bodies.push(Body { entity: e, role: Role::Food });
    world.next_entity_id = world.next_entity_id + 1;
    proof {
        let b = world.bodies@;
        assert forall|i: int, j: int| 0 <= i < j < b.len() implies
            #[trigger] b[i].entity.entity_id < #[trigger] b[j].entity.entity_id by {
            if j == b.len() - 1 {
                assert(old(world).bodies@[i].entity.entity_id < old(world).next_entity_id);
            } else {
                assert(b[i] == old(world).bodies@[i] && b[j] == old(world).bodies@[j]);
            }
        }
        assert forall|i: int| 0 <= i < b.len() implies (#[trigger] b[i]).wf()
            && b[i].entity.entity_id < world.next_entity_id by {
            if i < b.len() - 1 {
                assert(b[i] == old(world).bodies@[i]);
            }
        }
    }
    Ok(e)
}

/// Tops the food population up to `TARGET_FOOD_COUNT`, drawing each pellet's
/// mass from `FOOD_MASS_MIN..FOOD_MASS_MAX` and its position so that it lies
/// wholly inside the arena. Does nothing while no player is connected. Fails,
/// changing nothing, when the configuration is missing or too few entity ids
/// are left.
pub fn spawn_food(world: &mut World, _timer: &SpawnFoodTimer, rng: &mut StdRng) -> (r: Result<(), GameError>)
    requires
        old(world).wf(),
        old(world).players@.len() > 0 && old(world).config is Some ==> food_fits(old(world).world_size()),
    ensures
        final(world).wf(),
        spawn_food_outcome(*old(world), *final(world), r),
{
    if world.players.len() == 0 {
        return Ok(());
    }
    let ws = match world.config {
        Some(c) => c.world_size,
        None => {
            return Err(GameError::ConfigNotFound);
        },
    };
    let fc = count_food(world);
    if fc >= TARGET_FOOD_COUNT {
        return Ok(());
    }
    let need: usize = TARGET_FOOD_COUNT - fc;
    if world.next_entity_id as u64 + need as u64 > u32::MAX as u64 {
        return Err(GameError::IdsExhausted);
    }
    let ghost w0 = *world;
    let mut count: usize = fc;
    let r3 = mass_to_radius(FOOD_MASS_MAX - 1);
    proof {
        assert(world.bodies@.subrange(0, world.bodies@.len() as int) =~= world.bodies@);
        assert(world.bodies@.subrange(world.bodies@.len() as int, world.bodies@.len() as int).len() == 0);
    }
    while count < TARGET_FOOD_COUNT
        invariant
            world.wf(),
            fc <= count <= TARGET_FOOD_COUNT,
            need == TARGET_FOOD_COUNT - fc,
            count == food_count(world.bodies@),
            world.config == w0.config,
            world.config == Some(crate::tables::Config { id: 0, world_size: ws }),
            food_fits(ws as nat),
            r3 == radius((FOOD_MASS_MAX - 1) as nat),
            is_floor_sqrt(3 * 1_000_000, r3 as nat),
            w0.next_entity_id as int + need <= u32::MAX,
            world.next_entity_id == w0.next_entity_id + (count - fc),
            grown_by_food(w0, *world, ws as nat),
        decreases TARGET_FOOD_COUNT - count,
    {
        let mass = gen_range(&mut *rng, FOOD_MASS_MIN as u64, FOOD_MASS_MAX as u64) as u32;
        let rad = mass_to_radius(mass);
        proof {
            lemma_floor_sqrt_monotone(mass as nat * 1_000_000, 3 * 1_000_000, rad as nat, r3 as nat);
        }
        let lo: u64 = rad;
        let hi: u64 = ws * 1000 - rad;
        let x = gen_range(&mut *rng, lo, hi);
        let y = gen_range(&mut *rng, lo, hi);
        let ghost wb = *world;
        let placed = place_food(world, mass, DbVector2 { x: x as i64, y: y as i64 });
        proof {
            let nb = Body {
                entity: Entity { entity_id: wb.next_entity_id, position: DbVector2 { x: x as i64, y: y as i64 }, mass },
                role: Role::Food,
            };
            lemma_food_count_push(wb.bodies@, nb);
            assert(world.bodies@.subrange(0, w0.bodies@.len() as int) =~= wb.bodies@.subrange(0, w0.bodies@.len() as int));
            let added = world.bodies@.subrange(w0.bodies@.len() as int, world.bodies@.len() as int);
            let added0 = wb.bodies@.subrange(w0.bodies@.len() as int, wb.bodies@.len() as int);
            assert(added =~= added0.push(nb));
        }
        match placed {
            Ok(_) => {},
            Err(_) => {
                return Err(GameError::IdsExhausted);
            },
        }
        count += 1;
    }
    Ok(())
}

/// `w2` is `w1` with fresh spawnable pellets appended under consecutive ids.
pub open spec fn grown_by_food(w1: World, w2: World, world_size: nat) -> bool {
    let n = w1.bodies@.len();
    let added = w2.bodies@.subrange(n as int, w2.bodies@.len() as int);
    &&& n <= w2.bodies@.len()
    &&& w2.bodies@.subrange(0, n as int) == w1.bodies@
    &&& w2.next_entity_id == w1.next_entity_id + added.len()
    &&& forall|k: int| 0 <= k < added.len() ==> spawnable_food(#[trigger] added[k], world_size)
        && added[k].entity.entity_id == w1.next_entity_id + k
    &&& same_but_bodies_and_ids(w1, w2)
}

/// Everything but the entities and the entity-id counter is left as it is.
pub open spec fn same_but_bodies_and_ids(w1: World, w2: World) -> bool {
    &&& w2.config == w1.config
    &&& w2.players@ == w1.players@
    &&& w2.logged_out_players@ == w1.logged_out_players@
    &&& w2.spawn_food_timers@ == w1.spawn_food_timers@
    &&& w2.move_all_players_timers@ == w1.move_all_players_timers@
    &&& w2.next_player_id == w1.next_player_id
    &&& w2.next_scheduled_id == w1.next_scheduled_id
}

/// What one run of the food controller does.
pub open spec fn spawn_food_outcome(w1: World, w2: World, r: Result<(), GameError>) -> bool {
    let fc = food_count(w1.bodies@);
    if w1.players@.len() == 0 {
        r == Ok::<(), GameError>(()) && w2 == w1
    } else if w1.config is None {
        r == Err::<(), GameError>(GameError::ConfigNotFound) && w2 == w1
    } else if fc >= TARGET_FOOD_COUNT {
        r == Ok::<(), GameError>(()) && w2 == w1
    } else if w1.next_entity_id + (TARGET_FOOD_COUNT - fc) > u32::MAX {
        r == Err::<(), GameError>(GameError::IdsExhausted) && w2 == w1
    } else {
        &&& r == Ok::<(), GameError>(())
        &&& grown_by_food(w1, w2, w1.world_size())
        &&& food_count(w2.bodies@) == TARGET_FOOD_COUNT
        &&& w2.bodies@.len() == w1.bodies@.len() + (TARGET_FOOD_COUNT - fc)
    }
}

} // verus!

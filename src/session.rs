use vstd::prelude::*;
use rand::rngs::StdRng;
use crate::collision::{compact, compact_exec, lemma_compact, same_but_bodies};
use crate::food::appended;
use crate::math::{SCALE, is_floor_sqrt, isqrt, lemma_floor_sqrt_monotone};
use crate::physics::{START_PLAYER_MASS, mass_to_radius, radius};
use crate::rng::gen_range;
use crate::tables::{
    Body, Circle, Config, DbVector2, Entity, GameError, Identity, MoveAllPlayersTimer, Player,
    Role, ScheduleAt, SpawnFoodTimer, Timestamp, World, distinct_rows, has_identity,
};

verus! {

/// The world size a freshly initialised world gets.
pub const DEFAULT_WORLD_SIZE: u64 = 1000;

/// Microseconds between two runs of the food controller.
pub const SPAWN_FOOD_INTERVAL_MICROS: u64 = 500_000;

/// Microseconds between two movement ticks.
pub const MOVE_ALL_PLAYERS_INTERVAL_MICROS: u64 = 50_000;

impl World {
    /// An empty store: no configuration, entities, players or timers.
    pub fn new() -> (r: World)
        ensures
            r.wf(),
            r.config is None,
            r.bodies@.len() == 0,
            r.players@.len() == 0,
            r.logged_out_players@.len() == 0,
            r.spawn_food_timers@.len() == 0,
            r.move_all_players_timers@.len() == 0,
            r.next_entity_id == 1,
            r.next_player_id == 1,
            r.next_scheduled_id == 1,
    {
        World {
            config: None,
            bodies: Vec::new(),
            players: Vec::new(),
            logged_out_players: Vec::new(),
            spawn_food_timers: Vec::new(),
            move_all_players_timers: Vec::new(),
            next_entity_id: 1,
            next_player_id: 1,
            next_scheduled_id: 1,
        }
    }
}

/// Creates the configuration singleton with the default world size and
/// schedules the food controller and the movement tick. Fails, changing
/// nothing, when the configuration exists already.
pub fn init(world: &mut World) -> (r: Result<(), GameError>)
    requires
        old(world).wf(),
    ensures
        final(world).wf(),
        old(world).config is Some ==> r == Err::<(), GameError>(GameError::ConfigExists)
            && *final(world) == *old(world),
        old(world).config is None && old(world).next_scheduled_id > u64::MAX - 2
            ==> r == Err::<(), GameError>(GameError::IdsExhausted) && *final(world) == *old(world),
        old(world).config is None && old(world).next_scheduled_id <= u64::MAX - 2 ==> {
            &&& r == Ok::<(), GameError>(())
            &&& final(world).config == Some(Config { id: 0, world_size: DEFAULT_WORLD_SIZE })
            &&& final(world).spawn_food_timers@ == old(world).spawn_food_timers@.push(SpawnFoodTimer {
                scheduled_id: old(world).next_scheduled_id,
                scheduled_at: ScheduleAt::Interval(SPAWN_FOOD_INTERVAL_MICROS),
            })
            &&& final(world).move_all_players_timers@ == old(world).move_all_players_timers@.push(
                MoveAllPlayersTimer {
                    scheduled_id: (old(world).next_scheduled_id + 1) as u64,
                    scheduled_at: ScheduleAt::Interval(MOVE_ALL_PLAYERS_INTERVAL_MICROS),
                },
            )
            &&& final(world).next_scheduled_id == old(world).next_scheduled_id + 2
            &&& final(world).bodies@ == old(world).bodies@
            &&& final(world).players@ == old(world).players@
            &&& final(world).logged_out_players@ == old(world).logged_out_players@
            &&& final(world).next_entity_id == old(world).next_entity_id
            &&& final(world).next_player_id == old(world).next_player_id
        },
{
    if world.config.is_some() {
        return Err(GameError::ConfigExists);
    }
    if world.next_scheduled_id > u64::MAX - 2 {
        return Err(GameError::IdsExhausted);
    }
    world.config = Some(Config { id: 0, world_size: DEFAULT_WORLD_SIZE });
    let id = world.next_scheduled_id;
    world.spawn_food_timers.push(
        SpawnFoodTimer { scheduled_id: id, scheduled_at: ScheduleAt::Interval(SPAWN_FOOD_INTERVAL_MICROS) },
    );
    world.move_all_players_timers.push(
        MoveAllPlayersTimer {
            scheduled_id: id + 1,
            scheduled_at: ScheduleAt::Interval(MOVE_ALL_PLAYERS_INTERVAL_MICROS),
        },
    );
    world.next_scheduled_id = id + 2;
    Ok(())
}

/// The index of the row of `rows` with the given identity, if any.
pub fn find_player(rows: &Vec<Player>, identity: Identity) -> (r: Option<usize>)
    ensures
        match r {
            Some(k) => k < rows@.len() && rows@[k as int].identity == identity,
            None => !has_identity(rows@, identity),
        },
{
    let mut k: usize = 0;
    while k < rows.len()
        invariant
            k <= rows.len(),
            forall|j: int| 0 <= j < k ==> (#[trigger] rows@[j]).identity != identity,
        decreases rows.len() - k,
    {
        if rows[k].identity == identity {
            return Some(k);
        }
        k += 1;
    }
    None
}

/// The index of the row with the given identity; with distinct identities it
/// is the only one.
pub open spec fn index_of(rows: Seq<Player>, identity: Identity) -> int {
    choose|k: int| 0 <= k < rows.len() && (#[trigger] rows[k]).identity == identity
}

/// The entity with the given id, if the store holds one.
pub fn find_entity(world: &World, entity_id: u32) -> (r: Option<Entity>)
    ensures
        match r {
            Some(e) => e.entity_id == entity_id && exists|k: int|
                0 <= k < world.bodies@.len() && (#[trigger] world.bodies@[k]).entity == e,
            None => forall|k: int|
                0 <= k < world.bodies@.len() ==> (#[trigger] world.bodies@[k]).entity.entity_id != entity_id,
        },
{
    let mut k: usize = 0;
    while k < world.bodies.len()
        invariant
            k <= world.bodies.len(),
            forall|j: int| 0 <= j < k ==> (#[trigger] world.bodies@[j]).entity.entity_id != entity_id,
        decreases world.bodies.len() - k,
    {
        if world.bodies[k].entity.entity_id == entity_id {
            return Some(world.bodies[k].entity);
        }
        k += 1;
    }
    None
}

/// What a client connection does to the player tables.
pub open spec fn connect_outcome(w1: World, identity: Identity, w2: World, r: Result<(), GameError>) -> bool {
    if has_identity(w1.logged_out_players@, identity) {
        let k = index_of(w1.logged_out_players@, identity);
        &&& r == Ok::<(), GameError>(())
        &&& w2.logged_out_players@ == w1.logged_out_players@.remove(k)
        &&& w2.players@ == w1.players@.push(w1.logged_out_players@[k])
        &&& w2.bodies@ == w1.bodies@
        &&& w2.next_player_id == w1.next_player_id
    } else if has_identity(w1.players@, identity) {
        r == Err::<(), GameError>(GameError::PlayerExists) && w2 == w1
    } else if w1.next_player_id == u32::MAX {
        r == Err::<(), GameError>(GameError::IdsExhausted) && w2 == w1
    } else {
        &&& r == Ok::<(), GameError>(())
        &&& w2.players@.len() == w1.players@.len() + 1
        &&& w2.players@.drop_last() == w1.players@
        &&& w2.players@.last().identity == identity
        &&& w2.players@.last().player_id == w1.next_player_id
        &&& w2.players@.last().name@ == Seq::<char>::empty()
        &&& w2.logged_out_players@ == w1.logged_out_players@
        &&& w2.bodies@ == w1.bodies@
        &&& w2.next_player_id == w1.next_player_id + 1
    }
}

/// The tables a connection leaves as they are.
pub open spec fn same_but_players(w1: World, w2: World) -> bool {
    &&& w2.config == w1.config
    &&& w2.spawn_food_timers@ == w1.spawn_food_timers@
    &&& w2.move_all_players_timers@ == w1.move_all_players_timers@
    &&& w2.next_entity_id == w1.next_entity_id
    &&& w2.next_scheduled_id == w1.next_scheduled_id
}

/// Opens a client session: restores the identity's logged-out player row, or
/// creates a player with an empty name and a fresh player id.
pub fn connect(world: &mut World, identity: Identity) -> (r: Result<(), GameError>)
    requires
        old(world).wf(),
    ensures
        final(world).wf(),
        same_but_players(*old(world), *final(world)),
        connect_outcome(*old(world), identity, *final(world), r),
{
    if let Some(k) = find_player(&world.logged_out_players, identity) {
        proof {
            let ko = index_of(old(world).logged_out_players@, identity);
            assert(old(world).logged_out_players@[ko].identity == identity);
            assert(ko == k as int);
        }
        let p = world.logged_out_players.remove(k);
        world.players.push(p);
        proof {
            let lo = old(world).logged_out_players@;
            let pl = world.players@;
            assert forall|i: int, j: int|
                0 <= i < pl.len() && 0 <= j < world.logged_out_players@.len() implies
                distinct_rows(#[trigger] pl[i], #[trigger] world.logged_out_players@[j]) by {
                let jj = if j < k { j } else { j + 1 };
                assert(world.logged_out_players@[j] == lo[jj]);
                if i < pl.len() - 1 {
                    assert(pl[i] == old(world).players@[i]);
                }
            }
            assert forall|i: int, j: int| 0 <= i < j < pl.len() implies
                distinct_rows(#[trigger] pl[i], #[trigger] pl[j]) by {
                assert(pl[i] == old(world).players@[i]);
                if j < pl.len() - 1 {
                    assert(pl[j] == old(world).players@[j]);
                }
            }
            assert forall|i: int, j: int| 0 <= i < j < world.logged_out_players@.len() implies
                distinct_rows(#[trigger] world.logged_out_players@[i], #[trigger] world.logged_out_players@[j]) by {
                let ii = if i < k { i } else { i + 1 };
                let jj = if j < k { j } else { j + 1 };
                assert(world.logged_out_players@[i] == lo[ii]);
                assert(world.logged_out_players@[j] == lo[jj]);
            }
        }
        return Ok(());
    }
    if find_player(&world.players, identity).is_some() {
        return Err(GameError::PlayerExists);
    }
    if world.next_player_id == u32::MAX {
        return Err(GameError::IdsExhausted);
    }
    let p = Player { identity, player_id: world.next_player_id, name: String::new() };
    world.players.push(p);
    world.next_player_id = world.next_player_id + 1;
    proof {
        let pl = world.players@;
        assert(pl.drop_last() =~= old(world).players@);
        assert forall|i: int, j: int|
            0 <= i < pl.len() && 0 <= j < world.logged_out_players@.len() implies
            distinct_rows(#[trigger] pl[i], #[trigger] world.logged_out_players@[j]) by {
            if i < pl.len() - 1 {
                assert(pl[i] == old(world).players@[i]);
            }
        }
        assert forall|i: int, j: int| 0 <= i < j < pl.len() implies
            distinct_rows(#[trigger] pl[i], #[trigger] pl[j]) by {
            assert(pl[i] == old(world).players@[i]);
            if j < pl.len() - 1 {
                assert(pl[j] == old(world).players@[j]);
            }
        }
    }
    Ok(())
}

/// Which bodies survive the removal of player `player_id`'s circles.
pub open spec fn not_owned_by(b: Seq<Body>, player_id: u32) -> Seq<bool> {
    Seq::new(b.len(), |k: int| !(b[k].is_circle() && b[k].owner() == player_id))
}

/// What closing a client session does.
pub open spec fn disconnect_outcome(w1: World, identity: Identity, w2: World, r: Result<(), GameError>) -> bool {
    if !has_identity(w1.players@, identity) {
        r == Err::<(), GameError>(GameError::PlayerNotFound) && w2 == w1
    } else {
        let k = index_of(w1.players@, identity);
        let p = w1.players@[k];
        &&& r == Ok::<(), GameError>(())
        &&& w2.players@ == w1.players@.remove(k)
        &&& w2.logged_out_players@ == w1.logged_out_players@.push(p)
        &&& w2.bodies@ == compact(w1.bodies@, not_owned_by(w1.bodies@, p.player_id))
        &&& w2.next_player_id == w1.next_player_id
    }
}

/// Closes a client session: archives the player row, keeping its id and
/// name, and deletes every circle the player owns. Fails, changing nothing,
/// when the identity has no live player row.
pub fn disconnect(world: &mut World, identity: Identity) -> (r: Result<(), GameError>)
    requires
        old(world).wf(),
    ensures
        final(world).wf(),
        same_but_players(*old(world), *final(world)),
        disconnect_outcome(*old(world), identity, *final(world), r),
{
    let k = match find_player(&world.players, identity) {
        Some(k) => k,
        None => {
            return Err(GameError::PlayerNotFound);
        },
    };
    proof {
        let ko = index_of(old(world).players@, identity);
        assert(old(world).players@[ko].identity == identity);
        assert(ko == k as int);
    }
    let p = world.players.remove(k);
    let pid = p.player_id;
    world.logged_out_players.push(p);
    let mut keep: Vec<bool> = Vec::new();
    let mut j: usize = 0;
    while j < world.bodies.len()
        invariant
            j <= world.bodies.len(),
            world.bodies@ == old(world).bodies@,
            keep@ == not_owned_by(world.bodies@, pid).take(j as int),
        decreases world.bodies.len() - j,
    {
        let owned = match world.bodies[j].role {
            Role::Circle(c) => c.player_id == pid,
            Role::Food => false,
        };
        keep.push(!owned);
        j += 1;
        proof {
            assert(keep@ =~= not_owned_by(world.bodies@, pid).take(j as int));
        }
    }
    proof {
        assert(keep@ =~= not_owned_by(world.bodies@, pid));
    }
    let ghost b0 = world.bodies@;
    let kept = compact_exec(&world.bodies, &keep);
    proof {
        lemma_compact(b0, keep@);
    }
    world.bodies = kept;
    proof {
        let lo = old(world).logged_out_players@;
        let pl = world.players@;
        let op = old(world).players@;
        let nl = world.logged_out_players@;
        assert forall|i: int, j: int| 0 <= i < pl.len() && 0 <= j < nl.len() implies
            distinct_rows(#[trigger] pl[i], #[trigger] nl[j]) by {
            let ii = if i < k { i } else { i + 1 };
            assert(pl[i] == op[ii]);
            if j < nl.len() - 1 {
                assert(nl[j] == lo[j]);
            }
        }
        assert forall|i: int, j: int| 0 <= i < j < pl.len() implies
            distinct_rows(#[trigger] pl[i], #[trigger] pl[j]) by {
            let ii = if i < k { i } else { i + 1 };
            let jj = if j < k { j } else { j + 1 };
            assert(pl[i] == op[ii]);
            assert(pl[j] == op[jj]);
        }
        assert forall|i: int, j: int| 0 <= i < j < nl.len() implies
            distinct_rows(#[trigger] nl[i], #[trigger] nl[j]) by {
            assert(nl[i] == lo[i]);
            if j < nl.len() - 1 {
                assert(nl[j] == lo[j]);
            } else {
                assert(nl[j] == op[k as int]);
            }
        }
        assert forall|q: int| 0 <= q < world.bodies@.len() implies (#[trigger] world.bodies@[q]).wf()
            && world.bodies@[q].entity.entity_id < world.next_entity_id by {
            assert(compact(b0, keep@).contains(world.bodies@[q]));
        }
    }
    Ok(())
}

/// The circle body a player enters with.
pub open spec fn new_circle(id: u32, player_id: u32, mass: u32, position: DbVector2, timestamp: Timestamp) -> Body {
    Body {
        entity: Entity { entity_id: id, position, mass },
        role: Role::Circle(Circle {
            entity_id: id,
            player_id,
            direction: DbVector2 { x: 0, y: SCALE as i64 },
            speed: 0,
            last_split_time: timestamp,
        }),
    }
}

/// Adds a circle of the given player, mass and position under the next entity
/// id, heading `(0, 1)` at speed zero, and returns its entity. Fails, changing
/// nothing, when every entity id has been handed out.
pub fn spawn_circle_at(
    world: &mut World,
    player_id: u32,
    mass: u32,
    position: DbVector2,
    timestamp: Timestamp,
) -> (r: Result<Entity, GameError>)
    requires
        old(world).wf(),
        mass > 0,
    ensures
        final(world).wf(),
        old(world).next_entity_id == u32::MAX ==> r == Err::<Entity, GameError>(GameError::IdsExhausted)
            && *final(world) == *old(world),
        old(world).next_entity_id < u32::MAX ==> r == Ok::<Entity, GameError>(
            Entity { entity_id: old(world).next_entity_id, position, mass },
        ) && appended(
            *old(world),
            *final(world),
            new_circle(old(world).next_entity_id, player_id, mass, position, timestamp),
        ),
{
    if world.next_entity_id == u32::MAX {
        return Err(GameError::IdsExhausted);
    }
    let id = world.next_entity_id;
    let e = Entity { entity_id: id, position, mass };
    let c = Circle {
        entity_id: id,
        player_id,
        direction: DbVector2 { x: 0, y: SCALE as i64 },
        speed: 0,
        last_split_time: timestamp,
    };
    world.bodies.push(Body { entity: e, role: Role::Circle(c) });
    world.next_entity_id = id + 1;
    proof {
        let b = world.bodies@;
        assert forall|i: int, j: int| 0 <= i < j < b.len() implies
            #[trigger] b[i].entity.entity_id < #[trigger] b[j].entity.entity_id by {
            if j == b.len() - 1 {
                assert(old(world).bodies@[i].entity.entity_id < old(world).next_entity_id);
            } else {
                assert(b[i] == old(world).bodies@[i] && b[j] == old(world).bodies@[j]);
            }
        }
        assert forall|i: int| 0 <= i < b.len() implies (#[trigger] b[i]).wf()
            && b[i].entity.entity_id < world.next_entity_id by {
            if i < b.len() - 1 {
                assert(b[i] == old(world).bodies@[i]);
            }
        }
    }
    Ok(e)
}

/// A world in which a starting circle fits between the walls.
pub open spec fn circle_fits(world_size: nat) -> bool {
    2 * radius(START_PLAYER_MASS as nat) < world_size * SCALE
}

/// What entering the game does.
pub open spec fn enter_game_outcome(
    w1: World,
    identity: Identity,
    name: Seq<char>,
    timestamp: Timestamp,
    w2: World,
    r: Result<(), GameError>,
) -> bool {
    if !has_identity(w1.players@, identity) {
        r == Err::<(), GameError>(GameError::PlayerNotFound) && w2 == w1
    } else if w1.config is None {
        r == Err::<(), GameError>(GameError::ConfigNotFound) && w2 == w1
    } else if w1.next_entity_id == u32::MAX {
        r == Err::<(), GameError>(GameError::IdsExhausted) && w2 == w1
    } else {
        let k = index_of(w1.players@, identity);
        let p = w1.players@[k];
        let rad = radius(START_PLAYER_MASS as nat) as int;
        let hi = w1.world_size() * SCALE - rad;
        &&& r == Ok::<(), GameError>(())
        &&& w2.players@.len() == w1.players@.len()
        &&& forall|j: int| 0 <= j < w1.players@.len() && j != k ==> #[trigger] w2.players@[j] == w1.players@[j]
        &&& w2.players@[k].identity == p.identity
        &&& w2.players@[k].player_id == p.player_id
        &&& w2.players@[k].name@ == name
        &&& w2.logged_out_players@ == w1.logged_out_players@
        &&& w2.bodies@.len() == w1.bodies@.len() + 1
        &&& w2.bodies@.drop_last() == w1.bodies@
        &&& w2.next_entity_id == w1.next_entity_id + 1
        &&& exists|x: i64, y: i64| rad <= x < hi && rad <= y < hi && w2.bodies@.last() == new_circle(
            w1.next_entity_id,
            p.player_id,
            START_PLAYER_MASS,
            DbVector2 { x, y },
            timestamp,
        )
    }
}

/// Enters the game: sets the caller's display name and spawns one circle of
/// starting mass for it at a random position wholly inside the arena. Fails,
/// changing nothing, when the caller has no live player row, the
/// configuration is missing, or no entity id is left.
pub fn enter_game(world: &mut World, identity: Identity, name: String, rng: &mut StdRng, timestamp: Timestamp) -> (r: Result<(), GameError>)
    requires
        old(world).wf(),
        old(world).config is Some ==> circle_fits(old(world).world_size()),
    ensures
        final(world).wf(),
        final(world).config == old(world).config,
        final(world).next_player_id == old(world).next_player_id,
        enter_game_outcome(*old(world), identity, name@, timestamp, *final(world), r),
{
    let k = match find_player(&world.players, identity) {
        Some(k) => k,
        None => {
            return Err(GameError::PlayerNotFound);
        },
    };
    proof {
        let ko = index_of(old(world).players@, identity);
        assert(old(world).players@[ko].identity == identity);
        assert(ko == k as int);
    }
    let ws = match world.config {
        Some(c) => c.world_size,
        None => {
            return Err(GameError::ConfigNotFound);
        },
    };
    if world.next_entity_id == u32::MAX {
        return Err(GameError::IdsExhausted);
    }
    let pid = world.players[k].player_id;
    let ghost nm = name@;
    world.players.set(k, Player { identity, player_id: pid, name });
    proof {
        let pl = world.players@;
        let op = old(world).players@;
        assert forall|i: int, j: int| 0 <= i < pl.len() && 0 <= j < world.logged_out_players@.len() implies
            distinct_rows(#[trigger] pl[i], #[trigger] world.logged_out_players@[j]) by {
            assert(pl[i].identity == op[i].identity && pl[i].player_id == op[i].player_id);
        }
        assert forall|i: int, j: int| 0 <= i < j < pl.len() implies
            distinct_rows(#[trigger] pl[i], #[trigger] pl[j]) by {
            assert(pl[i].identity == op[i].identity && pl[i].player_id == op[i].player_id);
            assert(pl[j].identity == op[j].identity && pl[j].player_id == op[j].player_id);
        }
    }
    let rad = mass_to_radius(START_PLAYER_MASS);
    let x = gen_range(rng, rad, ws * 1000 - rad);
    let y = gen_range(rng, rad, ws * 1000 - rad);
    let ghost w1 = *world;
    let spawned = spawn_circle_at(world, pid, START_PLAYER_MASS, DbVector2 { x: x as i64, y: y as i64 }, timestamp);
    proof {
        assert(world.bodies@.drop_last() =~= w1.bodies@);
        let b = world.bodies@.last();
        assert(b == new_circle(old(world).next_entity_id, pid, START_PLAYER_MASS, DbVector2 { x: x as i64, y: y as i64 }, timestamp));
    }
    match spawned {
        Ok(_) => Ok(()),
        Err(e) => Err(e),
    }
}

/// The direction of an input vector, scaled to length about `SCALE`; zero for
/// the zero vector.
pub open spec fn input_direction(v: DbVector2) -> DbVector2 {
    let m = floor_magnitude(v);
    if m == 0 {
        DbVector2 { x: 0, y: 0 }
    } else {
        DbVector2 { x: div_trunc(v.x * SCALE, m) as i64, y: div_trunc(v.y * SCALE, m) as i64 }
    }
}

/// The length of an input vector, clamped to `0..=SCALE`.
pub open spec fn input_speed(v: DbVector2) -> u64 {
    let m = floor_magnitude(v);
    if m > SCALE {
        SCALE
    } else {
        m as u64
    }
}

/// The length of a vector, rounded down.
pub open spec fn floor_magnitude(v: DbVector2) -> nat {
    crate::math::floor_sqrt((v.x * v.x + v.y * v.y) as nat)
}

/// `a / m`, rounded toward zero.
pub open spec fn div_trunc(a: int, m: nat) -> int {
    if a >= 0 {
        a / (m as int)
    } else {
        -((-a) / (m as int))
    }
}

/// The bodies after player `player_id` steers all its circles.
pub open spec fn steered(b: Seq<Body>, player_id: u32, direction: DbVector2, speed: u64) -> Seq<Body> {
    Seq::new(
        b.len(),
        |k: int|
            match b[k].role {
                Role::Circle(c) => if c.player_id == player_id {
                    Body { role: Role::Circle(Circle { direction, speed, ..c }), ..b[k] }
                } else {
                    b[k]
                },
                Role::Food => b[k],
            },
    )
}

proof fn lemma_component_le_magnitude(a: int, b: int, m: nat)
    requires
        is_floor_sqrt((a * a + b * b) as nat, m),
    ensures
        -(m as int) <= a <= m,
{
    let aa: nat = if a >= 0 { a as nat } else { (-a) as nat };
    assert(aa * aa == a * a) by (nonlinear_arith)
        requires
            aa == a || aa == -a,
    ;
    assert(b * b >= 0) by (nonlinear_arith);
    assert(aa * aa <= a * a + b * b);
    assert(is_floor_sqrt((aa * aa) as nat, aa)) by (nonlinear_arith)
        requires
            aa >= 0,
    ;
    lemma_floor_sqrt_monotone((aa * aa) as nat, (a * a + b * b) as nat, aa, m);
}

fn scale_unit(a: i64, m: u128) -> (r: i64)
    requires
        m > 0,
        -(m as int) <= a <= m,
    ensures
        r == div_trunc(a * SCALE, m as nat),
        -(SCALE as int) <= r <= SCALE,
{
    if a >= 0 {
        let q = (a as u128 * 1000) / m;
        assert(q <= 1000) by (nonlinear_arith)
            requires
                q == (a * 1000) / (m as int),
                0 <= a <= m,
                m > 0,
        ;
        q as i64
    } else {
        let q = ((-(a as i128)) as u128 * 1000) / m;
        assert(q <= 1000) by (nonlinear_arith)
            requires
                q == (-a * 1000) / (m as int),
                0 <= -a <= m,
                m > 0,
        ;
        -(q as i64)
    }
}

/// Steers every circle of the caller: the input vector, normalised, becomes
/// their direction, and its length, clamped to `0..=SCALE`, their speed.
/// Fails, changing nothing, when the caller has no live player row.
pub fn update_player_input(world: &mut World, identity: Identity, direction: DbVector2) -> (r: Result<(), GameError>)
    requires
        old(world).wf(),
    ensures
        final(world).wf(),
        !has_identity(old(world).players@, identity) ==> r == Err::<(), GameError>(GameError::PlayerNotFound)
            && *final(world) == *old(world),
        has_identity(old(world).players@, identity) ==> {
            let p = old(world).players@[index_of(old(world).players@, identity)];
            &&& r == Ok::<(), GameError>(())
            &&& same_but_bodies(*old(world), *final(world))
            &&& final(world).bodies@ == steered(
                old(world).bodies@,
                p.player_id,
                input_direction(direction),
                input_speed(direction),
            )
        },
{
    let k = match find_player(&world.players, identity) {
        Some(k) => k,
        None => {
            return Err(GameError::PlayerNotFound);
        },
    };
    proof {
        let ko = index_of(old(world).players@, identity);
        assert(old(world).players@[ko].identity == identity);
        assert(ko == k as int);
    }
    let pid = world.players[k].player_id;
    let dx: i128 = direction.x as i128;
    let dy: i128 = direction.y as i128;
    let ax: u128 = if dx < 0 { (-dx) as u128 } else { dx as u128 };
    let ay: u128 = if dy < 0 { (-dy) as u128 } else { dy as u128 };
    assert(ax * ax <= 0x4000_0000_0000_0000_0000_0000_0000_0000u128 && ax * ax == dx * dx) by (nonlinear_arith)
        requires
            ax <= 0x8000_0000_0000_0000u128,
            ax == dx || ax == -dx,
    ;
    assert(ay * ay <= 0x4000_0000_0000_0000_0000_0000_0000_0000u128 && ay * ay == dy * dy) by (nonlinear_arith)
        requires
            ay <= 0x8000_0000_0000_0000u128,
            ay == dy || ay == -dy,
    ;
    let sq: u128 = ax * ax + ay * ay;
    let m = isqrt(sq);
    let dir = if m == 0 {
        DbVector2 { x: 0, y: 0 }
    } else {
        proof {
            lemma_component_le_magnitude(dx as int, dy as int, m as nat);
            lemma_component_le_magnitude(dy as int, dx as int, m as nat);
        }
        DbVector2 { x: scale_unit(direction.x, m), y: scale_unit(direction.y, m) }
    };
    let speed: u64 = if m > 1000 { 1000 } else { m as u64 };
    assert(dir == input_direction(direction) && speed == input_speed(direction));
    let ghost target = steered(old(world).bodies@, pid, dir, speed);
    let mut j: usize = 0;
    while j < world.bodies.len()
        invariant
            j <= world.bodies.len(),
            world.bodies@.len() == old(world).bodies@.len(),
            same_but_bodies(*old(world), *world),
            target == steered(old(world).bodies@, pid, dir, speed),
            target.len() == old(world).bodies@.len(),
            forall|q: int| 0 <= q < j ==> #[trigger] world.bodies@[q] == target[q],
            forall|q: int| j <= q < world.bodies@.len() ==> #[trigger] world.bodies@[q] == old(world).bodies@[q],
        decreases world.bodies.len() - j,
    {
        let b = world.bodies[j];
        match b.role {
            Role::Circle(c) => {
                if c.player_id == pid {
                    let nb = Body { entity: b.entity, role: Role::Circle(Circle { direction: dir, speed, ..c }) };
                    world.bodies.set(j, nb);
                }
            },
            Role::Food => {},
        }
        j += 1;
    }
    proof {
        assert(world.bodies@ =~= target);
        let b = world.bodies@;
        let o = old(world).bodies@;
        assert forall|i: int, j: int| 0 <= i < j < b.len() implies
            #[trigger] b[i].entity.entity_id < #[trigger] b[j].entity.entity_id by {
            assert(b[i].entity == o[i].entity && b[j].entity == o[j].entity);
        }
        assert forall|i: int| 0 <= i < b.len() implies (#[trigger] b[i]).wf()
            && b[i].entity.entity_id < world.next_entity_id by {
            assert(o[i].wf());
        }
    }
    Ok(())
}

} // verus!

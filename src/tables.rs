use vstd::prelude::*;
use crate::math::SCALE;

verus! {

/// A 2D vector in fixed-point position units (`SCALE` per world unit).
#[derive(Clone, Copy, Debug, PartialEq, Eq, Structural)]
pub struct DbVector2 {
    pub x: i64,
    pub y: i64,
}

/// The opaque 256-bit credential that identifies a connected client.
#[derive(Clone, Copy, Debug, PartialEq, Eq, Structural)]
pub struct Identity {
    pub hi: u128,
    pub lo: u128,
}

/// A point in time, in microseconds since the Unix epoch.
#[derive(Clone, Copy, Debug, PartialEq, Eq, Structural)]
pub struct Timestamp {
    pub micros_since_unix_epoch: i64,
}

/// When a scheduled reducer runs: repeatedly at an interval, or once at a time.
#[derive(Clone, Copy, Debug, PartialEq, Eq, Structural)]
pub enum ScheduleAt {
    Interval(u64),
    Time(Timestamp),
}

/// The schedule row that drives food spawning.
#[derive(Clone, Copy, Debug, PartialEq, Eq, Structural)]
pub struct SpawnFoodTimer {
    pub scheduled_id: u64,
    pub scheduled_at: ScheduleAt,
}

/// The schedule row that drives movement and collision.
#[derive(Clone, Copy, Debug, PartialEq, Eq, Structural)]
pub struct MoveAllPlayersTimer {
    pub scheduled_id: u64,
    pub scheduled_at: ScheduleAt,
}

/// The singleton world configuration (its `id` is always 0).
#[derive(Clone, Copy, Debug, PartialEq, Eq, Structural)]
pub struct Config {
    pub id: u32,
    pub world_size: u64,
}

/// A positioned, massed object of the arena: a circle or a food pellet.
#[derive(Clone, Copy, Debug, PartialEq, Eq, Structural)]
pub struct Entity {
    pub entity_id: u32,
    pub position: DbVector2,
    pub mass: u32,
}

/// The player-controlled part of a circle entity. `direction` is a vector of
/// length about `SCALE` or zero; `speed` lies in `0..=SCALE`.
#[derive(Clone, Copy, Debug, PartialEq, Eq, Structural)]
pub struct Circle {
    pub entity_id: u32,
    pub player_id: u32,
    pub direction: DbVector2,
    pub speed: u64,
    pub last_split_time: Timestamp,
}

/// Marks an entity as a food pellet.
#[derive(Clone, Copy, Debug, PartialEq, Eq, Structural)]
pub struct Food {
    pub entity_id: u32,
}

/// A player row, live or logged out.
#[derive(Clone, Debug)]
pub struct Player {
    pub identity: Identity,
    pub player_id: u32,
    pub name: String,
}

/// What an entity is.
#[derive(Clone, Copy, Debug, PartialEq, Eq, Structural)]
pub enum Role {
    Food,
    Circle(Circle),
}

/// An entity together with its kind: the entity row and its circle or food row.
#[derive(Clone, Copy, Debug, PartialEq, Eq, Structural)]
pub struct Body {
    pub entity: Entity,
    pub role: Role,
}

/// Why an invocation was rejected; a rejected invocation changes nothing.
#[derive(Clone, Copy, Debug, PartialEq, Eq, Structural)]
pub enum GameError {
    /// The configuration singleton does not exist.
    ConfigNotFound,
    /// The configuration singleton exists already.
    ConfigExists,
    /// The calling identity has no live player row.
    PlayerNotFound,
    /// The calling identity has a live player row already.
    PlayerExists,
    /// No fresh identifier is left to assign.
    IdsExhausted,
}

/// The largest world size the fixed-point arithmetic supports.
pub const MAX_WORLD_SIZE: u64 = 1_000_000_000;

/// The whole persisted state: configuration, entities with their kinds, and
/// player rows. `bodies` is kept in ascending `entity_id` order.
pub struct World {
    pub config: Option<Config>,
    pub bodies: Vec<Body>,
    pub players: Vec<Player>,
    pub logged_out_players: Vec<Player>,
    pub spawn_food_timers: Vec<SpawnFoodTimer>,
    pub move_all_players_timers: Vec<MoveAllPlayersTimer>,
    pub next_entity_id: u32,
    pub next_player_id: u32,
    pub next_scheduled_id: u64,
}

impl Body {
    pub open spec fn is_food(self) -> bool {
        self.role is Food
    }

    pub open spec fn is_circle(self) -> bool {
        self.role is Circle
    }

    /// The owning player of a circle.
    pub open spec fn owner(self) -> u32 {
        match self.role {
            Role::Circle(c) => c.player_id,
            Role::Food => 0,
        }
    }

    pub open spec fn wf(self) -> bool {
        &&& self.entity.mass > 0
        &&& match self.role {
            Role::Circle(c) => {
                &&& c.entity_id == self.entity.entity_id
                &&& c.speed <= SCALE
                &&& -(SCALE as int) <= c.direction.x <= SCALE
                &&& -(SCALE as int) <= c.direction.y <= SCALE
            },
            Role::Food => true,
        }
    }
}

/// Entity ids strictly ascend along `b`.
pub open spec fn ids_ascending(b: Seq<Body>) -> bool {
    forall|i: int, j: int|
        0 <= i < j < b.len() ==> #[trigger] b[i].entity.entity_id < #[trigger] b[j].entity.entity_id
}

/// Two player rows share neither identity nor player id.
pub open spec fn distinct_rows(a: Player, b: Player) -> bool {
    a.identity != b.identity && a.player_id != b.player_id
}

/// Some row of `p` has identity `id`.
pub open spec fn has_identity(p: Seq<Player>, id: Identity) -> bool {
    exists|k: int| 0 <= k < p.len() && (#[trigger] p[k]).identity == id
}

impl World {
    pub open spec fn world_size(self) -> nat {
        match self.config {
            Some(c) => c.world_size as nat,
            None => 0,
        }
    }

    /// The store's invariants.
    pub open spec fn wf(self) -> bool {
        &&& match self.config {
            Some(c) => c.id == 0 && c.world_size <= MAX_WORLD_SIZE,
            None => true,
        }
        &&& ids_ascending(self.bodies@)
        &&& forall|i: int|
            0 <= i < self.bodies@.len() ==> (#[trigger] self.bodies@[i]).wf()
                && self.bodies@[i].entity.entity_id < self.next_entity_id
        &&& forall|i: int|
            0 <= i < self.players@.len() ==> (#[trigger] self.players@[i]).player_id < self.next_player_id
        &&& forall|i: int|
            0 <= i < self.logged_out_players@.len()
                ==> (#[trigger] self.logged_out_players@[i]).player_id < self.next_player_id
        &&& forall|i: int, j: int|
            0 <= i < self.players@.len() && 0 <= j < self.logged_out_players@.len()
                ==> distinct_rows(#[trigger] self.players@[i], #[trigger] self.logged_out_players@[j])
        &&& forall|i: int, j: int|
            0 <= i < j < self.players@.len() ==> distinct_rows(#[trigger] self.players@[i], #[trigger] self.players@[j])
        &&& forall|i: int, j: int|
            0 <= i < j < self.logged_out_players@.len()
                ==> distinct_rows(#[trigger] self.logged_out_players@[i], #[trigger] self.logged_out_players@[j])
    }
}

} // verus!

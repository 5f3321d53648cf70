use vstd::prelude::*;
use crate::physics::{is_overlapping, moved_entity, overlapping, move_entity};
use crate::tables::{Body, Config, Entity, GameError, MoveAllPlayersTimer, Role, World, ids_ascending};

verus! {

/// A circle survives contact with an opposing circle when its mass is at least
/// `SAFE_RATIO_PERCENT` percent of the attacker's.
pub const SAFE_RATIO_PERCENT: u64 = 85;

/// Whether the acting circle `actor` absorbs `other` on this contact: `other`
/// overlaps it and is food, or is a circle of another player whose mass is
/// below the safe ratio of the actor's.
pub open spec fn absorbs(actor: Body, other: Body) -> bool {
    &&& overlapping(actor.entity, other.entity)
    &&& match other.role {
        Role::Food => true,
        Role::Circle(oc) => {
            &&& actor.is_circle()
            &&& oc.player_id != actor.owner()
            &&& 100 * (other.entity.mass as int) < SAFE_RATIO_PERCENT * (actor.entity.mass as int)
        },
    }
}

/// `actor` with `m` more mass.
pub open spec fn grown(actor: Body, m: u32) -> Body {
    Body { entity: Entity { mass: (actor.entity.mass + m) as u32, ..actor.entity }, ..actor }
}

/// The scan of the acting circle `actor` (at index `i`) over the live bodies
/// from index `j` on: each live body it absorbs dies and adds its mass.
pub open spec fn scan(actor: Body, b: Seq<Body>, alive: Seq<bool>, i: int, j: int) -> (Body, Seq<bool>)
    decreases b.len() - j,
{
    if j < 0 || j >= b.len() {
        (actor, alive)
    } else if j != i && alive[j] && absorbs(actor, b[j]) {
        scan(grown(actor, b[j].entity.mass), b, alive.update(j, false), i, j + 1)
    } else {
        scan(actor, b, alive, i, j + 1)
    }
}

/// The movement tick from index `i` on: each live circle, in index order,
/// moves and then scans the others.
pub open spec fn tick_from(b: Seq<Body>, alive: Seq<bool>, i: int, world_size: nat) -> (Seq<Body>, Seq<bool>)
    decreases b.len() - i,
{
    if i < 0 || i >= b.len() {
        (b, alive)
    } else {
        match b[i].role {
            Role::Circle(c) => {
                if alive[i] {
                    let m = Body { entity: moved_entity(b[i].entity, c, world_size), role: b[i].role };
                    let (a, al) = scan(m, b, alive, i, 0);
                    tick_from(b.update(i, a), al, i + 1, world_size)
                } else {
                    tick_from(b, alive, i + 1, world_size)
                }
            },
            Role::Food => tick_from(b, alive, i + 1, world_size),
        }
    }
}

/// The bodies of `b` whose flag in `a` is set, in order.
pub open spec fn compact(b: Seq<Body>, a: Seq<bool>) -> Seq<Body>
    decreases b.len(),
{
    if b.len() == 0 {
        Seq::empty()
    } else {
        let r = compact(b.drop_last(), a.drop_last());
        if a.last() {
            r.push(b.last())
        } else {
            r
        }
    }
}

/// Every flag set.
pub open spec fn all_alive(n: nat) -> Seq<bool> {
    Seq::new(n, |k: int| true)
}

/// The bodies after one movement tick in a world of the given size.
pub open spec fn tick(b: Seq<Body>, world_size: nat) -> Seq<Body> {
    let (b2, a2) = tick_from(b, all_alive(b.len()), 0, world_size);
    compact(b2, a2)
}

/// The summed mass of the bodies.
pub open spec fn total_mass(b: Seq<Body>) -> nat
    decreases b.len(),
{
    if b.len() == 0 {
        0
    } else {
        total_mass(b.drop_last()) + b.last().entity.mass as nat
    }
}

/// The summed mass of the live bodies.
pub open spec fn sum_alive(b: Seq<Body>, a: Seq<bool>) -> nat
    decreases b.len(),
{
    if b.len() == 0 {
        0
    } else {
        sum_alive(b.drop_last(), a.drop_last()) + if a.last() {
            b.last().entity.mass as nat
        } else {
            0
        }
    }
}

proof fn lemma_sum_kill(b: Seq<Body>, a: Seq<bool>, j: int)
    requires
        a.len() == b.len(),
        0 <= j < b.len(),
        a[j],
    ensures
        sum_alive(b, a.update(j, false)) + b[j].entity.mass == sum_alive(b, a),
    decreases b.len(),
{
    let a2 = a.update(j, false);
    if j < b.len() - 1 {
        assert(a2.drop_last() =~= a.drop_last().update(j, false));
        lemma_sum_kill(b.drop_last(), a.drop_last(), j);
    } else {
        assert(a2.drop_last() =~= a.drop_last());
    }
}

proof fn lemma_sum_set(b: Seq<Body>, a: Seq<bool>, i: int, x: Body)
    requires
        a.len() == b.len(),
        0 <= i < b.len(),
        a[i],
    ensures
        sum_alive(b.update(i, x), a) + b[i].entity.mass == sum_alive(b, a) + x.entity.mass,
    decreases b.len(),
{
    let b2 = b.update(i, x);
    if i < b.len() - 1 {
        assert(b2.drop_last() =~= b.drop_last().update(i, x));
        lemma_sum_set(b.drop_last(), a.drop_last(), i, x);
    } else {
        assert(b2.drop_last() =~= b.drop_last());
    }
}

proof fn lemma_sum_one(b: Seq<Body>, a: Seq<bool>, i: int)
    requires
        a.len() == b.len(),
        0 <= i < b.len(),
        a[i],
    ensures
        b[i].entity.mass <= sum_alive(b, a),
    decreases b.len(),
{
    if i < b.len() - 1 {
        lemma_sum_one(b.drop_last(), a.drop_last(), i);
    }
}

proof fn lemma_sum_pair(b: Seq<Body>, a: Seq<bool>, i: int, j: int)
    requires
        a.len() == b.len(),
        0 <= i < b.len(),
        0 <= j < b.len(),
        i != j,
        a[i],
        a[j],
    ensures
        b[i].entity.mass + b[j].entity.mass <= sum_alive(b, a),
    decreases b.len(),
{
    let n = b.len() - 1;
    if i < n && j < n {
        lemma_sum_pair(b.drop_last(), a.drop_last(), i, j);
    } else if i == n {
        lemma_sum_one(b.drop_last(), a.drop_last(), j);
    } else {
        lemma_sum_one(b.drop_last(), a.drop_last(), i);
    }
}

proof fn lemma_sum_all(b: Seq<Body>)
    ensures
        sum_alive(b, all_alive(b.len())) == total_mass(b),
    decreases b.len(),
{
    if b.len() > 0 {
        assert(all_alive(b.len()).drop_last() =~= all_alive(b.drop_last().len()));
        lemma_sum_all(b.drop_last());
    }
}

proof fn lemma_compact_mass(b: Seq<Body>, a: Seq<bool>)
    ensures
        total_mass(compact(b, a)) == sum_alive(b, a),
    decreases b.len(),
{
    if b.len() > 0 {
        lemma_compact_mass(b.drop_last(), a.drop_last());
        let r = compact(b.drop_last(), a.drop_last());
        if a.last() {
            assert(r.push(b.last()).drop_last() =~= r);
        }
    }
}

/// The body `x` keeps the identity and kind of `y` and has at least its mass.
pub open spec fn same_row(x: Body, y: Body) -> bool {
    &&& x.entity.entity_id == y.entity.entity_id
    &&& x.role == y.role
    &&& x.entity.mass >= y.entity.mass
}

proof fn lemma_scan_step(actor: Body, b: Seq<Body>, al: Seq<bool>, i: int, j: int)
    requires
        al.len() == b.len(),
        0 <= i < b.len(),
        0 <= j < b.len(),
        i != j,
        al[i],
        al[j],
        sum_alive(b.update(i, actor), al) <= u32::MAX,
    ensures
        actor.entity.mass + b[j].entity.mass <= u32::MAX,
        sum_alive(b.update(i, grown(actor, b[j].entity.mass)), al.update(j, false))
            == sum_alive(b.update(i, actor), al),
{
    let bb = b.update(i, actor);
    lemma_sum_pair(bb, al, i, j);
    let g = grown(actor, b[j].entity.mass);
    assert(b.update(i, g) =~= bb.update(i, g));
    lemma_sum_set(bb, al, i, g);
    lemma_sum_kill(b.update(i, g), al, j);
}

proof fn lemma_scan(actor: Body, b: Seq<Body>, al: Seq<bool>, i: int, j: int)
    requires
        al.len() == b.len(),
        0 <= i < b.len(),
        0 <= j,
        al[i],
        sum_alive(b.update(i, actor), al) <= u32::MAX,
    ensures
        ({
            let (a2, al2) = scan(actor, b, al, i, j);
            &&& sum_alive(b.update(i, a2), al2) == sum_alive(b.update(i, actor), al)
            &&& al2.len() == al.len()
            &&& al2[i]
            &&& same_row(a2, actor)
        }),
    decreases b.len() - j,
{
    if j < b.len() {
        if j != i && al[j] && absorbs(actor, b[j]) {
            lemma_scan_step(actor, b, al, i, j);
            lemma_scan(grown(actor, b[j].entity.mass), b, al.update(j, false), i, j + 1);
        } else {
            lemma_scan(actor, b, al, i, j + 1);
        }
    }
}

proof fn lemma_tick_from(b: Seq<Body>, al: Seq<bool>, i: int, world_size: nat)
    requires
        al.len() == b.len(),
        0 <= i,
        sum_alive(b, al) <= u32::MAX,
    ensures
        ({
            let (b2, al2) = tick_from(b, al, i, world_size);
            &&& sum_alive(b2, al2) == sum_alive(b, al)
            &&& b2.len() == b.len()
            &&& al2.len() == al.len()
            &&& forall|k: int| 0 <= k < b.len() ==> same_row(#[trigger] b2[k], b[k])
        }),
    decreases b.len() - i,
{
    if i < b.len() {
        match b[i].role {
            Role::Circle(c) => {
                if al[i] {
                    let m = Body { entity: moved_entity(b[i].entity, c, world_size), role: b[i].role };
                    lemma_sum_set(b, al, i, m);
                    lemma_scan(m, b, al, i, 0);
                    let (a, al2) = scan(m, b, al, i, 0);
                    lemma_tick_from(b.update(i, a), al2, i + 1, world_size);
                    let (b3, al3) = tick_from(b.update(i, a), al2, i + 1, world_size);
                    assert forall|k: int| 0 <= k < b.len() implies same_row(#[trigger] b3[k], b[k]) by {
                        assert(same_row(b3[k], b.update(i, a)[k]));
                    }
                } else {
                    lemma_tick_from(b, al, i + 1, world_size);
                }
            },
            Role::Food => {
                lemma_tick_from(b, al, i + 1, world_size);
            },
        }
    }
}

/// Absorption moves mass between bodies and never creates or destroys it: the
/// bodies after a movement tick weigh exactly what they weighed before.
pub proof fn lemma_tick_conserves_mass(b: Seq<Body>, world_size: nat)
    requires
        total_mass(b) <= u32::MAX,
    ensures
        total_mass(tick(b, world_size)) == total_mass(b),
{
    lemma_sum_all(b);
    lemma_tick_from(b, all_alive(b.len()), 0, world_size);
    let (b2, a2) = tick_from(b, all_alive(b.len()), 0, world_size);
    lemma_compact_mass(b2, a2);
}

pub(crate) proof fn lemma_compact(b: Seq<Body>, a: Seq<bool>)
    ensures
        forall|x: Body| #[trigger] compact(b, a).contains(x) ==> b.contains(x),
        ids_ascending(b) ==> ids_ascending(compact(b, a)),
    decreases b.len(),
{
    if b.len() > 0 {
        let bd = b.drop_last();
        lemma_compact(bd, a.drop_last());
        let r = compact(bd, a.drop_last());
        assert forall|x: Body| #[trigger] compact(b, a).contains(x) implies b.contains(x) by {
            if r.contains(x) {
                let k = choose|k: int| 0 <= k < bd.len() && bd[k] == x;
                assert(b[k] == x);
            } else {
                assert(x == b.last());
                assert(b[b.len() - 1] == x);
            }
        }
        if ids_ascending(b) {
            assert(ids_ascending(bd));
            if a.last() {
                let rp = r.push(b.last());
                assert forall|p: int, q: int| 0 <= p < q < rp.len() implies
                    #[trigger] rp[p].entity.entity_id < #[trigger] rp[q].entity.entity_id by {
                    if q == rp.len() - 1 {
                        assert(r.contains(rp[p]));
                        let k = choose|k: int| 0 <= k < bd.len() && bd[k] == rp[p];
                        assert(b[k] == rp[p]);
                    } else {
                        assert(rp[p] == r[p] && rp[q] == r[q]);
                    }
                }
            }
        }
    }
}

/// Keeping every body keeps the sequence.
pub(crate) proof fn lemma_compact_all(b: Seq<Body>, a: Seq<bool>)
    requires
        a.len() == b.len(),
        forall|k: int| 0 <= k < a.len() ==> #[trigger] a[k],
    ensures
        compact(b, a) == b,
    decreases b.len(),
{
    if b.len() > 0 {
        lemma_compact_all(b.drop_last(), a.drop_last());
        assert(b.drop_last().push(b.last()) =~= b);
    }
}

/// The bodies other than the store's entities are left as they are.
pub open spec fn same_but_bodies(w1: World, w2: World) -> bool {
    &&& w1.config == w2.config
    &&& w1.players@ == w2.players@
    &&& w1.logged_out_players@ == w2.logged_out_players@
    &&& w1.spawn_food_timers@ == w2.spawn_food_timers@
    &&& w1.move_all_players_timers@ == w2.move_all_players_timers@
    &&& w1.next_entity_id == w2.next_entity_id
    &&& w1.next_player_id == w2.next_player_id
    &&& w1.next_scheduled_id == w2.next_scheduled_id
}

fn absorbs_exec(actor: &Body, other: &Body) -> (r: bool)
    ensures
        r == absorbs(*actor, *other),
{
    if !is_overlapping(&actor.entity, &other.entity) {
        return false;
    }
    match other.role {
        Role::Food => true,
        Role::Circle(oc) => match actor.role {
            Role::Circle(ac) => {
                oc.player_id != ac.player_id && 100 * (other.entity.mass as u64)
                    < SAFE_RATIO_PERCENT * (actor.entity.mass as u64)
            },
            Role::Food => false,
        },
    }
}

fn scan_exec(actor: Body, bodies: &Vec<Body>, alive: &mut Vec<bool>, i: usize) -> (r: Body)
    requires
        old(alive).len() == bodies.len(),
        i < bodies.len(),
        old(alive)[i as int],
        sum_alive(bodies@.update(i as int, actor), old(alive)@) <= u32::MAX,
    ensures
        (r, final(alive)@) == scan(actor, bodies@, old(alive)@, i as int, 0),
{
    let mut a = actor;
    let mut j: usize = 0;
    while j < bodies.len()
        invariant
            alive.len() == bodies.len(),
            i < bodies.len(),
            j <= bodies.len(),
            alive[i as int],
            sum_alive(bodies@.update(i as int, a), alive@) == sum_alive(bodies@.update(i as int, actor), old(alive)@),
            sum_alive(bodies@.update(i as int, actor), old(alive)@) <= u32::MAX,
            scan(a, bodies@, alive@, i as int, j as int) == scan(actor, bodies@, old(alive)@, i as int, 0),
        decreases bodies.len() - j,
    {
        if j != i && alive[j] && absorbs_exec(&a, &bodies[j]) {
            proof {
                lemma_scan_step(a, bodies@, alive@, i as int, j as int);
            }
            let m = bodies[j].entity.mass;
            a = Body { entity: Entity { mass: a.entity.mass + m, ..a.entity }, role: a.role };
            alive.set(j, false);
        }
        j += 1;
    }
    a
}

pub(crate) fn compact_exec(b: &Vec<Body>, a: &Vec<bool>) -> (r: Vec<Body>)
    requires
        a.len() == b.len(),
    ensures
        r@ == compact(b@, a@),
{
    let mut r: Vec<Body> = Vec::new();
    let mut k: usize = 0;
    while k < b.len()
        invariant
            a.len() == b.len(),
            k <= b.len(),
            r@ == compact(b@.take(k as int), a@.take(k as int)),
        decreases b.len() - k,
    {
        proof {
            assert(b@.take(k + 1).drop_last() =~= b@.take(k as int));
            assert(a@.take(k + 1).drop_last() =~= a@.take(k as int));
        }
        if a[k] {
            r.push(b[k]);
        }
        k += 1;
    }
    proof {
        assert(b@.take(b.len() as int) =~= b@);
        assert(a@.take(a.len() as int) =~= a@);
    }
    r
}

/// What one movement tick does to the store.
pub open spec fn move_all_players_outcome(w1: World, w2: World, r: Result<(), GameError>) -> bool {
    &&& same_but_bodies(w1, w2)
    &&& match w1.config {
        None => r == Err::<(), GameError>(GameError::ConfigNotFound) && w2.bodies@ == w1.bodies@,
        Some(c) => r == Ok::<(), GameError>(()) && w2.bodies@ == tick(w1.bodies@, c.world_size as nat),
    }
}

/// One movement tick: every live circle, in ascending `entity_id` order,
/// moves one step and then absorbs the food and the smaller opposing circles
/// it overlaps. Fails, changing nothing, when the configuration is missing.
pub fn move_all_players(world: &mut World, _timer: &MoveAllPlayersTimer) -> (r: Result<(), GameError>)
    requires
        old(world).wf(),
        total_mass(old(world).bodies@) <= u32::MAX,
    ensures
        final(world).wf(),
        same_but_bodies(*old(world), *final(world)),
        total_mass(final(world).bodies@) == total_mass(old(world).bodies@),
        move_all_players_outcome(*old(world), *final(world), r),
{
    let ws = match world.config {
        Some(c) => c.world_size,
        None => {
            return Err(GameError::ConfigNotFound);
        },
    };
    let ghost b0 = world.bodies@;
    let n = world.bodies.len();
    let mut alive: Vec<bool> = Vec::new();
    let mut k: usize = 0;
    while k < n
        invariant
            k <= n,
            alive@ == all_alive(k as nat),
        decreases n - k,
    {
        alive.push(true);
        k += 1;
        proof {
            assert(alive@ =~= all_alive(k as nat));
        }
    }
    proof {
        lemma_sum_all(b0);
    }
    let mut i: usize = 0;
    while i < n
        invariant
            world.wf() == old(world).wf(),
            old(world).wf(),
            same_but_bodies(*old(world), *world),
            world.config == Some(Config { id: 0, world_size: ws }),
            b0 == old(world).bodies@,
            n == b0.len(),
            i <= n,
            world.bodies@.len() == n,
            alive@.len() == n,
            tick_from(world.bodies@, alive@, i as int, ws as nat) == tick_from(b0, all_alive(n as nat), 0, ws as nat),
            sum_alive(world.bodies@, alive@) == total_mass(b0),
            total_mass(b0) <= u32::MAX,
            forall|q: int| 0 <= q < n ==> same_row(#[trigger] world.bodies@[q], b0[q]),
        decreases n - i,
    {
        let bi = world.bodies[i];
        if alive[i] {
            match bi.role {
                Role::Circle(c) => {
                    assert(b0[i as int].wf());
                    let moved = move_entity(&bi.entity, &c, ws);
                    let actor = Body { entity: moved, role: bi.role };
                    proof {
                        lemma_sum_set(world.bodies@, alive@, i as int, actor);
                        lemma_scan(actor, world.bodies@, alive@, i as int, 0);
                    }
                    let a2 = scan_exec(actor, &world.bodies, &mut alive, i);
                    world.bodies.set(i, a2);
                },
                Role::Food => {},
            }
        }
        i += 1;
    }
    let ghost b2 = world.bodies@;
    let kept = compact_exec(&world.bodies, &alive);
    proof {
        lemma_compact_mass(b2, alive@);
        lemma_compact(b2, alive@);
    }
    world.bodies = kept;
    proof {
        assert forall|p: int, q: int| 0 <= p < q < b2.len() implies
            #[trigger] b2[p].entity.entity_id < #[trigger] b2[q].entity.entity_id by {
            assert(same_row(b2[p], b0[p]) && same_row(b2[q], b0[q]));
        }
        assert forall|q: int| 0 <= q < world.bodies@.len() implies (#[trigger] world.bodies@[q]).wf()
            && world.bodies@[q].entity.entity_id < world.next_entity_id by {
            assert(compact(b2, alive@).contains(world.bodies@[q]));
            let k = choose|k: int| 0 <= k < b2.len() && b2[k] == world.bodies@[q];
            assert(same_row(b2[k], b0[k]));
            assert(b0[k].wf());
        }
    }
    Ok(())
}

} // verus!

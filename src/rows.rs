use vstd::prelude::*;
use crate::tables::{Body, Circle, Entity, Food, Role, World};

verus! {

/// The entity rows of the bodies, in order.
pub open spec fn entity_rows_of(b: Seq<Body>) -> Seq<Entity> {
    b.map_values(|x: Body| x.entity)
}

/// The food rows of the bodies, in order.
pub open spec fn food_rows_of(b: Seq<Body>) -> Seq<Food>
    decreases b.len(),
{
    if b.len() == 0 {
        Seq::empty()
    } else {
        let r = food_rows_of(b.drop_last());
        match b.last().role {
            Role::Food => r.push(Food { entity_id: b.last().entity.entity_id }),
            Role::Circle(_) => r,
        }
    }
}

/// The circle rows of the bodies owned by `player_id`, or of all circles
/// when `player_id` is `None`, in order.
pub open spec fn circle_rows_of(b: Seq<Body>, player_id: Option<u32>) -> Seq<Circle>
    decreases b.len(),
{
    if b.len() == 0 {
        Seq::empty()
    } else {
        let r = circle_rows_of(b.drop_last(), player_id);
        match b.last().role {
            Role::Circle(c) => match player_id {
                Some(p) => if c.player_id == p {
                    r.push(c)
                } else {
                    r
                },
                None => r.push(c),
            },
            Role::Food => r,
        }
    }
}

/// Every entity row, in ascending `entity_id` order.
pub fn entity_rows(world: &World) -> (r: Vec<Entity>)
    ensures
        r@ == entity_rows_of(world.bodies@),
{
    let mut r: Vec<Entity> = Vec::new();
    let mut k: usize = 0;
    while k < world.bodies.len()
        invariant
            k <= world.bodies.len(),
            r@ == entity_rows_of(world.bodies@.take(k as int)),
        decreases world.bodies.len() - k,
    {
        r.push(world.bodies[k].entity);
        k += 1;
        proof {
            assert(r@ =~= entity_rows_of(world.bodies@.take(k as int)));
        }
    }
    proof {
        assert(world.bodies@.take(world.bodies.len() as int) =~= world.bodies@);
    }
    r
}

/// Every food row, in ascending `entity_id` order.
pub fn food_rows(world: &World) -> (r: Vec<Food>)
    ensures
        r@ == food_rows_of(world.bodies@),
{
    let mut r: Vec<Food> = Vec::new();
    let mut k: usize = 0;
    while k < world.bodies.len()
        invariant
            k <= world.bodies.len(),
            r@ == food_rows_of(world.bodies@.take(k as int)),
        decreases world.bodies.len() - k,
    {
        proof {
            assert(world.bodies@.take(k + 1).drop_last() =~= world.bodies@.take(k as int));
        }
        let b = world.bodies[k];
        if let Role::Food = b.role {
            r.push(Food { entity_id: b.entity.entity_id });
        }
        k += 1;
    }
    proof {
        assert(world.bodies@.take(world.bodies.len() as int) =~= world.bodies@);
    }
    r
}

fn collect_circles(world: &World, player_id: Option<u32>) -> (r: Vec<Circle>)
    ensures
        r@ == circle_rows_of(world.bodies@, player_id),
{
    let mut r: Vec<Circle> = Vec::new();
    let mut k: usize = 0;
    while k < world.bodies.len()
        invariant
            k <= world.bodies.len(),
            r@ == circle_rows_of(world.bodies@.take(k as int), player_id),
        decreases world.bodies.len() - k,
    {
        proof {
            assert(world.bodies@.take(k + 1).drop_last() =~= world.bodies@.take(k as int));
        }
        let b = world.bodies[k];
        if let Role::Circle(c) = b.role {
            match player_id {
                Some(p) => {
                    if c.player_id == p {
                        r.push(c);
                    }
                },
                None => r.push(c),
            }
        }
        k += 1;
    }
    proof {
        assert(world.bodies@.take(world.bodies.len() as int) =~= world.bodies@);
    }
    r
}

/// Every circle row, in ascending `entity_id` order.
pub fn circle_rows(world: &World) -> (r: Vec<Circle>)
    ensures
        r@ == circle_rows_of(world.bodies@, None),
{
    collect_circles(world, None)
}

/// The circle rows owned by the given player, in ascending `entity_id` order.
pub fn circles_of_player(world: &World, player_id: u32) -> (r: Vec<Circle>)
    ensures
        r@ == circle_rows_of(world.bodies@, Some(player_id)),
{
    collect_circles(world, Some(player_id))
}

} // verus!

use blackholio::collision::{move_all_players, SAFE_RATIO_PERCENT};
use blackholio::food::{count_food, place_food, spawn_food, TARGET_FOOD_COUNT};
use blackholio::math::isqrt;
use blackholio::rows::{circle_rows, circles_of_player, entity_rows, food_rows};
use blackholio::physics::{is_overlapping, mass_to_max_move_speed, mass_to_radius, move_entity};
use blackholio::session::{
    connect, disconnect, enter_game, find_entity, init, spawn_circle_at, update_player_input,
};
use blackholio::tables::{
    Body, Circle, Config, DbVector2, Entity, GameError, Identity, MoveAllPlayersTimer, Role,
    ScheduleAt, SpawnFoodTimer, Timestamp, World,
};
use rand::rngs::StdRng;
use rand::SeedableRng;

fn ident(n: u128) -> Identity {
    Identity { hi: 0, lo: n }
}

fn move_timer() -> MoveAllPlayersTimer {
    MoveAllPlayersTimer { scheduled_id: 2, scheduled_at: ScheduleAt::Interval(50_000) }
}

fn food_timer() -> SpawnFoodTimer {
    SpawnFoodTimer { scheduled_id: 1, scheduled_at: ScheduleAt::Interval(500_000) }
}

fn world_1000() -> World {
    let mut w = World::new();
    init(&mut w).unwrap();
    w
}

fn at(x: i64, y: i64) -> DbVector2 {
    DbVector2 { x: x * 1000, y: y * 1000 }
}

fn now() -> Timestamp {
    Timestamp { micros_since_unix_epoch: 0 }
}

fn total_mass(w: &World) -> u64 {
    w.bodies.iter().map(|b| b.entity.mass as u64).sum()
}

fn circle_player(b: &Body) -> Option<u32> {
    match b.role {
        Role::Circle(c) => Some(c.player_id),
        Role::Food => None,
    }
}

#[test]
fn integer_square_root() {
    assert_eq!(isqrt(0), 0);
    assert_eq!(isqrt(1), 1);
    assert_eq!(isqrt(15), 3);
    assert_eq!(isqrt(16), 4);
    assert_eq!(isqrt(u128::MAX), u64::MAX as u128);
}

#[test]
fn radius_and_speed_of_mass() {
    assert_eq!(mass_to_radius(100), 10_000);
    assert_eq!(mass_to_radius(15), 3_872);
    assert_eq!(mass_to_radius(3), 1_732);
    // 2 * 10 / (1 + sqrt(15 / 15)) = 10 world units
    assert_eq!(mass_to_max_move_speed(15), 10_000);
    // 2 * 10 / (1 + sqrt(60 / 15)) = 6.666 world units
    assert_eq!(mass_to_max_move_speed(60), 6_666);
    assert!(mass_to_max_move_speed(1000) < mass_to_max_move_speed(100));
}

#[test]
fn overlap_uses_larger_radius() {
    let a = Entity { entity_id: 1, position: at(100, 100), mass: 100 };
    let near = Entity { entity_id: 2, position: at(109, 100), mass: 1 };
    let edge = Entity { entity_id: 3, position: at(106, 108), mass: 1 };
    let far = Entity { entity_id: 4, position: at(111, 100), mass: 1 };
    assert!(is_overlapping(&a, &near));
    assert!(is_overlapping(&near, &a));
    assert!(is_overlapping(&a, &edge));
    assert!(!is_overlapping(&a, &far));
}

#[test]
fn movement_is_clamped_to_walls() {
    let e = Entity { entity_id: 1, position: at(2, 500), mass: 15 };
    let c = Circle {
        entity_id: 1,
        player_id: 1,
        direction: DbVector2 { x: -1000, y: 0 },
        speed: 1000,
        last_split_time: now(),
    };
    let m = move_entity(&e, &c, 1000);
    assert_eq!(m.position, DbVector2 { x: 3_872, y: 500_000 });
    let c2 = Circle { direction: DbVector2 { x: 0, y: 1000 }, speed: 500, ..c };
    let m2 = move_entity(&e, &c2, 1000);
    assert_eq!(m2.position, DbVector2 { x: 3_872, y: 505_000 });
    assert_eq!(m2.mass, 15);
}

#[test]
fn circle_eats_overlapping_food() {
    let mut w = world_1000();
    connect(&mut w, ident(1)).unwrap();
    let c = spawn_circle_at(&mut w, 1, 15, at(500, 500), now()).unwrap();
    let f = place_food(&mut w, 3, at(500, 500)).unwrap();
    move_all_players(&mut w, &move_timer()).unwrap();
    assert_eq!(find_entity(&w, c.entity_id).unwrap().mass, 18);
    assert_eq!(find_entity(&w, f.entity_id), None);
    assert_eq!(count_food(&w), 0);
    assert_eq!(w.bodies.len(), 1);
}

#[test]
fn safe_ratio_protects_near_equal_circles() {
    let mut w = world_1000();
    let a = spawn_circle_at(&mut w, 1, 100, at(300, 300), now()).unwrap();
    let b = spawn_circle_at(&mut w, 2, 90, at(305, 300), now()).unwrap();
    move_all_players(&mut w, &move_timer()).unwrap();
    assert_eq!(find_entity(&w, a.entity_id).unwrap().mass, 100);
    assert_eq!(find_entity(&w, b.entity_id).unwrap().mass, 90);
    assert_eq!(SAFE_RATIO_PERCENT, 85);
}

#[test]
fn larger_circle_absorbs_smaller_one() {
    let mut w = world_1000();
    let a = spawn_circle_at(&mut w, 1, 100, at(300, 300), now()).unwrap();
    let c = spawn_circle_at(&mut w, 3, 50, at(305, 300), now()).unwrap();
    move_all_players(&mut w, &move_timer()).unwrap();
    assert_eq!(find_entity(&w, a.entity_id).unwrap().mass, 150);
    assert_eq!(find_entity(&w, c.entity_id), None);
    assert_eq!(w.bodies.len(), 1);
}

#[test]
fn same_player_circles_never_merge() {
    let mut w = world_1000();
    spawn_circle_at(&mut w, 1, 100, at(300, 300), now()).unwrap();
    spawn_circle_at(&mut w, 1, 10, at(300, 300), now()).unwrap();
    move_all_players(&mut w, &move_timer()).unwrap();
    assert_eq!(w.bodies.len(), 2);
}

#[test]
fn tick_conserves_mass() {
    let mut w = world_1000();
    spawn_circle_at(&mut w, 1, 100, at(300, 300), now()).unwrap();
    spawn_circle_at(&mut w, 2, 40, at(302, 300), now()).unwrap();
    spawn_circle_at(&mut w, 3, 95, at(298, 300), now()).unwrap();
    place_food(&mut w, 2, at(300, 303)).unwrap();
    place_food(&mut w, 3, at(700, 700)).unwrap();
    let before = total_mass(&w);
    move_all_players(&mut w, &move_timer()).unwrap();
    assert_eq!(total_mass(&w), before);
    assert!(w.bodies.len() < 5);
}

#[test]
fn tick_without_config_fails() {
    let mut w = World::new();
    spawn_circle_at(&mut w, 1, 15, at(10, 10), now()).unwrap();
    assert_eq!(move_all_players(&mut w, &move_timer()), Err(GameError::ConfigNotFound));
    assert_eq!(w.bodies.len(), 1);
}

#[test]
fn tick_moves_steered_circle() {
    let mut w = world_1000();
    connect(&mut w, ident(7)).unwrap();
    let pid = w.players[0].player_id;
    let c = spawn_circle_at(&mut w, pid, 15, at(500, 500), now()).unwrap();
    update_player_input(&mut w, ident(7), DbVector2 { x: 3000, y: 4000 }).unwrap();
    move_all_players(&mut w, &move_timer()).unwrap();
    // direction (0.6, 0.8), speed 1, max speed 10 world units
    assert_eq!(find_entity(&w, c.entity_id).unwrap().position, DbVector2 { x: 506_000, y: 508_000 });
}

#[test]
fn input_is_normalised_and_clamped() {
    let mut w = world_1000();
    connect(&mut w, ident(7)).unwrap();
    let pid = w.players[0].player_id;
    spawn_circle_at(&mut w, pid, 15, at(500, 500), now()).unwrap();
    spawn_circle_at(&mut w, pid + 1, 15, at(100, 100), now()).unwrap();
    update_player_input(&mut w, ident(7), DbVector2 { x: 300, y: -400 }).unwrap();
    match w.bodies[0].role {
        Role::Circle(c) => {
            assert_eq!(c.direction, DbVector2 { x: 600, y: -800 });
            assert_eq!(c.speed, 500);
        }
        Role::Food => panic!("expected a circle"),
    }
    match w.bodies[1].role {
        Role::Circle(c) => {
            assert_eq!(c.direction, DbVector2 { x: 0, y: 1000 });
            assert_eq!(c.speed, 0);
        }
        Role::Food => panic!("expected a circle"),
    }
    update_player_input(&mut w, ident(7), DbVector2 { x: 0, y: 0 }).unwrap();
    match w.bodies[0].role {
        Role::Circle(c) => {
            assert_eq!(c.direction, DbVector2 { x: 0, y: 0 });
            assert_eq!(c.speed, 0);
        }
        Role::Food => panic!("expected a circle"),
    }
}

#[test]
fn input_without_player_fails() {
    let mut w = world_1000();
    assert_eq!(
        update_player_input(&mut w, ident(9), DbVector2 { x: 1, y: 0 }),
        Err(GameError::PlayerNotFound)
    );
}

#[test]
fn food_fills_to_target_and_stays() {
    let mut w = world_1000();
    connect(&mut w, ident(1)).unwrap();
    let mut rng = StdRng::seed_from_u64(42);
    spawn_food(&mut w, &food_timer(), &mut rng).unwrap();
    assert_eq!(count_food(&w), TARGET_FOOD_COUNT);
    assert_eq!(TARGET_FOOD_COUNT, 600);
    for b in w.bodies.iter() {
        let m = b.entity.mass;
        assert!(m >= 2 && m < 4);
        let r = mass_to_radius(m) as i64;
        assert!(b.entity.position.x >= r && b.entity.position.x < 1_000_000 - r);
        assert!(b.entity.position.y >= r && b.entity.position.y < 1_000_000 - r);
    }
    let distinct_x: std::collections::BTreeSet<i64> = w.bodies.iter().map(|b| b.entity.position.x).collect();
    assert!(distinct_x.len() > 100);
    assert!(w.bodies.iter().any(|b| b.entity.mass == 3));
    assert!(w.bodies.iter().any(|b| b.entity.mass == 2));
    let ids: Vec<u32> = w.bodies.iter().map(|b| b.entity.entity_id).collect();
    spawn_food(&mut w, &food_timer(), &mut rng).unwrap();
    let ids_after: Vec<u32> = w.bodies.iter().map(|b| b.entity.entity_id).collect();
    assert_eq!(ids, ids_after);
}

#[test]
fn food_skipped_without_players() {
    let mut w = world_1000();
    let mut rng = StdRng::seed_from_u64(1);
    spawn_food(&mut w, &food_timer(), &mut rng).unwrap();
    assert_eq!(count_food(&w), 0);
}

#[test]
fn food_without_config_fails() {
    let mut w = World::new();
    connect(&mut w, ident(1)).unwrap();
    let mut rng = StdRng::seed_from_u64(1);
    assert_eq!(spawn_food(&mut w, &food_timer(), &mut rng), Err(GameError::ConfigNotFound));
    assert_eq!(w.bodies.len(), 0);
}

#[test]
fn same_seed_same_world() {
    let run = || {
        let mut w = world_1000();
        connect(&mut w, ident(1)).unwrap();
        let mut rng = StdRng::seed_from_u64(7);
        enter_game(&mut w, ident(1), String::from("a"), &mut rng, now()).unwrap();
        update_player_input(&mut w, ident(1), DbVector2 { x: 700, y: 100 }).unwrap();
        spawn_food(&mut w, &food_timer(), &mut rng).unwrap();
        for _ in 0..20 {
            move_all_players(&mut w, &move_timer()).unwrap();
        }
        w.bodies.clone()
    };
    assert_eq!(run(), run());
}

#[test]
fn connect_disconnect_reconnect() {
    let mut w = world_1000();
    connect(&mut w, ident(1)).unwrap();
    connect(&mut w, ident(2)).unwrap();
    assert_eq!(connect(&mut w, ident(1)), Err(GameError::PlayerExists));
    let pid = w.players[0].player_id;
    assert_ne!(pid, w.players[1].player_id);
    assert_eq!(w.players[0].name, "");
    let mut rng = StdRng::seed_from_u64(3);
    enter_game(&mut w, ident(1), String::from("alice"), &mut rng, now()).unwrap();
    disconnect(&mut w, ident(1)).unwrap();
    assert_eq!(w.players.len(), 1);
    assert_eq!(w.logged_out_players.len(), 1);
    assert_eq!(w.bodies.len(), 0);
    assert_eq!(disconnect(&mut w, ident(1)), Err(GameError::PlayerNotFound));
    connect(&mut w, ident(1)).unwrap();
    assert_eq!(w.logged_out_players.len(), 0);
    let back = w.players.iter().find(|p| p.identity == ident(1)).unwrap();
    assert_eq!(back.player_id, pid);
    assert_eq!(back.name, "alice");
}

#[test]
fn disconnect_without_circles_keeps_entities() {
    let mut w = world_1000();
    connect(&mut w, ident(1)).unwrap();
    connect(&mut w, ident(2)).unwrap();
    let other = w.players[1].player_id;
    spawn_circle_at(&mut w, other, 20, at(50, 50), now()).unwrap();
    place_food(&mut w, 2, at(60, 60)).unwrap();
    let before = w.bodies.clone();
    disconnect(&mut w, ident(1)).unwrap();
    assert_eq!(w.bodies, before);
    assert_eq!(w.logged_out_players.len(), 1);
    assert_eq!(w.logged_out_players[0].identity, ident(1));
    assert_eq!(w.players.len(), 1);
}

#[test]
fn disconnect_removes_only_own_circles() {
    let mut w = world_1000();
    connect(&mut w, ident(1)).unwrap();
    connect(&mut w, ident(2)).unwrap();
    let p1 = w.players[0].player_id;
    let p2 = w.players[1].player_id;
    spawn_circle_at(&mut w, p1, 20, at(50, 50), now()).unwrap();
    let keep = spawn_circle_at(&mut w, p2, 20, at(150, 50), now()).unwrap();
    spawn_circle_at(&mut w, p1, 20, at(250, 50), now()).unwrap();
    disconnect(&mut w, ident(1)).unwrap();
    assert_eq!(w.bodies.len(), 1);
    assert_eq!(w.bodies[0].entity, keep);
    assert_eq!(circle_player(&w.bodies[0]), Some(p2));
}

#[test]
fn enter_game_spawns_one_circle() {
    let mut w = world_1000();
    connect(&mut w, ident(1)).unwrap();
    let mut rng = StdRng::seed_from_u64(11);
    enter_game(&mut w, ident(1), String::from("bob"), &mut rng, Timestamp { micros_since_unix_epoch: 5 })
        .unwrap();
    assert_eq!(w.players[0].name, "bob");
    assert_eq!(w.bodies.len(), 1);
    let b = w.bodies[0];
    assert_eq!(b.entity.mass, 15);
    assert!(b.entity.position.x >= 3_872 && b.entity.position.x < 1_000_000 - 3_872);
    assert!(b.entity.position.y >= 3_872 && b.entity.position.y < 1_000_000 - 3_872);
    match b.role {
        Role::Circle(c) => {
            assert_eq!(c.player_id, w.players[0].player_id);
            assert_eq!(c.direction, DbVector2 { x: 0, y: 1000 });
            assert_eq!(c.speed, 0);
            assert_eq!(c.last_split_time, Timestamp { micros_since_unix_epoch: 5 });
        }
        Role::Food => panic!("expected a circle"),
    }
}

#[test]
fn enter_game_errors() {
    let mut w = world_1000();
    let mut rng = StdRng::seed_from_u64(11);
    assert_eq!(
        enter_game(&mut w, ident(1), String::from("x"), &mut rng, now()),
        Err(GameError::PlayerNotFound)
    );
    let mut bare = World::new();
    connect(&mut bare, ident(1)).unwrap();
    assert_eq!(
        enter_game(&mut bare, ident(1), String::from("x"), &mut rng, now()),
        Err(GameError::ConfigNotFound)
    );
    assert_eq!(bare.players[0].name, "");
    assert_eq!(bare.bodies.len(), 0);
}

#[test]
fn init_creates_config_once() {
    let mut w = World::new();
    init(&mut w).unwrap();
    assert_eq!(w.config, Some(Config { id: 0, world_size: 1000 }));
    assert_eq!(w.spawn_food_timers.len(), 1);
    assert_eq!(w.spawn_food_timers[0].scheduled_at, ScheduleAt::Interval(500_000));
    assert_eq!(w.move_all_players_timers[0].scheduled_at, ScheduleAt::Interval(50_000));
    assert_eq!(init(&mut w), Err(GameError::ConfigExists));
    assert_eq!(w.spawn_food_timers.len(), 1);
}

#[test]
fn ids_exhausted() {
    let mut w = world_1000();
    w.next_entity_id = u32::MAX;
    assert_eq!(place_food(&mut w, 2, at(1, 1)), Err(GameError::IdsExhausted));
    assert_eq!(spawn_circle_at(&mut w, 1, 2, at(1, 1), now()), Err(GameError::IdsExhausted));
    assert_eq!(w.bodies.len(), 0);
}

#[test]
fn find_entity_by_id() {
    let mut w = world_1000();
    let f = place_food(&mut w, 2, at(5, 6)).unwrap();
    assert_eq!(find_entity(&w, f.entity_id), Some(f));
    assert_eq!(find_entity(&w, f.entity_id + 1), None);
}

#[test]
fn table_views() {
    let mut w = world_1000();
    let a = spawn_circle_at(&mut w, 1, 20, at(10, 10), now()).unwrap();
    let f = place_food(&mut w, 2, at(20, 20)).unwrap();
    let b = spawn_circle_at(&mut w, 2, 30, at(30, 30), now()).unwrap();
    let c = spawn_circle_at(&mut w, 1, 40, at(40, 40), now()).unwrap();
    assert_eq!(entity_rows(&w), vec![a, f, b, c]);
    let foods = food_rows(&w);
    assert_eq!(foods.len(), 1);
    assert_eq!(foods[0].entity_id, f.entity_id);
    let all: Vec<u32> = circle_rows(&w).iter().map(|c| c.entity_id).collect();
    assert_eq!(all, vec![a.entity_id, b.entity_id, c.entity_id]);
    let mine: Vec<u32> = circles_of_player(&w, 1).iter().map(|c| c.entity_id).collect();
    assert_eq!(mine, vec![a.entity_id, c.entity_id]);
    assert!(circles_of_player(&w, 9).is_empty());
}

#[test]
fn circle_scan_order_decides_chain() {
    // The circle with the lower entity id acts first: A (100) eats B (80),
    // then, at 180, C (150) is below the safe ratio and is eaten too.
    let mut w = world_1000();
    let a = spawn_circle_at(&mut w, 1, 100, at(500, 500), now()).unwrap();
    spawn_circle_at(&mut w, 2, 80, at(505, 500), now()).unwrap();
    spawn_circle_at(&mut w, 3, 150, at(495, 500), now()).unwrap();
    move_all_players(&mut w, &move_timer()).unwrap();
    assert_eq!(w.bodies.len(), 1);
    assert_eq!(w.bodies[0].entity.entity_id, a.entity_id);
    assert_eq!(w.bodies[0].entity.mass, 330);
}

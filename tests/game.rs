use asteroids::asteroids::{split, update_and_render, Asteroids};
use asteroids::entity::{Entity, Kind, Size};
use asteroids::geometry::{HeadingTable, Vec2, UNIT};
use asteroids::rules::{InputStatus, KeyTransitions};

const FRAME: u32 = 16_667;

fn game() -> Asteroids {
    let units = (0..360)
        .map(|d: i32| {
            let r = (d as f64).to_radians();
            Vec2::new((r.sin() * UNIT as f64).round() as i64, (-r.cos() * UNIT as f64).round() as i64)
        })
        .collect();
    Asteroids::new(HeadingTable::new(units).unwrap())
}

fn quiet() -> KeyTransitions {
    KeyTransitions::default()
}

#[test]
fn new_game_starts_empty() {
    let g = game();
    assert!(g.should_continue());
    assert_eq!((g.session.stage, g.session.score, g.session.lives), (1, 0, 3));
    assert!(g.entities.is_empty());
}

#[test]
fn first_frame_spawns_the_ship_then_a_wave() {
    let mut g = game();
    let frame = update_and_render(&mut g, &quiet(), FRAME);
    assert_eq!(g.entities.len(), 1);
    assert_eq!(g.state.kinds.get(&g.entities[0].id), Some(&Kind::PlayerShip));
    assert_eq!(frame.len(), 1 + 3);
    update_and_render(&mut g, &quiet(), FRAME);
    assert_eq!(g.session.stage, 2);
    assert!(g.entities.len() >= 1);
    assert_eq!(g.state.kinds.get(&g.entities[0].id), Some(&Kind::PlayerShip));
}

#[test]
fn thrust_for_one_frame_moves_the_ship_up() {
    let mut g = game();
    update_and_render(&mut g, &quiet(), FRAME);
    let ship = g.entities[0].id;
    g.input = g.input.apply(&KeyTransitions { thrust: Some(2), ..Default::default() });
    g.turn_and_thrust();
    assert_eq!(g.state.accelerations.get(&ship), Some(&Vec2::new(0, -UNIT)));
    g.advance(FRAME);
    let v = *g.state.velocities.get(&ship).unwrap();
    assert_eq!(v, Vec2::new(0, -16_667_000));
    let p = *g.state.positions.get(&ship).unwrap();
    assert_eq!(p.x, 400_000_000);
    assert!(p.y < 300_000_000);
    assert_eq!(p.y, 300_000_000 - 138_895);
    assert_eq!(g.state.accelerations.get(&ship), Some(&Vec2::new(0, 0)));
}

#[test]
fn thrust_key_through_a_frame() {
    let mut g = game();
    update_and_render(&mut g, &KeyTransitions { thrust: Some(2), ..Default::default() }, FRAME);
    let ship = g.entities[0].id;
    assert_eq!(g.input.thrust, InputStatus::Down);
    assert_eq!(g.state.velocities.get(&ship), Some(&Vec2::new(0, -16_667_000)));
    assert!(g.state.positions.get(&ship).unwrap().y < 300_000_000);
}

#[test]
fn turning_changes_heading_by_five_degrees() {
    let mut g = game();
    update_and_render(&mut g, &KeyTransitions { turn_left: Some(2), ..Default::default() }, FRAME);
    let ship = g.entities[0].id;
    assert_eq!(g.state.directions.get(&ship), Some(&-5));
    update_and_render(&mut g, &quiet(), FRAME);
    assert_eq!(g.state.directions.get(&ship), Some(&-10));
    update_and_render(&mut g, &KeyTransitions { turn_left: Some(2), turn_right: Some(2), ..Default::default() }, FRAME);
    assert_eq!(g.state.directions.get(&ship), Some(&-5));
}

fn ship_with_rock(lives: u32) -> Asteroids {
    let mut g = game();
    update_and_render(&mut g, &quiet(), FRAME);
    g.session.lives = lives;
    let rock = Entity::asteroid_with(&mut g.state, Size::Large, Vec2::new(400_000_000, 300_000_000), 90, 100);
    g.entities.push(rock);
    g
}

#[test]
fn collision_with_lives_left_costs_one() {
    let mut g = ship_with_rock(3);
    assert_eq!(g.session.invulnerability, -(FRAME as i64));
    g.session.invulnerability = 0;
    update_and_render(&mut g, &quiet(), FRAME);
    assert_eq!(g.session.lives, 2);
    assert_eq!(g.session.invulnerability, 1_000_000);
    assert!(g.should_continue());
    assert_eq!(g.state.kinds.get(&g.entities[0].id), Some(&Kind::PlayerShip));
}

#[test]
fn collision_on_last_life_ends_the_game() {
    let mut g = ship_with_rock(1);
    g.session.invulnerability = 0;
    let ship = g.entities[0].id;
    update_and_render(&mut g, &quiet(), FRAME);
    assert!(!g.should_continue());
    assert!(g.state.kinds.get(&ship).is_none());
    assert!(g.entities.iter().all(|e| e.id != ship));
    let before = g.entities.len();
    let frame = update_and_render(&mut g, &quiet(), FRAME);
    assert!(frame.is_empty());
    assert_eq!(g.entities.len(), before);
}

#[test]
fn shooting_a_large_asteroid_splits_it() {
    let mut g = game();
    update_and_render(&mut g, &quiet(), FRAME);
    let at = Vec2::new(100_000_000, 100_000_000);
    let rock = Entity::asteroid_with(&mut g.state, Size::Large, at, 0, 100);
    g.entities.push(rock);
    let shot = Entity::projectile(&mut g.state, at, 180);
    g.entities.push(shot);
    update_and_render(&mut g, &quiet(), FRAME);
    assert_eq!(g.session.score, 10);
    assert!(g.state.kinds.get(&rock.id).is_none());
    assert!(g.state.kinds.get(&shot.id).is_none());
    let mediums: Vec<_> = g
        .entities
        .iter()
        .filter(|e| g.state.kinds.get(&e.id) == Some(&Kind::Asteroid(Size::Medium)))
        .collect();
    assert_eq!(mediums.len(), 2);
}

#[test]
fn split_large_gives_two_medium_at_parent() {
    let mut g = game();
    let at = Vec2::new(123_000_000, 45_000_000);
    let rock = Entity::asteroid_with(&mut g.state, Size::Large, at, 0, 100);
    let children = split(&mut g.state, rock.id);
    assert_eq!(children.len(), 2);
    for c in &children {
        assert_eq!(g.state.kinds.get(&c.id), Some(&Kind::Asteroid(Size::Medium)));
        assert_eq!(g.state.positions.get(&c.id), Some(&at));
    }
    let smaller = split(&mut g.state, children[0].id);
    assert_eq!(smaller.len(), 2);
    assert_eq!(g.state.kinds.get(&smaller[1].id), Some(&Kind::Asteroid(Size::Small)));
}

#[test]
fn split_small_gives_nothing() {
    let mut g = game();
    let rock = Entity::asteroid_with(&mut g.state, Size::Small, Vec2::new(1, 1), 0, 100);
    let before = g.state.entity_count;
    assert!(split(&mut g.state, rock.id).is_empty());
    assert_eq!(g.state.entity_count, before);
}

#[test]
fn firing_launches_a_projectile_and_restarts_cooldown() {
    let mut g = game();
    update_and_render(&mut g, &quiet(), FRAME);
    let ship = g.entities[0].id;
    let far = Entity::asteroid_with(&mut g.state, Size::Small, Vec2::new(10_000_000, 10_000_000), 0, 100);
    g.entities.push(far);
    let n = g.entities.len();
    update_and_render(&mut g, &KeyTransitions { fire: Some(2), ..Default::default() }, FRAME);
    let shots: Vec<_> = g
        .entities
        .iter()
        .filter(|e| g.state.kinds.get(&e.id) == Some(&Kind::ProjectileFriendly))
        .collect();
    assert_eq!(shots.len(), 1);
    assert_eq!(g.state.weapon_cooldowns.get(&ship), Some(&(200_000 - FRAME as i64)));
    assert!(g.entities.len() >= n);
    update_and_render(&mut g, &quiet(), FRAME);
    let count = g.entities.iter().filter(|e| g.state.kinds.get(&e.id) == Some(&Kind::ProjectileFriendly)).count();
    assert!(count <= 1);
}

#[test]
fn projectiles_expire_after_their_lifetime() {
    let mut g = game();
    update_and_render(&mut g, &quiet(), FRAME);
    let shot = Entity::projectile(&mut g.state, Vec2::new(10_000_000, 10_000_000), 0);
    g.entities.push(shot);
    g.advance(700_000);
    g.expire();
    assert!(g.state.kinds.get(&shot.id).is_some());
    g.advance(50_000);
    g.expire();
    assert!(g.state.kinds.get(&shot.id).is_none());
    assert!(g.entities.iter().all(|e| e.id != shot.id));
}

#[test]
fn quit_ends_the_game_at_once() {
    let mut g = game();
    update_and_render(&mut g, &quiet(), FRAME);
    let frame = update_and_render(&mut g, &KeyTransitions { quit: Some(2), ..Default::default() }, FRAME);
    assert!(frame.is_empty());
    assert!(!g.should_continue());
}

#[test]
fn render_lists_entities_then_lives() {
    let mut g = game();
    update_and_render(&mut g, &quiet(), FRAME);
    let frame = g.render();
    assert_eq!(frame.len(), 1 + 3);
    assert_eq!(frame[0].model, (1, 3));
    assert_eq!(frame[1].position, Vec2::new(20_000_000, 20_000_000));
    assert_eq!(frame[3].position, Vec2::new(70_000_000, 20_000_000));
}

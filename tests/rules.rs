use asteroids::entity::{Kind, Size};
use asteroids::rules::{resolve_collisions, HeldKeys, InputStatus, KeyTransitions, Session};

fn session(lives: u32, invulnerability: i64) -> Session {
    Session { stage: 1, score: 0, lives, live_up: 0, invulnerability }
}

#[test]
fn hit_scores_once_for_both_orderings() {
    for (size, points) in [(Size::Large, 10), (Size::Medium, 25), (Size::Small, 50)] {
        let mut s = session(3, -1);
        let a = (4, Kind::Asteroid(size));
        let p = (9, Kind::ProjectileFriendly);
        let destroyed = resolve_collisions(&mut s, &vec![(a, p), (p, a)]);
        assert_eq!(s.score, points);
        assert_eq!(s.live_up, points);
        assert_eq!(destroyed, vec![4, 9]);
    }
}

#[test]
fn projectile_hitting_two_asteroids_scores_both() {
    let mut s = session(3, -1);
    let a = (1, Kind::Asteroid(Size::Large));
    let b = (2, Kind::Asteroid(Size::Small));
    let p = (3, Kind::ProjectileFriendly);
    let destroyed = resolve_collisions(&mut s, &vec![(a, p), (b, p), (p, a), (p, b)]);
    assert_eq!(s.score, 60);
    assert_eq!(destroyed, vec![1, 3, 2]);
}

#[test]
fn collision_loses_a_life_and_grants_invulnerability() {
    let mut s = session(3, 0);
    s.tick(16_667);
    let ship = (0, Kind::PlayerShip);
    let rock = (5, Kind::Asteroid(Size::Medium));
    let destroyed = resolve_collisions(&mut s, &vec![(ship, rock), (rock, ship)]);
    assert_eq!(s.lives, 2);
    assert_eq!(s.invulnerability, 1_000_000);
    assert!(destroyed.is_empty());
}

#[test]
fn invulnerable_ship_ignores_asteroids() {
    let mut s = session(3, 0);
    let ship = (0, Kind::PlayerShip);
    let rock = (5, Kind::Asteroid(Size::Large));
    let destroyed = resolve_collisions(&mut s, &vec![(rock, ship)]);
    assert_eq!(s.lives, 3);
    assert!(destroyed.is_empty());
}

#[test]
fn last_life_destroys_the_ship() {
    let mut s = session(1, 0);
    s.tick(16_667);
    let ship = (0, Kind::PlayerShip);
    let rock = (5, Kind::Asteroid(Size::Small));
    let destroyed = resolve_collisions(&mut s, &vec![(ship, rock), (rock, ship)]);
    assert_eq!(destroyed, vec![0]);
    assert_eq!(s.lives, 1);
}

#[test]
fn other_pairs_have_no_effect() {
    let mut s = session(3, -1);
    let a = (1, Kind::Asteroid(Size::Large));
    let b = (2, Kind::Asteroid(Size::Large));
    let ship = (0, Kind::PlayerShip);
    let shot = (3, Kind::ProjectileFriendly);
    let destroyed = resolve_collisions(&mut s, &vec![(a, b), (b, a), (ship, shot), (shot, ship)]);
    assert!(destroyed.is_empty());
    assert_eq!(s, session(3, -1));
}

#[test]
fn extra_life_at_two_thousand_points() {
    let mut s = Session { stage: 1, score: 1990, lives: 3, live_up: 1990, invulnerability: 0 };
    s.award(Size::Small);
    assert_eq!(s.score, 2040);
    assert_eq!(s.live_up, 40);
    assert_eq!(s.lives, 4);
}

#[test]
fn score_saturates() {
    let mut s = Session { stage: 1, score: u32::MAX - 5, lives: 3, live_up: 0, invulnerability: 0 };
    s.award(Size::Large);
    assert_eq!(s.score, u32::MAX);
}

#[test]
fn invulnerability_counts_down_past_zero() {
    let mut s = session(3, 1_000_000);
    s.tick(400_000);
    assert_eq!(s.invulnerability, 600_000);
    s.tick(700_000);
    assert_eq!(s.invulnerability, -100_000);
}

#[test]
fn even_transition_counts_flip_keys() {
    let held = HeldKeys::new();
    let input = KeyTransitions { thrust: Some(2), fire: Some(3), turn_left: Some(4), ..Default::default() };
    let next = held.apply(&input);
    assert_eq!(next.thrust, InputStatus::Down);
    assert_eq!(next.fire, InputStatus::Up);
    assert_eq!(next.turn_left, InputStatus::Down);
    assert_eq!(next.turn_right, InputStatus::Up);
    let again = next.apply(&KeyTransitions { thrust: Some(2), ..Default::default() });
    assert_eq!(again.thrust, InputStatus::Up);
    assert_eq!(again.turn_left, InputStatus::Down);
}

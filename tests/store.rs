use asteroids::entity::{Entity, EntityState, Kind, Size};
use asteroids::geometry::{HeadingTable, Vec2, UNIT};

fn headings() -> HeadingTable {
    let mut units = Vec::new();
    for d in 0..360 {
        let r = (d as f64).to_radians();
        let x = (r.sin() * UNIT as f64).round() as i64;
        let y = (-r.cos() * UNIT as f64).round() as i64;
        units.push(Vec2::new(x, y));
    }
    HeadingTable::new(units).expect("a full table")
}

fn store() -> EntityState {
    EntityState::new(headings())
}

#[test]
fn heading_table_needs_every_degree() {
    let short = vec![Vec2::new(0, -UNIT); 359];
    assert!(HeadingTable::new(short).is_none());
    let mut long = vec![Vec2::new(0, -UNIT); 360];
    assert!(HeadingTable::new(long.clone()).is_some());
    long[17] = Vec2::new(UNIT + 1, 0);
    assert!(HeadingTable::new(long).is_none());
}

#[test]
fn heading_wraps_unbounded_angles() {
    let t = headings();
    assert_eq!(t.heading(0), Vec2::new(0, -UNIT));
    assert_eq!(t.heading(90), Vec2::new(UNIT, 0));
    assert_eq!(t.heading(450), t.heading(90));
    assert_eq!(t.heading(-90), t.heading(270));
    assert_eq!(t.heading(-5), t.heading(355));
}

#[test]
fn player_ship_columns() {
    let mut s = store();
    let e = Entity::player_ship(&mut s);
    assert_eq!(e.id, 0);
    assert_eq!(s.entity_count, 1);
    assert_eq!(s.kinds.get(&0), Some(&Kind::PlayerShip));
    assert_eq!(s.positions.get(&0), Some(&Vec2::new(400_000_000, 300_000_000)));
    assert_eq!(s.velocities.get(&0), Some(&Vec2::new(0, 0)));
    assert_eq!(s.accelerations.get(&0), Some(&Vec2::new(0, 0)));
    assert_eq!(s.directions.get(&0), Some(&0));
    assert_eq!(s.scales.get(&0), Some(&Vec2::new(20_000_000, 30_000_000)));
    assert_eq!(s.models.get(&0), Some(&(1, 3)));
    assert_eq!(s.weapon_cooldowns.get(&0), Some(&0));
    assert_eq!(s.lifetimes.get(&0), None);
}

#[test]
fn projectile_columns() {
    let mut s = store();
    let p = Entity::projectile(&mut s, Vec2::new(10_000_000, 20_000_000), 90);
    assert_eq!(s.kinds.get(&p.id), Some(&Kind::ProjectileFriendly));
    assert_eq!(s.velocities.get(&p.id), Some(&Vec2::new(500 * UNIT, 0)));
    assert_eq!(s.lifetimes.get(&p.id), Some(&750_000));
    assert_eq!(s.weapon_cooldowns.get(&p.id), None);
    assert_eq!(s.scales.get(&p.id), Some(&Vec2::new(5_000_000, 5_000_000)));
    assert_eq!(s.models.get(&p.id), Some(&(2, 4)));
}

#[test]
fn asteroid_scales_by_size() {
    let mut s = store();
    let at = Vec2::new(1, 2);
    let l = Entity::asteroid_with(&mut s, Size::Large, at, 180, 150);
    let m = Entity::medium_asteroid(&mut s, at);
    let k = Entity::small_asteroid(&mut s, at);
    assert_eq!(s.scales.get(&l.id), Some(&Vec2::new(50_000_000, 50_000_000)));
    assert_eq!(s.scales.get(&m.id), Some(&Vec2::new(25_000_000, 25_000_000)));
    assert_eq!(s.scales.get(&k.id), Some(&Vec2::new(12_500_000, 12_500_000)));
    assert_eq!(s.velocities.get(&l.id), Some(&Vec2::new(0, 150 * UNIT)));
    assert_eq!(s.positions.get(&m.id), Some(&at));
    assert_eq!(s.positions.get(&k.id), Some(&at));
    assert_eq!(s.lifetimes.get(&l.id), None);
}

#[test]
fn random_asteroids_stay_in_bounds_and_vary() {
    let mut s = store();
    let mut xs = Vec::new();
    for _ in 0..40 {
        let a = Entity::large_asteroid(&mut s);
        let p = *s.positions.get(&a.id).unwrap();
        assert!(0 <= p.x && p.x < 800_000_000);
        assert!(0 <= p.y && p.y < 600_000_000);
        let d = *s.directions.get(&a.id).unwrap();
        assert!((0..360).contains(&d));
        let v = *s.velocities.get(&a.id).unwrap();
        let speed = ((v.x as f64).powi(2) + (v.y as f64).powi(2)).sqrt() / UNIT as f64;
        assert!(speed > 99.0 && speed < 201.0);
        xs.push(p.x);
    }
    assert!(xs.iter().any(|&x| x != xs[0]));
}

#[test]
fn ids_are_fresh_and_never_reused() {
    let mut s = store();
    let a = Entity::player_ship(&mut s);
    let b = Entity::medium_asteroid(&mut s, Vec2::new(0, 0));
    s.remove(a.id);
    let c = Entity::small_asteroid(&mut s, Vec2::new(0, 0));
    assert_eq!((a.id, b.id, c.id), (0, 1, 2));
}

#[test]
fn remove_clears_every_column() {
    let mut s = store();
    let ship = Entity::player_ship(&mut s);
    let shot = Entity::projectile(&mut s, Vec2::new(0, 0), 0);
    for id in [ship.id, shot.id] {
        s.remove(id);
        assert!(s.kinds.get(&id).is_none());
        assert!(s.positions.get(&id).is_none());
        assert!(s.velocities.get(&id).is_none());
        assert!(s.accelerations.get(&id).is_none());
        assert!(s.directions.get(&id).is_none());
        assert!(s.scales.get(&id).is_none());
        assert!(s.models.get(&id).is_none());
        assert!(s.lifetimes.get(&id).is_none());
        assert!(s.weapon_cooldowns.get(&id).is_none());
    }
    assert!(s.kinds.is_empty());
}

#[test]
fn remove_absent_id_is_a_no_op() {
    let mut s = store();
    let ship = Entity::player_ship(&mut s);
    s.remove(ship.id + 7);
    s.remove(ship.id);
    s.remove(ship.id);
    assert!(s.kinds.is_empty());
    assert_eq!(s.entity_count, 1);
}

#[test]
fn coasting_keeps_velocity() {
    let mut s = store();
    let a = Entity::asteroid_with(&mut s, Size::Small, Vec2::new(100_000_000, 100_000_000), 90, 120);
    a.update(&mut s, 500_000);
    assert_eq!(s.velocities.get(&a.id), Some(&Vec2::new(120 * UNIT, 0)));
    assert_eq!(s.positions.get(&a.id), Some(&Vec2::new(160_000_000, 100_000_000)));
}

#[test]
fn thrust_integrates_with_half_square_term() {
    let mut s = store();
    let ship = Entity::player_ship(&mut s);
    s.accelerations.insert(ship.id, Vec2::new(UNIT, 0));
    ship.update(&mut s, 1_000_000);
    assert_eq!(s.velocities.get(&ship.id), Some(&Vec2::new(1_000_000_000, 0)));
    assert_eq!(s.positions.get(&ship.id), Some(&Vec2::new(0, 300_000_000)));
    assert_eq!(s.accelerations.get(&ship.id), Some(&Vec2::new(0, 0)));
}

#[test]
fn wrap_past_right_edge() {
    let mut s = store();
    let a = Entity::asteroid_with(&mut s, Size::Small, Vec2::new(800_000_000, 300_000_000), 90, 1);
    a.update(&mut s, 1_000_000);
    assert_eq!(s.positions.get(&a.id), Some(&Vec2::new(0, 300_000_000)));
}

#[test]
fn wrap_past_left_edge() {
    let mut s = store();
    let a = Entity::asteroid_with(&mut s, Size::Small, Vec2::new(0, 300_000_000), 270, 1);
    a.update(&mut s, 1_000_000);
    assert_eq!(s.positions.get(&a.id), Some(&Vec2::new(800_000_000, 300_000_000)));
}

#[test]
fn wrap_on_vertical_axis() {
    let mut s = store();
    let down = Entity::asteroid_with(&mut s, Size::Small, Vec2::new(5, 600_000_000), 180, 1);
    let up = Entity::asteroid_with(&mut s, Size::Small, Vec2::new(5, 0), 0, 1);
    down.update(&mut s, 1_000_000);
    up.update(&mut s, 1_000_000);
    assert_eq!(s.positions.get(&down.id), Some(&Vec2::new(5, 0)));
    assert_eq!(s.positions.get(&up.id), Some(&Vec2::new(5, 600_000_000)));
}

#[test]
fn timers_count_down_and_go_negative() {
    let mut s = store();
    let ship = Entity::player_ship(&mut s);
    let shot = Entity::projectile(&mut s, Vec2::new(0, 0), 0);
    ship.update(&mut s, 300_000);
    shot.update(&mut s, 300_000);
    assert_eq!(s.weapon_cooldowns.get(&ship.id), Some(&-300_000));
    assert_eq!(s.lifetimes.get(&shot.id), Some(&450_000));
    assert_eq!(s.lifetimes.get(&ship.id), None);
}

use asteroids::collisions::find_collisions;
use asteroids::entity::{Entity, EntityState, Kind, Size};
use asteroids::geometry::{HeadingTable, Vec2, UNIT};

fn store() -> EntityState {
    let units = (0..360)
        .map(|d: i32| {
            let r = (d as f64).to_radians();
            Vec2::new((r.sin() * UNIT as f64).round() as i64, (-r.cos() * UNIT as f64).round() as i64)
        })
        .collect();
    EntityState::new(HeadingTable::new(units).unwrap())
}

#[test]
fn overlapping_pair_reported_both_ways() {
    let mut s = store();
    let a = Entity::asteroid_with(&mut s, Size::Large, Vec2::new(100_000_000, 100_000_000), 0, 100);
    let b = Entity::projectile(&mut s, Vec2::new(120_000_000, 100_000_000), 0);
    let found = find_collisions(&s, &[a, b]);
    assert_eq!(found.len(), 2);
    let ka = Kind::Asteroid(Size::Large);
    let kb = Kind::ProjectileFriendly;
    assert!(found.contains(&((a.id, ka), (b.id, kb))));
    assert!(found.contains(&((b.id, kb), (a.id, ka))));
    assert!(found.iter().all(|((x, _), (y, _))| x != y));
}

#[test]
fn radius_is_half_the_larger_extent() {
    let mut s = store();
    // Radii 25 px and 2.5 px: centres 27.4 px apart touch, 27.5 px apart do not.
    let a = Entity::asteroid_with(&mut s, Size::Large, Vec2::new(0, 0), 0, 100);
    let near = Entity::projectile(&mut s, Vec2::new(27_499_999, 0), 0);
    let far = Entity::projectile(&mut s, Vec2::new(0, 27_500_000), 0);
    let found = find_collisions(&s, &[a, near, far]);
    assert_eq!(found.len(), 2);
    assert!(found.iter().all(|((x, _), (y, _))| *x != far.id && *y != far.id));
}

#[test]
fn single_entity_never_collides_with_itself() {
    let mut s = store();
    let a = Entity::asteroid_with(&mut s, Size::Large, Vec2::new(0, 0), 0, 100);
    assert!(find_collisions(&s, &[a]).is_empty());
    assert!(find_collisions(&s, &[]).is_empty());
}

#[test]
fn three_way_overlap_gives_all_ordered_pairs() {
    let mut s = store();
    let p = Vec2::new(400_000_000, 300_000_000);
    let es = [
        Entity::player_ship(&mut s),
        Entity::medium_asteroid(&mut s, p),
        Entity::small_asteroid(&mut s, p),
    ];
    let found = find_collisions(&s, &es);
    assert_eq!(found.len(), 6);
    for ((a, _), (b, _)) in &found {
        assert!(found.iter().any(|((x, _), (y, _))| x == b && y == a));
    }
}

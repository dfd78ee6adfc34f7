//! The game: one session, its entity list and store, driven frame by frame.
use vstd::prelude::*;

use crate::collisions::{find_collisions, listed, reports, Contact};
use crate::entity::{
    countdown, model_of, next_position, next_velocity, saturate, scale_of, scaled, Entity,
    EntityState, Kind, Size, ASTEROID_MAX_SPEED, ASTEROID_MIN_SPEED, PROJECTILE_LIFETIME,
    PROJECTILE_SPEED,
};
use crate::geometry::{on_screen, HeadingTable, Vec2, DEGREES};
use crate::rules::{
    holds, resolve_collisions, resolve_prefix, spec_apply, HeldKeys, InputStatus, KeyTransitions, Session,
};

verus! {

/// Turn rate in degrees per frame.
pub const TURN_RATE: i64 = 5;

/// Weapon cooldown after a shot, in microseconds (0.2 s).
pub const FIRE_COOLDOWN: i64 = 200_000;

/// One draw call: where, at which heading and scale, and with which mesh.
#[derive(Clone, Copy, Debug)]
pub struct Sprite {
    pub position: Vec2,
    pub direction: i64,
    pub scale: Vec2,
    pub model: (u32, u32),
}

/// A running game.
pub struct Asteroids {
    pub should_continue: bool,
    pub session: Session,
    /// Live entities in spawn order; the player ship comes first.
    pub entities: Vec<Entity>,
    pub state: EntityState,
    /// Held status of the recognised keys.
    pub input: HeldKeys,
}

/// The sprite of live entity `id`.
pub open spec fn sprite_of(state: EntityState, id: u32) -> Sprite {
    Sprite {
        position: state.positions@[id],
        direction: state.directions@[id],
        scale: state.scales@[id],
        model: state.models@[id],
    }
}

/// The indicator of the `i`-th remaining life, in the top left corner.
pub open spec fn life_marker(i: int) -> Sprite {
    Sprite {
        position: Vec2 { x: (20_000_000 + 25_000_000 * i) as i64, y: 20_000_000 },
        direction: 0,
        scale: scale_of(Kind::PlayerShip),
        model: model_of(Kind::PlayerShip),
    }
}

/// Everything the renderer draws: each listed entity, then one marker per life.
pub open spec fn scene(game: Asteroids) -> Seq<Sprite> {
    Seq::new(game.entities@.len(), |i: int| sprite_of(game.state, game.entities@[i].id))
        + Seq::new(game.session.lives as nat, |i: int| life_marker(i))
}

/// `after` is `before` with one more entity `id` of `kind` and no control input.
pub open spec fn added_entity(after: EntityState, before: EntityState, id: u32, kind: Kind) -> bool {
    &&& id == before.entity_count
    &&& after.kinds@ == before.kinds@.insert(id, kind)
    &&& after.accelerations@ == before.accelerations@.insert(id, Vec2 { x: 0, y: 0 })
}

/// The size of the two fragments an entity breaks into, if any.
pub open spec fn fragment_size(kind: Kind) -> Option<Size> {
    match kind {
        Kind::Asteroid(Size::Large) => Some(Size::Medium),
        Kind::Asteroid(Size::Medium) => Some(Size::Small),
        _ => None,
    }
}

/// `after` is `before` with two fresh asteroids of `size` at `p`, the ids
/// of `children`, each with some heading and speed of its own.
pub open spec fn split_into(after: EntityState, before: EntityState, children: Seq<Entity>, size: Size, p: Vec2) -> bool {
    let c0 = children[0].id;
    let c1 = children[1].id;
    &&& children.len() == 2
    &&& c0 == before.entity_count
    &&& c1 == before.entity_count + 1
    &&& after.entity_count == before.entity_count + 2
    &&& after.headings == before.headings
    &&& after.kinds@ == before.kinds@.insert(c0, Kind::Asteroid(size)).insert(c1, Kind::Asteroid(size))
    &&& after.positions@ == before.positions@.insert(c0, p).insert(c1, p)
    &&& after.accelerations@ == before.accelerations@.insert(c0, Vec2 { x: 0, y: 0 }).insert(c1, Vec2 { x: 0, y: 0 })
    &&& after.velocities@ == before.velocities@.insert(c0, after.velocities@[c0]).insert(c1, after.velocities@[c1])
    &&& after.directions@ == before.directions@.insert(c0, after.directions@[c0]).insert(c1, after.directions@[c1])
    &&& after.models@ == before.models@.insert(c0, model_of(Kind::Asteroid(size))).insert(c1, model_of(Kind::Asteroid(size)))
    &&& after.scales@ == before.scales@.insert(c0, scale_of(Kind::Asteroid(size))).insert(c1, scale_of(Kind::Asteroid(size)))
    &&& after.lifetimes@ == before.lifetimes@
    &&& after.weapon_cooldowns@ == before.weapon_cooldowns@
    &&& after.launched(c0)
    &&& after.launched(c1)
}

/// A spawned asteroid is launched, and spawning keeps earlier launches.
proof fn lemma_spawn_launched(s1: EntityState, s0: EntityState, c: u32, size: Size)
    requires
        s0.wf(),
        s1.spawned_asteroid(s0, c, size, None),
    ensures
        s1.launched(c),
        forall|id: u32| #[trigger] s0.is_live(id) && s0.launched(id) ==> s1.launched(id),
{
    let (p0, d0, v0) = choose|q: Vec2, d: i64, s: u32| {
        &&& s1.spawned(s0, c, Kind::Asteroid(size), q, scaled(s0.headings.spec_heading(d as int), s as int), d)
        &&& on_screen(q)
        &&& 0 <= d < DEGREES
        &&& ASTEROID_MIN_SPEED <= s < ASTEROID_MAX_SPEED
    };
    assert(s1.velocities@[c] == scaled(s1.headings.spec_heading(d0 as int), v0 as int));
    assert forall|id: u32| #[trigger] s0.is_live(id) && s0.launched(id) implies s1.launched(id) by {
        let v = choose|v: u32|
            ASTEROID_MIN_SPEED <= v < ASTEROID_MAX_SPEED && s0.velocities@[id] == #[trigger] scaled(
                s0.headings.spec_heading(s0.directions@[id] as int),
                v as int,
            );
        assert(id != c);
        assert(s1.velocities@[id] == scaled(s1.headings.spec_heading(s1.directions@[id] as int), v as int));
    }
}

/// Two asteroids spawned one after the other are both launched.
proof fn lemma_fragment_launched(s2: EntityState, s1: EntityState, s0: EntityState, c0: u32, c1: u32, size: Size, p: Vec2)
    requires
        s1.spawned_asteroid(s0, c0, size, Some(p)),
        s2.spawned_asteroid(s1, c1, size, Some(p)),
    ensures
        s1.spawned_asteroid(s0, c0, size, Some(p)),
        s2.launched(c0),
        s2.launched(c1),
{
    let (p0, d0, v0) = choose|q: Vec2, d: i64, s: u32| {
        &&& s1.spawned(s0, c0, Kind::Asteroid(size), q, scaled(s0.headings.spec_heading(d as int), s as int), d)
        &&& on_screen(q)
        &&& 0 <= d < DEGREES
        &&& ASTEROID_MIN_SPEED <= s < ASTEROID_MAX_SPEED
    };
    let (p1, d1, v1) = choose|q: Vec2, d: i64, s: u32| {
        &&& s2.spawned(s1, c1, Kind::Asteroid(size), q, scaled(s1.headings.spec_heading(d as int), s as int), d)
        &&& on_screen(q)
        &&& 0 <= d < DEGREES
        &&& ASTEROID_MIN_SPEED <= s < ASTEROID_MAX_SPEED
    };
    assert(s2.directions@[c0] == d0);
    assert(s2.velocities@[c0] == scaled(s2.headings.spec_heading(d0 as int), v0 as int));
    assert(s2.velocities@[c1] == scaled(s2.headings.spec_heading(d1 as int), v1 as int));
}

/// Breaks a destroyed entity into fragments at its last position: a Large
/// asteroid into two Medium ones, a Medium one into two Small ones; a Small
/// asteroid, a projectile or the ship leaves none. The entity itself stays.
pub fn split(state: &mut EntityState, id: u32) -> (children: Vec<Entity>)
    requires
        old(state).wf(),
        old(state).is_live(id),
        old(state).entity_count < u32::MAX - 1,
    ensures
        final(state).wf(),
        match fragment_size(old(state).kinds@[id]) {
            Some(size) => split_into(*final(state), *old(state), children@, size, old(state).positions@[id]),
            None => children@.len() == 0 && *final(state) == *old(state),
        },
{
    let mut children: Vec<Entity> = Vec::new();
    let kind = match state.kinds.get(&id) {
        Some(k) => *k,
        None => Kind::PlayerShip,
    };
    let p = match state.positions.get(&id) {
        Some(p) => *p,
        None => Vec2::zero(),
    };
    let ghost s0 = *state;
    match kind {
        Kind::Asteroid(Size::Large) => {
            children.push(Entity::medium_asteroid(state, p));
            let ghost s1 = *state;
            children.push(Entity::medium_asteroid(state, p));
            proof {
                lemma_fragment_launched(*state, s1, s0, children@[0].id, children@[1].id, Size::Medium, p);
            }
        },
        Kind::Asteroid(Size::Medium) => {
            children.push(Entity::small_asteroid(state, p));
            let ghost s1 = *state;
            children.push(Entity::small_asteroid(state, p));
            proof {
                lemma_fragment_launched(*state, s1, s0, children@[0].id, children@[1].id, Size::Small, p);
            }
        },
        _ => {},
    }
    children
}

/// A heading after one frame of the held turn keys.
pub open spec fn turned(direction: i64, keys: HeldKeys) -> i64 {
    let left = if keys.turn_left is Down {
        saturate(direction - TURN_RATE)
    } else {
        direction
    };
    if keys.turn_right is Down {
        saturate(left + TURN_RATE)
    } else {
        left
    }
}

fn turn(direction: i64, delta: i64) -> (r: i64)
    ensures
        r == saturate(direction + delta),
{
    match direction.checked_add(delta) {
        Some(d) => d,
        None => if delta > 0 {
            i64::MAX
        } else {
            i64::MIN
        },
    }
}

/// A countdown timer column ticked at `id`.
pub open spec fn timer_ticked(after: Map<u32, i64>, before: Map<u32, i64>, id: u32, dt: u32) -> bool {
    &&& after.contains_key(id) == before.contains_key(id)
    &&& before.contains_key(id) ==> after[id] == countdown(before[id], dt)
}

/// A countdown timer column unchanged at `id`.
pub open spec fn timer_kept(after: Map<u32, i64>, before: Map<u32, i64>, id: u32) -> bool {
    &&& after.contains_key(id) == before.contains_key(id)
    &&& before.contains_key(id) ==> after[id] == before[id]
}

/// Live entity `id` advanced by `dt` microseconds from `before` to `after`.
pub open spec fn moved(after: EntityState, before: EntityState, id: u32, dt: u32) -> bool {
    let p = before.positions@[id];
    let v = before.velocities@[id];
    let a = before.accelerations@[id];
    &&& after.positions@[id] == next_position(p, v, a, dt)
    &&& after.velocities@[id] == next_velocity(v, a, dt)
    &&& after.accelerations@[id] == Vec2 { x: 0, y: 0 }
    &&& timer_ticked(after.lifetimes@, before.lifetimes@, id, dt)
    &&& timer_ticked(after.weapon_cooldowns@, before.weapon_cooldowns@, id, dt)
}

/// Live entity `id` unchanged from `before` to `after`.
pub open spec fn kept(after: EntityState, before: EntityState, id: u32) -> bool {
    &&& after.positions@[id] == before.positions@[id]
    &&& after.velocities@[id] == before.velocities@[id]
    &&& after.accelerations@[id] == before.accelerations@[id]
    &&& timer_kept(after.lifetimes@, before.lifetimes@, id)
    &&& timer_kept(after.weapon_cooldowns@, before.weapon_cooldowns@, id)
}

/// The columns that kinematics never touches are unchanged.
pub open spec fn same_shape(after: EntityState, before: EntityState) -> bool {
    &&& after.entity_count == before.entity_count
    &&& after.headings == before.headings
    &&& after.kinds@ == before.kinds@
    &&& after.directions@ == before.directions@
    &&& after.models@ == before.models@
    &&& after.scales@ == before.scales@
}

/// `kept` is a subsequence of `all`: each entry stands in `all` at its own
/// index or later.
pub open spec fn drawn_from(kept: Seq<Entity>, all: Seq<Entity>) -> bool {
    drawn_before(kept, all, all.len() as int)
}

/// Each entry of `kept` stands among the first `n` of `all`, at its own index or later.
pub open spec fn drawn_before(kept: Seq<Entity>, all: Seq<Entity>, n: int) -> bool {
    forall|k: int| 0 <= k < kept.len() ==> #[trigger] has_source(kept, all, n, k)
}

pub open spec fn has_source(kept: Seq<Entity>, all: Seq<Entity>, n: int, k: int) -> bool {
    exists|j: int| k <= j < n && all[j] == kept[k]
}

/// The entities whose id is not among `ids`, in their order.
pub open spec fn spared(entities: Seq<Entity>, ids: Seq<u32>) -> Seq<Entity> {
    entities.filter(|e: Entity| !ids.contains(e.id))
}

/// The listed entities whose ids are not in `ids`, in their order.
pub fn without(entities: &Vec<Entity>, ids: &Vec<u32>) -> (r: Vec<Entity>)
    ensures
        r@ == spared(entities@, ids@),
        drawn_from(r@, entities@),
        forall|k: int| 0 <= k < r@.len() ==> !ids@.contains(#[trigger] r@[k].id),
        forall|j: int| 0 <= j < entities@.len() && !ids@.contains(#[trigger] entities@[j].id)
            ==> listed(r@, entities@[j].id),
        entities@.len() > 0 && !ids@.contains(entities@[0].id) ==> r@.len() > 0 && r@[0] == entities@[0],
        (forall|i: int, j: int| 0 <= i < j < entities@.len() ==> #[trigger] entities@[i].id != #[trigger] entities@[j].id)
            ==> (forall|i: int, j: int| 0 <= i < j < r@.len() ==> #[trigger] r@[i].id != #[trigger] r@[j].id),
{
    let ghost es = entities@;
    let ghost pred = |e: Entity| !ids@.contains(e.id);
    let ghost distinct = forall|i: int, j: int| 0 <= i < j < es.len() ==> #[trigger] es[i].id != #[trigger] es[j].id;
    let mut r: Vec<Entity> = Vec::new();
    let mut i: usize = 0;
    while i < entities.len()
        invariant
            es == entities@,
            pred == (|e: Entity| !ids@.contains(e.id)),
            distinct == (forall|i: int, j: int| 0 <= i < j < es.len() ==> #[trigger] es[i].id != #[trigger] es[j].id),
            0 <= i <= es.len(),
            r@ == es.subrange(0, i as int).filter(pred),
            r@.len() <= i,
            drawn_before(r@, es, i as int),
            forall|k: int| 0 <= k < r@.len() ==> !ids@.contains(#[trigger] r@[k].id),
            forall|j: int| 0 <= j < i && !ids@.contains(#[trigger] es[j].id) ==> listed(r@, es[j].id),
            i > 0 && !ids@.contains(es[0].id) ==> r@.len() > 0 && r@[0] == es[0],
            distinct ==> (forall|a: int, b: int| 0 <= a < b < r@.len() ==> #[trigger] r@[a].id != #[trigger] r@[b].id),
        decreases es.len() - i,
    {
        let e = entities[i];
        let ghost before = r@;
        proof {
            let s1 = es.subrange(0, i + 1);
            assert(s1.drop_last() =~= es.subrange(0, i as int));
            assert(s1.last() == e);
            reveal(Seq::filter);
        }
        if !holds(ids, e.id) {
            r.push(e);
            proof {
                assert forall|k: int| 0 <= k < r@.len() implies #[trigger] has_source(r@, es, i + 1, k) by {
                    if k < before.len() {
                        assert(has_source(before, es, i as int, k));
                        let j = choose|j: int| k <= j < i && es[j] == before[k];
                        assert(k <= j < i + 1 && es[j] == r@[k]);
                    } else {
                        assert(k <= i < i + 1 && es[i as int] == r@[k]);
                    }
                }
                assert forall|j: int| 0 <= j < i + 1 && !ids@.contains(#[trigger] es[j].id) implies listed(r@, es[j].id) by {
                    if j < i {
                        let k = choose|k: int| 0 <= k < before.len() && (#[trigger] before[k]).id == es[j].id;
                        assert(r@[k] == before[k]);
                    } else {
                        assert(r@[before.len() as int] == e);
                    }
                }
                if distinct {
                    assert forall|a: int, b: int| 0 <= a < b < r@.len() implies #[trigger] r@[a].id != #[trigger] r@[b].id by {
                        if b == before.len() {
                            assert(has_source(before, es, i as int, a));
                            let j = choose|j: int| a <= j < i && es[j] == before[a];
                            assert(es[j].id != es[i as int].id);
                        } else {
                            assert(before[a].id != before[b].id);
                        }
                    }
                }
            }
        }
        else {
            proof {
                assert forall|k: int| 0 <= k < r@.len() implies #[trigger] has_source(r@, es, i + 1, k) by {
                    assert(has_source(r@, es, i as int, k));
                    let j = choose|j: int| k <= j < i && es[j] == r@[k];
                    assert(k <= j < i + 1 && es[j] == r@[k]);
                }
            }
        }
        i = i + 1;
    }
    proof {
        assert(es.subrange(0, es.len() as int) =~= es);
        assert(drawn_from(r@, es));
    }
    r
}

/// Live entity `id` holds the same attributes in `after` as in `before`.
pub open spec fn unchanged(after: EntityState, before: EntityState, id: u32) -> bool {
    &&& after.is_live(id)
    &&& after.kinds@[id] == before.kinds@[id]
    &&& after.positions@[id] == before.positions@[id]
    &&& after.velocities@[id] == before.velocities@[id]
    &&& after.accelerations@[id] == before.accelerations@[id]
    &&& after.directions@[id] == before.directions@[id]
    &&& after.models@[id] == before.models@[id]
    &&& after.scales@[id] == before.scales@[id]
    &&& timer_kept(after.lifetimes@, before.lifetimes@, id)
    &&& timer_kept(after.weapon_cooldowns@, before.weapon_cooldowns@, id)
}

/// `id` stands among the first `n` of `ids`.
pub open spec fn among(ids: Seq<u32>, n: int, id: u32) -> bool {
    exists|j: int| 0 <= j < n && #[trigger] ids[j] == id
}

/// Entity `id` of `after` is a fragment of one of the first `n` destroyed
/// entities: an asteroid one size down from it, at its last position.
pub open spec fn is_fragment(after: EntityState, before: EntityState, destroyed: Seq<u32>, n: int, id: u32) -> bool {
    exists|j: int|
        0 <= j < n && #[trigger] before.is_live(destroyed[j]) && after.kinds@[id] is Asteroid
            && fragment_size(before.kinds@[destroyed[j]]) == Some(after.kinds@[id]->Asteroid_0)
            && after.positions@[id] == before.positions@[destroyed[j]]
}

/// One of the first `n` destroyed ids is the live player ship.
pub open spec fn ship_destroyed(before: EntityState, destroyed: Seq<u32>, n: int) -> bool {
    exists|j: int| 0 <= j < n && #[trigger] before.is_live(destroyed[j]) && before.kinds@[destroyed[j]] is PlayerShip
}

/// Projectile `id` has run out of lifetime.
pub open spec fn expired(state: EntityState, id: u32) -> bool {
    state.lifetimes@.contains_key(id) && state.lifetimes@[id] <= 0
}

/// The effect of `spawn_wave` on the game.
pub open spec fn wave_spawned(after: Asteroids, before: Asteroids) -> bool {
    &&& after.should_continue
    &&& after.input == before.input
    &&& before.entities@.len() == 0 ==> {
        &&& after.session == before.session
        &&& before.state.entity_count < u32::MAX ==> {
            &&& after.entities@.len() == 1
            &&& after.state.kinds@[after.entities@[0].id] == Kind::PlayerShip
        }
    }
    &&& before.entities@.len() == 1 ==> {
        let wave = 3 * before.session.stage;
        let room = u32::MAX - before.state.entity_count;
        &&& after.session == (Session {
            stage: if before.session.stage == u32::MAX { u32::MAX } else { (before.session.stage + 1) as u32 },
            ..before.session
        })
        &&& after.entities@.len() == 1 + if wave <= room { wave } else { room }
        &&& after.entities@[0] == before.entities@[0]
        &&& forall|i: int| 1 <= i < after.entities@.len()
            ==> after.state.kinds@[#[trigger] after.entities@[i].id] == Kind::Asteroid(Size::Large)
                && after.state.launched(after.entities@[i].id)
    }
    &&& before.entities@.len() > 1 ==> after == before
    &&& after.entities@.len() >= before.entities@.len()
    &&& after.entities@.subrange(0, before.entities@.len() as int) == before.entities@
    &&& forall|id: u32| #[trigger] before.state.is_live(id) ==> unchanged(after.state, before.state, id)
}

/// The effect of `turn_and_thrust` on the game.
pub open spec fn steered(after: Asteroids, before: Asteroids) -> bool {
    &&& after.should_continue
    &&& after.session == before.session
    &&& after.input == before.input
    &&& after.entities == before.entities
    &&& ({
        let id = before.entities@[0].id;
        let d = turned(before.state.directions@[id], before.input);
        let thrust = if before.input.thrust is Down {
            before.state.headings.spec_heading(d as int)
        } else {
            Vec2 { x: 0, y: 0 }
        };
        &&& after.state.directions@ == before.state.directions@.insert(id, d)
        &&& after.state.accelerations@ == before.state.accelerations@.insert(id, thrust)
        &&& after.state.entity_count == before.state.entity_count
        &&& after.state.headings == before.state.headings
        &&& after.state.kinds@ == before.state.kinds@
        &&& after.state.positions@ == before.state.positions@
        &&& after.state.velocities@ == before.state.velocities@
        &&& after.state.models@ == before.state.models@
        &&& after.state.scales@ == before.state.scales@
        &&& after.state.lifetimes@ == before.state.lifetimes@
        &&& after.state.weapon_cooldowns@ == before.state.weapon_cooldowns@
    })
}

/// The effect of `fire` on the game; `fired` tells whether it fired.
pub open spec fn shot(after: Asteroids, before: Asteroids, fired: bool) -> bool {
    &&& after.should_continue
    &&& after.session == before.session
    &&& after.input == before.input
    &&& fired == before.can_fire()
    &&& !fired ==> after == before
    &&& fired ==> {
        let id = before.entities@[0].id;
        let shot = before.state.entity_count;
        let d = before.state.directions@[id];
        &&& after.entities@ == before.entities@.push(Entity { id: shot })
        &&& after.state.spawned_columns(
            before.state,
            shot,
            Kind::ProjectileFriendly,
            before.state.positions@[id],
            scaled(before.state.headings.spec_heading(d as int), PROJECTILE_SPEED as int),
            d,
        )
        &&& after.state.lifetimes@ == before.state.lifetimes@.insert(shot, PROJECTILE_LIFETIME)
        &&& after.state.weapon_cooldowns@ == before.state.weapon_cooldowns@.insert(id, FIRE_COOLDOWN)
    }
}

/// The effect of `advance` by `dt` microseconds on the game.
pub open spec fn advanced_all(after: Asteroids, before: Asteroids, dt: u32) -> bool {
    &&& after.should_continue == before.should_continue
    &&& after.session == before.session
    &&& after.input == before.input
    &&& after.entities == before.entities
    &&& same_shape(after.state, before.state)
    &&& forall|id: u32| #[trigger]
        before.state.is_live(id) ==> if listed(before.entities@, id) {
            moved(after.state, before.state, id, dt)
        } else {
            kept(after.state, before.state, id)
        }
}

/// The effect of `expire` on the game.
pub open spec fn expired_from(after: Asteroids, before: Asteroids) -> bool {
    &&& after.should_continue == before.should_continue
    &&& after.session == before.session
    &&& after.input == before.input
    &&& after.entities@ == before.entities@.filter(|e: Entity| !(listed(before.entities@, e.id) && expired(before.state, e.id)))
    &&& after.state.entity_count == before.state.entity_count
    &&& after.state.headings == before.state.headings
    &&& forall|id: u32| #[trigger] after.state.is_live(id) <==> (before.state.is_live(id) && !(listed(before.entities@, id) && expired(before.state, id)))
    &&& forall|id: u32| #[trigger] after.state.is_live(id) ==> unchanged(after.state, before.state, id)
}

/// The effect of `destroy` with these destroyed ids on the game.
pub open spec fn destroyed_from(after: Asteroids, before: Asteroids, destroyed: Seq<u32>) -> bool {
    &&& after.session == before.session
    &&& after.input == before.input
    &&& after.should_continue == (before.should_continue && !ship_destroyed(before.state, destroyed, destroyed.len() as int))
    &&& after.entities@.len() >= spared(before.entities@, destroyed).len()
    &&& after.entities@.subrange(0, spared(before.entities@, destroyed).len() as int) == spared(before.entities@, destroyed)
    &&& forall|i: int| spared(before.entities@, destroyed).len() <= i < after.entities@.len()
        ==> is_fragment(after.state, before.state, destroyed, destroyed.len() as int, #[trigger] after.entities@[i].id)
    &&& forall|id: u32| #[trigger] before.state.is_live(id) ==> (after.state.is_live(id) <==> !destroyed.contains(id))
    &&& forall|id: u32| #[trigger] before.state.is_live(id) && !destroyed.contains(id) ==> unchanged(after.state, before.state, id)
}

impl Asteroids {
    /// The store is consistent, the list holds distinct live ids, and while
    /// the game runs the player ship, and only it, stands first in the list.
    pub open spec fn structured(&self) -> bool {
        &&& self.state.wf()
        &&& forall|i: int|
            0 <= i < self.entities@.len() ==> self.state.is_live(#[trigger] self.entities@[i].id)
        &&& forall|i: int, j: int|
            0 <= i < j < self.entities@.len() ==> #[trigger] self.entities@[i].id
                != #[trigger] self.entities@[j].id
        &&& self.should_continue ==> self.player_first()
    }

    /// Structured, and the list names every live entity.
    pub open spec fn consistent(&self) -> bool {
        &&& self.structured()
        &&& forall|id: u32| #[trigger] self.state.is_live(id) ==> listed(self.entities@, id)
    }

    /// No listed entity has control input pending.
    pub open spec fn settled(&self) -> bool {
        forall|i: int|
            0 <= i < self.entities@.len() ==> self.state.accelerations@[#[trigger] self.entities@[i].id]
                == Vec2 { x: 0, y: 0 }
    }

    /// The state between two frames.
    pub open spec fn wf(&self) -> bool {
        &&& self.consistent()
        &&& self.settled()
    }

    /// Exactly the first listed entity is the player ship.
    pub open spec fn player_first(&self) -> bool {
        forall|i: int|
            0 <= i < self.entities@.len() ==> (self.state.kinds@[#[trigger] self.entities@[i].id]
                is PlayerShip <==> i == 0)
    }

    /// A new game at stage one with three lives and nothing spawned yet.
    pub fn new(headings: HeadingTable) -> (r: Asteroids)
        requires
            headings.wf(),
        ensures
            r.wf(),
            r.should_continue,
            r.session == Session::new_spec(),
            r.entities@.len() == 0,
            r.state.entity_count == 0,
            r.state.headings == headings,
            r.input == HeldKeys::up_spec(),
    {
        Asteroids {
            should_continue: true,
            session: Session::new(),
            entities: Vec::new(),
            state: EntityState::new(headings),
            input: HeldKeys::new(),
        }
    }

    pub fn should_continue(&self) -> (r: bool)
        ensures
            r == self.should_continue,
    {
        self.should_continue
    }

    /// Appends a fresh entity to the list; the ship only to an empty list.
    proof fn lemma_append(before: Asteroids, after: Asteroids, e: Entity, kind: Kind)
        requires
            before.consistent(),
            after.state.wf(),
            added_entity(after.state, before.state, e.id, kind),
            after.entities@ == before.entities@.push(e),
            after.should_continue == before.should_continue,
            kind is PlayerShip <==> before.entities@.len() == 0,
        ensures
            after.consistent(),
            before.settled() ==> after.settled(),
    {
        assert forall|i: int| 0 <= i < after.entities@.len() implies after.state.is_live(
            #[trigger] after.entities@[i].id,
        ) by {
            if i < before.entities@.len() {
                assert(before.state.is_live(before.entities@[i].id));
            }
        }
        assert forall|i: int, j: int|
            0 <= i < j < after.entities@.len() implies #[trigger] after.entities@[i].id
                != #[trigger] after.entities@[j].id by {
            if j < before.entities@.len() {
                assert(before.entities@[i].id != before.entities@[j].id);
            } else {
                assert(before.state.is_live(before.entities@[i].id));
            }
        }
        assert forall|id: u32| #[trigger] after.state.is_live(id) implies listed(after.entities@, id) by {
            if id == e.id {
                assert(after.entities@[before.entities@.len() as int] == e);
            } else {
                assert(before.state.is_live(id));
                let k = choose|k: int| 0 <= k < before.entities@.len() && (#[trigger] before.entities@[k]).id == id;
                assert(after.entities@[k] == before.entities@[k]);
            }
        }
        if before.settled() {
            assert forall|i: int| 0 <= i < after.entities@.len() implies after.state.accelerations@[
                #[trigger] after.entities@[i].id] == (Vec2 { x: 0, y: 0 }) by {
                if i < before.entities@.len() {
                    assert(before.entities@[i] == after.entities@[i]);
                    assert(before.state.is_live(before.entities@[i].id));
                }
            }
        }
        if after.should_continue {
            assert forall|i: int| 0 <= i < after.entities@.len() implies (after.state.kinds@[
                #[trigger] after.entities@[i].id] is PlayerShip <==> i == 0) by {
                if i < before.entities@.len() {
                    assert(before.state.is_live(before.entities@[i].id));
                    assert(before.entities@[i] == after.entities@[i]);
                    assert(before.state.kinds@[before.entities@[i].id] is PlayerShip <==> i == 0);
                }
            }
        }
    }

    /// Starts the game and its waves: an empty list gets the player ship; a
    /// list holding only the ship gets `3 * stage` Large asteroids and the
    /// stage advances. Spawning stops early once the ids run out.
    pub fn spawn_wave(&mut self)
        requires
            old(self).wf(),
            old(self).should_continue,
        ensures
            final(self).wf(),
            wave_spawned(*final(self), *old(self)),
    {
        if self.entities.len() == 0 {
            if self.state.entity_count < u32::MAX {
                let ghost before = *self;
                let e = Entity::player_ship(&mut self.state);
                self.entities.push(e);
                proof {
                    Asteroids::lemma_append(before, *self, e, Kind::PlayerShip);
                }
            }
            assert(self.entities@.subrange(0, 0) =~= old(self).entities@);
            assert forall|id: u32| #[trigger] old(self).state.is_live(id) implies unchanged(self.state, old(self).state, id) by {
                assert(listed(old(self).entities@, id));
            }
        } else if self.entities.len() == 1 {
            let wave: u64 = 3 * (self.session.stage as u64);
            let mut k: u64 = 0;
            while k < wave && self.state.entity_count < u32::MAX
                invariant
                    self.wf(),
                    self.should_continue,
                    self.session == old(self).session,
                    self.input == old(self).input,
                    wave == 3 * old(self).session.stage,
                    0 <= k <= wave,
                    self.state.entity_count == old(self).state.entity_count + k,
                    self.entities@.len() == 1 + k,
                    self.entities@[0] == old(self).entities@[0],
                    forall|i: int| 1 <= i < self.entities@.len()
                        ==> self.state.kinds@[#[trigger] self.entities@[i].id] == Kind::Asteroid(Size::Large)
                            && self.state.launched(self.entities@[i].id),
                    forall|id: u32| #[trigger] old(self).state.is_live(id) ==> unchanged(self.state, old(self).state, id),
                decreases wave - k,
            {
                let ghost before = *self;
                let e = Entity::large_asteroid(&mut self.state);
                self.entities.push(e);
                proof {
                    Asteroids::lemma_append(before, *self, e, Kind::Asteroid(Size::Large));
                    lemma_spawn_launched(self.state, before.state, e.id, Size::Large);
                    assert forall|i: int| 1 <= i < self.entities@.len()
                        implies self.state.kinds@[#[trigger] self.entities@[i].id] == Kind::Asteroid(Size::Large)
                            && self.state.launched(self.entities@[i].id) by {
                        if i < before.entities@.len() {
                            assert(before.state.is_live(before.entities@[i].id));
                            assert(before.entities@[i] == self.entities@[i]);
                        }
                    }
                }
                k = k + 1;
            }
            self.session.stage = self.session.stage.saturating_add(1);
            assert(self.entities@.subrange(0, 1) =~= old(self).entities@);
        } else {
            assert(self.entities@.subrange(0, self.entities@.len() as int) =~= self.entities@);
        }
    }

    /// Turns the player ship by 5 degrees for each held turn key, then, while
    /// thrust is held, sets its control input along the new heading.
    pub fn turn_and_thrust(&mut self)
        requires
            old(self).wf(),
            old(self).should_continue,
            old(self).entities@.len() > 0,
        ensures
            final(self).consistent(),
            steered(*final(self), *old(self)),
    {
        let id = self.entities[0].id;
        assert(self.state.is_live(self.entities@[0].id));
        let mut d = match self.state.directions.get(&id) {
            Some(d) => *d,
            None => 0,
        };
        if let InputStatus::Down = self.input.turn_left {
            d = turn(d, -TURN_RATE);
        }
        if let InputStatus::Down = self.input.turn_right {
            d = turn(d, TURN_RATE);
        }
        self.state.directions.insert(id, d);
        if let InputStatus::Down = self.input.thrust {
            let h = self.state.headings.heading(d);
            let a = match self.state.accelerations.get(&id) {
                Some(a) => *a,
                None => Vec2::zero(),
            };
            self.state.accelerations.insert(id, Vec2::new(a.x + h.x, a.y + h.y));
        } else {
            assert(old(self).state.accelerations@[old(self).entities@[0].id] == (Vec2 { x: 0, y: 0 }));
            assert(self.state.accelerations@ =~= old(self).state.accelerations@.insert(id, Vec2 { x: 0, y: 0 }));
        }
        assert(self.state.directions@.dom() =~= self.state.kinds@.dom());
        assert(self.state.accelerations@.dom() =~= self.state.kinds@.dom());
        assert forall|x: u32| #[trigger] self.state.is_live(x) implies listed(self.entities@, x) by {
            assert(old(self).state.is_live(x));
        }
    }

    /// The weapon fires this frame: fire is held, the player ship's cooldown
    /// has run out, and an id is left for the projectile.
    pub open spec fn can_fire(&self) -> bool {
        &&& self.input.fire is Down
        &&& self.state.weapon_cooldowns@[self.entities@[0].id] <= 0
        &&& self.state.entity_count < u32::MAX
    }

    /// Launches a projectile from the player ship's position along its heading
    /// and restarts the cooldown, if the weapon can fire; returns whether it did.
    pub fn fire(&mut self) -> (fired: bool)
        requires
            old(self).consistent(),
            old(self).should_continue,
            old(self).entities@.len() > 0,
        ensures
            final(self).consistent(),
            shot(*final(self), *old(self), fired),
    {
        let id = self.entities[0].id;
        assert(self.state.is_live(self.entities@[0].id));
        let cooldown = match self.state.weapon_cooldowns.get(&id) {
            Some(c) => *c,
            None => 1,
        };
        let held = match self.input.fire {
            InputStatus::Down => true,
            InputStatus::Up => false,
        };
        if held && cooldown <= 0 && self.state.entity_count < u32::MAX {
            let ghost before = *self;
            let p = match self.state.positions.get(&id) {
                Some(p) => *p,
                None => Vec2::zero(),
            };
            let d = match self.state.directions.get(&id) {
                Some(d) => *d,
                None => 0,
            };
            let e = Entity::projectile(&mut self.state, p, d);
            self.entities.push(e);
            self.state.weapon_cooldowns.insert(id, FIRE_COOLDOWN);
            proof {
                Asteroids::lemma_append(before, *self, e, Kind::ProjectileFriendly);
            }
            true
        } else {
            false
        }
    }

    /// Advances every listed entity by `dt` microseconds.
    pub fn advance(&mut self, dt: u32)
        requires
            old(self).consistent(),
        ensures
            final(self).consistent(),
            final(self).settled(),
            advanced_all(*final(self), *old(self), dt),
    {
        let ghost start = self.state;
        let mut i: usize = 0;
        while i < self.entities.len()
            invariant
                self.consistent(),
                self.should_continue == old(self).should_continue,
                self.session == old(self).session,
                self.input == old(self).input,
                self.entities == old(self).entities,
                start == old(self).state,
                same_shape(self.state, start),
                0 <= i <= self.entities@.len(),
                forall|k: int| 0 <= k < i ==> moved(self.state, start, #[trigger] self.entities@[k].id, dt),
                forall|k: int| i <= k < self.entities@.len() ==> kept(self.state, start, #[trigger] self.entities@[k].id),
                forall|id: u32| #[trigger] start.is_live(id) && !listed(self.entities@, id) ==> kept(self.state, start, id),
            decreases self.entities@.len() - i,
        {
            let e = self.entities[i];
            assert(self.state.is_live(self.entities@[i as int].id));
            let ghost before = self.state;
            e.update(&mut self.state, dt);
            proof {
                assert forall|k: int| 0 <= k < i + 1 implies moved(self.state, start, #[trigger] self.entities@[k].id, dt) by {
                    if k < i {
                        assert(self.entities@[k].id != e.id);
                    }
                }
                assert forall|k: int| i + 1 <= k < self.entities@.len() implies kept(self.state, start, #[trigger] self.entities@[k].id) by {
                    assert(self.entities@[k].id != e.id);
                }
                assert forall|x: u32| #[trigger] self.state.is_live(x) implies listed(self.entities@, x) by {
                    assert(before.is_live(x));
                }
                assert forall|id: u32| #[trigger] start.is_live(id) && !listed(self.entities@, id) implies kept(self.state, start, id) by {
                    if id == e.id {
                        assert(self.entities@[i as int] == e);
                    }
                }
            }
            i = i + 1;
        }
        proof {
            assert forall|id: u32| #[trigger] start.is_live(id) implies if listed(self.entities@, id) {
                moved(self.state, start, id, dt)
            } else {
                kept(self.state, start, id)
            } by {
                if listed(self.entities@, id) {
                    let k = choose|k: int| 0 <= k < self.entities@.len() && (#[trigger] self.entities@[k]).id == id;
                    assert(moved(self.state, start, self.entities@[k].id, dt));
                }
            }
        }
    }

    /// The listed entities whose lifetime has run out.
    pub fn expired_ids(&self) -> (r: Vec<u32>)
        requires
            self.consistent(),
        ensures
            forall|id: u32| #[trigger] r@.contains(id) <==> (listed(self.entities@, id) && expired(self.state, id)),
    {
        let mut r: Vec<u32> = Vec::new();
        let mut i: usize = 0;
        while i < self.entities.len()
            invariant
                self.consistent(),
                0 <= i <= self.entities@.len(),
                forall|j: int| 0 <= j < r@.len() ==> listed(self.entities@, #[trigger] r@[j]) && expired(self.state, r@[j]),
                forall|k: int| 0 <= k < i && expired(self.state, #[trigger] self.entities@[k].id) ==> r@.contains(self.entities@[k].id),
            decreases self.entities@.len() - i,
        {
            let id = self.entities[i].id;
            let dead = match self.state.lifetimes.get(&id) {
                Some(t) => *t <= 0,
                None => false,
            };
            let ghost before = r@;
            if dead {
                r.push(id);
                proof {
                    assert(r@[before.len() as int] == id);
                    assert(self.entities@[i as int].id == id);
                    assert forall|k: int| 0 <= k < i + 1 && expired(self.state, #[trigger] self.entities@[k].id) implies r@.contains(self.entities@[k].id) by {
                        if k < i {
                            let j = choose|j: int| 0 <= j < before.len() && #[trigger] before[j] == self.entities@[k].id;
                            assert(r@[j] == before[j]);
                        }
                    }
                }
            }
            i = i + 1;
        }
        proof {
            assert forall|id: u32| #[trigger] r@.contains(id) <==> (listed(self.entities@, id) && expired(self.state, id)) by {
                if r@.contains(id) {
                    let j = choose|j: int| 0 <= j < r@.len() && #[trigger] r@[j] == id;
                }
                if listed(self.entities@, id) && expired(self.state, id) {
                    let k = choose|k: int| 0 <= k < self.entities@.len() && (#[trigger] self.entities@[k]).id == id;
                }
            }
        }
        r
    }

    /// Deletes the given ids from the store; the list must not hold them.
    fn remove_all(&mut self, ids: &Vec<u32>)
        requires
            old(self).structured(),
            forall|id: u32| #[trigger] old(self).state.is_live(id) ==> listed(old(self).entities@, id) || ids@.contains(id),
            forall|k: int| 0 <= k < old(self).entities@.len() ==> !ids@.contains(#[trigger] old(self).entities@[k].id),
        ensures
            final(self).consistent(),
            final(self).should_continue == old(self).should_continue,
            final(self).session == old(self).session,
            final(self).input == old(self).input,
            final(self).entities == old(self).entities,
            final(self).state.entity_count == old(self).state.entity_count,
            final(self).state.headings == old(self).state.headings,
            forall|id: u32| #[trigger] final(self).state.is_live(id) <==> (old(self).state.is_live(id) && !ids@.contains(id)),
            forall|id: u32| #[trigger] final(self).state.is_live(id) ==> unchanged(final(self).state, old(self).state, id),
    {
        let ghost start = self.state;
        let mut k: usize = 0;
        while k < ids.len()
            invariant
                self.structured(),
                forall|id: u32| #[trigger] start.is_live(id) ==> listed(self.entities@, id) || ids@.contains(id),
                self.should_continue == old(self).should_continue,
                self.session == old(self).session,
                self.input == old(self).input,
                self.entities == old(self).entities,
                start == old(self).state,
                self.state.entity_count == start.entity_count,
                self.state.headings == start.headings,
                forall|j: int| 0 <= j < self.entities@.len() ==> !ids@.contains(#[trigger] self.entities@[j].id),
                0 <= k <= ids@.len(),
                forall|id: u32| #[trigger] self.state.is_live(id) <==> (start.is_live(id) && !among(ids@, k as int, id)),
                forall|id: u32| #[trigger] self.state.is_live(id) ==> unchanged(self.state, start, id),
            decreases ids@.len() - k,
        {
            let id = ids[k];
            let ghost prev = self.state;
            self.state.remove(id);
            proof {
                assert(ids@[k as int] == id);
                assert(among(ids@, k + 1, id));
                assert forall|x: u32| #[trigger] self.state.is_live(x) <==> (start.is_live(x) && !among(ids@, k + 1, x)) by {
                    if among(ids@, k as int, x) {
                        let j = choose|j: int| 0 <= j < k && #[trigger] ids@[j] == x;
                        assert(0 <= j < k + 1 && ids@[j] == x);
                        assert(among(ids@, k + 1, x));
                    }
                    if among(ids@, k + 1, x) && x != id {
                        let j = choose|j: int| 0 <= j < k + 1 && #[trigger] ids@[j] == x;
                        assert(0 <= j < k && ids@[j] == x);
                        assert(among(ids@, k as int, x));
                    }
                    if self.state.is_live(x) {
                        assert(prev.is_live(x));
                    }
                    if start.is_live(x) && !among(ids@, k + 1, x) {
                        assert(prev.is_live(x));
                    }
                }
                assert forall|x: u32| #[trigger] self.state.is_live(x) implies unchanged(self.state, start, x) by {
                    assert(prev.is_live(x));
                }
                assert forall|j: int| 0 <= j < self.entities@.len() implies self.state.is_live(#[trigger] self.entities@[j].id) by {
                    assert(ids@[k as int] == id);
                    assert(ids@.contains(id));
                    assert(prev.is_live(self.entities@[j].id));
                }
            }
            k = k + 1;
        }
        proof {
            assert forall|x: u32| among(ids@, ids@.len() as int, x) <==> #[trigger] ids@.contains(x) by {
                if ids@.contains(x) {
                    let j = choose|j: int| 0 <= j < ids@.len() && ids@[j] == x;
                    assert(among(ids@, ids@.len() as int, x));
                }
            }
            assert forall|x: u32| #[trigger] self.state.is_live(x) implies listed(self.entities@, x) by {
                assert(start.is_live(x));
                assert(!among(ids@, ids@.len() as int, x));
            }
        }
    }

    /// Removes the listed projectiles whose lifetime has run out, from the
    /// list and from the store.
    pub fn expire(&mut self)
        requires
            old(self).consistent(),
        ensures
            final(self).consistent(),
            old(self).settled() ==> final(self).settled(),
            expired_from(*final(self), *old(self)),
    {
        let ghost before = *self;
        let dead = self.expired_ids();
        let kept = without(&self.entities, &dead);
        self.entities = kept;
        assert(self.entities@ == before.entities@.filter(|e: Entity| !dead@.contains(e.id)));
        assert((|e: Entity| !dead@.contains(e.id)) =~= (|e: Entity| !(listed(before.entities@, e.id) && expired(before.state, e.id))));
        proof {
            assert forall|k: int| 0 <= k < self.entities@.len() implies self.state.is_live(#[trigger] self.entities@[k].id) by {
                assert(has_source(self.entities@, before.entities@, before.entities@.len() as int, k));
                    let j = choose|j: int| k <= j < before.entities@.len() && before.entities@[j] == self.entities@[k];
                assert(before.state.is_live(before.entities@[j].id));
            }
            if self.should_continue {
                assert(before.player_first());
                assert forall|k: int| 0 <= k < self.entities@.len() implies (self.state.kinds@[#[trigger] self.entities@[k].id] is PlayerShip <==> k == 0) by {
                    assert(has_source(self.entities@, before.entities@, before.entities@.len() as int, k));
                    let j = choose|j: int| k <= j < before.entities@.len() && before.entities@[j] == self.entities@[k];
                    assert(before.state.kinds@[before.entities@[j].id] is PlayerShip <==> j == 0);
                    if k == 0 {
                        assert(before.state.is_live(before.entities@[0].id));
                        assert(!dead@.contains(before.entities@[0].id));
                    }
                }
            }
        }
        proof {
            assert forall|x: u32| #[trigger] self.state.is_live(x) implies listed(self.entities@, x) || dead@.contains(x) by {
                if !dead@.contains(x) {
                    assert(listed(before.entities@, x));
                    let j = choose|j: int| 0 <= j < before.entities@.len() && (#[trigger] before.entities@[j]).id == x;
                    assert(!dead@.contains(before.entities@[j].id));
                }
            }
        }
        self.remove_all(&dead);
        proof {
            if before.settled() {
                assert forall|k: int| 0 <= k < self.entities@.len() implies self.state.accelerations@[#[trigger] self.entities@[k].id] == (Vec2 { x: 0, y: 0 }) by {
                    assert(has_source(self.entities@, before.entities@, before.entities@.len() as int, k));
                    let j = choose|j: int| k <= j < before.entities@.len() && before.entities@[j] == self.entities@[k];
                    assert(self.state.is_live(self.entities@[k].id));
                    assert(unchanged(self.state, before.state, self.entities@[k].id));
                }
            }
        }
    }

    /// Removes the destroyed entities from the list and the store. Each
    /// destroyed asteroid first leaves its fragments, appended to the list;
    /// a destroyed player ship ends the game. Ids that are not live are
    /// ignored.
    pub fn destroy(&mut self, destroyed: &Vec<u32>)
        requires
            old(self).consistent(),
        ensures
            final(self).consistent(),
            old(self).settled() ==> final(self).settled(),
            destroyed_from(*final(self), *old(self), destroyed@),
    {
        let ghost before = *self;
        let first_new = self.state.entity_count;
        let kept = without(&self.entities, destroyed);
        self.entities = kept;
        let ghost m = kept@.len() as int;
        proof {
            assert forall|k: int| 0 <= k < self.entities@.len() implies self.state.is_live(#[trigger] self.entities@[k].id) by {
                assert(has_source(self.entities@, before.entities@, before.entities@.len() as int, k));
                let j = choose|j: int| k <= j < before.entities@.len() && before.entities@[j] == self.entities@[k];
                assert(before.state.is_live(before.entities@[j].id));
            }
        }
        let mut k: usize = 0;
        while k < destroyed.len()
            invariant
                before.consistent(),
                drawn_from(spared(before.entities@, destroyed@), before.entities@),
                before.entities@.len() > 0 && !destroyed@.contains(before.entities@[0].id)
                    ==> m > 0 && spared(before.entities@, destroyed@)[0] == before.entities@[0],
                forall|j: int| 0 <= j < before.entities@.len() && !destroyed@.contains(#[trigger] before.entities@[j].id)
                    ==> listed(spared(before.entities@, destroyed@), before.entities@[j].id),
                self.state.wf(),
                self.session == before.session,
                self.input == before.input,
                self.state.entity_count >= first_new,
                first_new == before.state.entity_count,
                self.state.headings == before.state.headings,
                0 <= k <= destroyed@.len(),
                m == spared(before.entities@, destroyed@).len(),
                self.entities@.len() >= m,
                self.entities@.subrange(0, m) == spared(before.entities@, destroyed@),
                forall|i: int| 0 <= i < self.entities@.len() ==> self.state.is_live(#[trigger] self.entities@[i].id),
                forall|i: int, j: int| 0 <= i < j < self.entities@.len() ==> #[trigger] self.entities@[i].id != #[trigger] self.entities@[j].id,
                forall|i: int| 0 <= i < m ==> !destroyed@.contains(#[trigger] self.entities@[i].id) && before.state.is_live(self.entities@[i].id),
                forall|i: int| m <= i < self.entities@.len() ==> (#[trigger] self.entities@[i].id) >= first_new
                    && is_fragment(self.state, before.state, destroyed@, k as int, self.entities@[i].id),
                forall|id: u32| #[trigger] self.state.is_live(id) && id >= first_new ==> self.state.accelerations@[id] == (Vec2 { x: 0, y: 0 }),
                forall|id: u32| #[trigger] self.state.is_live(id) && id >= first_new ==> listed(self.entities@, id),
                forall|id: u32| #[trigger] before.state.is_live(id) ==> (self.state.is_live(id) <==> !among(destroyed@, k as int, id)),
                forall|id: u32| #[trigger] self.state.is_live(id) && id < first_new ==> before.state.is_live(id) && unchanged(self.state, before.state, id),
                self.should_continue == (before.should_continue && !ship_destroyed(before.state, destroyed@, k as int)),
            decreases destroyed@.len() - k,
        {
            let d = destroyed[k];
            let ghost prev = *self;
            if d < first_new && self.state.kinds.contains_key(&d) {
                assert(self.state.is_live(d));
                let kind = match self.state.kinds.get(&d) {
                    Some(kind) => *kind,
                    None => Kind::PlayerShip,
                };
                if self.state.entity_count < u32::MAX - 1 {
                    let children = split(&mut self.state, d);
                    let ghost mid = *self;
                    let mut c: usize = 0;
                    while c < children.len()
                        invariant
                            children@.len() == 0 || children@.len() == 2,
                            self.state == mid.state,
                            self.session == mid.session,
                            self.input == mid.input,
                            self.should_continue == mid.should_continue,
                            self.entities@ == mid.entities@ + children@.subrange(0, c as int),
                            0 <= c <= children@.len(),
                        decreases children@.len() - c,
                    {
                        self.entities.push(children[c]);
                        c = c + 1;
                        assert(self.entities@ =~= mid.entities@ + children@.subrange(0, c as int));
                    }
                    assert(children@.subrange(0, children@.len() as int) =~= children@);
                }
                if let Kind::PlayerShip = kind {
                    self.should_continue = false;
                }
                self.state.remove(d);
            }
            proof {
                let prev_ids = prev.entities@;
                assert(destroyed@[k as int] == d);
                assert(among(destroyed@, k + 1, d));
                assert forall|i: int| 0 <= i < self.entities@.len() implies #[trigger] self.entities@[i].id >= prev.state.entity_count
                    || (i < prev_ids.len() && self.entities@[i] == prev_ids[i]) by {
                }
                assert(self.entities@.subrange(0, m) =~= prev_ids.subrange(0, m));
                assert forall|id: u32| #[trigger] before.state.is_live(id) implies (self.state.is_live(id) <==> !among(destroyed@, k + 1, id)) by {
                    assert(id < first_new);
                    if among(destroyed@, k as int, id) {
                        let j = choose|j: int| 0 <= j < k && #[trigger] destroyed@[j] == id;
                        assert(0 <= j < k + 1 && destroyed@[j] == id);
                    }
                    if among(destroyed@, k + 1, id) && id != d {
                        let j = choose|j: int| 0 <= j < k + 1 && #[trigger] destroyed@[j] == id;
                        assert(0 <= j < k && destroyed@[j] == id);
                    }
                    assert(prev.state.is_live(id) <==> !among(destroyed@, k as int, id));
                }
                assert forall|id: u32| #[trigger] self.state.is_live(id) && id < first_new implies before.state.is_live(id) && unchanged(self.state, before.state, id) by {
                    assert(prev.state.is_live(id));
                }
                assert forall|id: u32| #[trigger] self.state.is_live(id) && id >= first_new implies listed(self.entities@, id) by {
                    if id < prev.state.entity_count {
                        assert(prev.state.is_live(id));
                        let q = choose|q: int| 0 <= q < prev_ids.len() && (#[trigger] prev_ids[q]).id == id;
                        assert(self.entities@[q] == prev_ids[q]);
                    } else {
                        let c0 = prev_ids.len() as int;
                        assert(self.entities@[c0].id == id || self.entities@[c0 + 1].id == id);
                    }
                }
                assert forall|id: u32| #[trigger] self.state.is_live(id) && id >= first_new implies self.state.accelerations@[id] == (Vec2 { x: 0, y: 0 }) by {
                    if id < prev.state.entity_count {
                        assert(prev.state.is_live(id));
                    }
                }
                assert forall|i: int| 0 <= i < m implies !destroyed@.contains(#[trigger] self.entities@[i].id) && before.state.is_live(self.entities@[i].id) by {
                    assert(self.entities@[i] == prev_ids[i]);
                }
                assert forall|i: int| 0 <= i < self.entities@.len() implies self.state.is_live(#[trigger] self.entities@[i].id) by {
                    if i < prev_ids.len() {
                        assert(self.entities@[i] == prev_ids[i]);
                        assert(prev.state.is_live(prev_ids[i].id));
                        if i < m {
                            assert(destroyed@.contains(d));
                        }
                    }
                }
                assert forall|i: int, j: int| 0 <= i < j < self.entities@.len() implies #[trigger] self.entities@[i].id != #[trigger] self.entities@[j].id by {
                    if j < prev_ids.len() {
                        assert(self.entities@[i] == prev_ids[i]);
                        assert(self.entities@[j] == prev_ids[j]);
                    } else if i < prev_ids.len() {
                        assert(self.entities@[i] == prev_ids[i]);
                        assert(prev.state.is_live(prev_ids[i].id));
                    }
                }
                assert forall|i: int| m <= i < self.entities@.len() implies (#[trigger] self.entities@[i].id) >= first_new
                    && is_fragment(self.state, before.state, destroyed@, k + 1, self.entities@[i].id) by {
                    let id = self.entities@[i].id;
                    if i < prev_ids.len() {
                        assert(self.entities@[i] == prev_ids[i]);
                        assert(is_fragment(prev.state, before.state, destroyed@, k as int, id));
                        let j = choose|j: int|
                            0 <= j < k && #[trigger] before.state.is_live(destroyed@[j]) && prev.state.kinds@[id] is Asteroid
                                && fragment_size(before.state.kinds@[destroyed@[j]]) == Some(prev.state.kinds@[id]->Asteroid_0)
                                && prev.state.positions@[id] == before.state.positions@[destroyed@[j]];
                        assert(prev.state.is_live(id));
                        assert(0 <= j < k + 1 && before.state.is_live(destroyed@[j]));
                    } else {
                        assert(before.state.is_live(d));
                        assert(0 <= k < k + 1 && before.state.is_live(destroyed@[k as int]));
                    }
                }
                if ship_destroyed(before.state, destroyed@, k + 1) && !ship_destroyed(before.state, destroyed@, k as int) {
                    let j = choose|j: int| 0 <= j < k + 1 && #[trigger] before.state.is_live(destroyed@[j]) && before.state.kinds@[destroyed@[j]] is PlayerShip;
                    assert(j == k);
                    assert(prev.state.is_live(d));
                }
                if ship_destroyed(before.state, destroyed@, k as int) {
                    let j = choose|j: int| 0 <= j < k && #[trigger] before.state.is_live(destroyed@[j]) && before.state.kinds@[destroyed@[j]] is PlayerShip;
                    assert(0 <= j < k + 1);
                }
            }
            k = k + 1;
        }
        proof {
            assert forall|x: u32| among(destroyed@, destroyed@.len() as int, x) <==> #[trigger] destroyed@.contains(x) by {
                if destroyed@.contains(x) {
                    let j = choose|j: int| 0 <= j < destroyed@.len() && destroyed@[j] == x;
                    assert(among(destroyed@, destroyed@.len() as int, x));
                }
            }
            assert forall|id: u32| #[trigger] before.state.is_live(id) && !destroyed@.contains(id) implies unchanged(self.state, before.state, id) by {
                assert(id < first_new);
            }
            assert forall|id: u32| #[trigger] self.state.is_live(id) implies listed(self.entities@, id) by {
                if id < first_new {
                    assert(before.state.is_live(id));
                    assert(!destroyed@.contains(id));
                    let sp = spared(before.entities@, destroyed@);
                    let q = choose|q: int| 0 <= q < before.entities@.len() && (#[trigger] before.entities@[q]).id == id;
                    assert(listed(sp, before.entities@[q].id));
                    let r = choose|r: int| 0 <= r < sp.len() && (#[trigger] sp[r]).id == id;
                    assert(self.entities@.subrange(0, m)[r] == self.entities@[r]);
                }
            }
            if self.should_continue {
                assert(before.player_first());
                assert forall|i: int| 0 <= i < self.entities@.len() implies (self.state.kinds@[#[trigger] self.entities@[i].id] is PlayerShip <==> i == 0) by {
                    let id = self.entities@[i].id;
                    if i < m {
                        let sp = spared(before.entities@, destroyed@);
                        assert(self.entities@[i] == sp[i]);
                        assert(has_source(sp, before.entities@, before.entities@.len() as int, i));
                        let j = choose|j: int| i <= j < before.entities@.len() && before.entities@[j] == sp[i];
                        assert(before.state.is_live(before.entities@[j].id));
                        assert(unchanged(self.state, before.state, id));
                        if i == 0 {
                            let p = before.entities@[0].id;
                            assert(before.state.is_live(p));
                            if destroyed@.contains(p) {
                                let q = choose|q: int| 0 <= q < destroyed@.len() && destroyed@[q] == p;
                                assert(before.state.is_live(destroyed@[q]));
                            }
                            assert(sp[0] == before.entities@[0]);
                        }
                    } else {
                        assert(is_fragment(self.state, before.state, destroyed@, destroyed@.len() as int, id));
                    }
                }
            }
            if before.settled() {
                assert forall|i: int| 0 <= i < self.entities@.len() implies self.state.accelerations@[#[trigger] self.entities@[i].id] == (Vec2 { x: 0, y: 0 }) by {
                    let id = self.entities@[i].id;
                    if i < m {
                        let sp = spared(before.entities@, destroyed@);
                        assert(self.entities@[i] == sp[i]);
                        assert(has_source(sp, before.entities@, before.entities@.len() as int, i));
                        let j = choose|j: int| i <= j < before.entities@.len() && before.entities@[j] == sp[i];
                        assert(before.state.is_live(before.entities@[j].id));
                        assert(unchanged(self.state, before.state, id));
                    }
                }
            }
        }
    }

    /// The draw calls of the current frame.
    pub fn render(&self) -> (r: Vec<Sprite>)
        requires
            self.wf(),
        ensures
            r@ == scene(*self),
    {
        let mut r: Vec<Sprite> = Vec::new();
        let mut i: usize = 0;
        while i < self.entities.len()
            invariant
                self.wf(),
                0 <= i <= self.entities@.len(),
                r@ == Seq::new(i as nat, |k: int| sprite_of(self.state, self.entities@[k].id)),
            decreases self.entities@.len() - i,
        {
            let id = self.entities[i].id;
            assert(self.state.is_live(self.entities@[i as int].id));
            let position = match self.state.positions.get(&id) {
                Some(p) => *p,
                None => Vec2::zero(),
            };
            let direction = match self.state.directions.get(&id) {
                Some(d) => *d,
                None => 0,
            };
            let scale = match self.state.scales.get(&id) {
                Some(s) => *s,
                None => Vec2::zero(),
            };
            let model = match self.state.models.get(&id) {
                Some(m) => *m,
                None => (0, 0),
            };
            r.push(Sprite { position, direction, scale, model });
            i = i + 1;
            assert(r@ =~= Seq::new(i as nat, |k: int| sprite_of(self.state, self.entities@[k].id)));
        }
        let ghost listed_part = r@;
        let mut life: u32 = 0;
        while life < self.session.lives
            invariant
                self.wf(),
                0 <= life <= self.session.lives,
                listed_part == Seq::new(self.entities@.len(), |k: int| sprite_of(self.state, self.entities@[k].id)),
                r@ == listed_part + Seq::new(life as nat, |k: int| life_marker(k)),
            decreases self.session.lives - life,
        {
            let x = 20_000_000 + 25_000_000 * (life as i64);
            r.push(Sprite {
                position: Vec2::new(x, 20_000_000),
                direction: 0,
                scale: Vec2::new(20_000_000, 30_000_000),
                model: (1, 3),
            });
            life = life + 1;
            assert(r@ =~= listed_part + Seq::new(life as nat, |k: int| life_marker(k)));
        }
        r
    }
}

/// One frame that does not quit, phase by phase: `w` after spawning, `k`
/// once the key transitions are applied, `t` after turning and thrust, `s`
/// after firing, `c` after the invulnerability countdown, `v` after the
/// kinematics, `x` after expiry, `cs` the collision reports of `x`, `r`
/// once they are resolved, and `after` once the destroyed ids are removed.
pub open spec fn frame_phases(
    before: Asteroids,
    input: KeyTransitions,
    dt: u32,
    w: Asteroids,
    k: Asteroids,
    t: Asteroids,
    s: Asteroids,
    c: Asteroids,
    v: Asteroids,
    x: Asteroids,
    cs: Seq<(Contact, Contact)>,
    r: Asteroids,
    after: Asteroids,
) -> bool {
    let resolved = resolve_prefix(x.session, cs, cs.len());
    &&& wave_spawned(w, before)
    &&& k.input == spec_apply(w.input, input)
    &&& k.input.quit is Up
    &&& k.should_continue == w.should_continue
    &&& k.session == w.session
    &&& k.entities == w.entities
    &&& k.state == w.state
    &&& if k.entities@.len() > 0 {
        steered(t, k) && shot(s, t, t.can_fire())
    } else {
        s == k
    }
    &&& c.input == s.input
    &&& c.should_continue == s.should_continue
    &&& c.entities == s.entities
    &&& c.state == s.state
    &&& c.session == (Session { invulnerability: countdown(s.session.invulnerability, dt), ..s.session })
    &&& advanced_all(v, c, dt)
    &&& expired_from(x, v)
    &&& forall|r: (Contact, Contact)| #[trigger] cs.contains(r) <==> reports(x.state, x.entities@, r)
    &&& r.input == x.input
    &&& r.should_continue == x.should_continue
    &&& r.entities == x.entities
    &&& r.state == x.state
    &&& r.session == resolved.0
    &&& destroyed_from(after, r, resolved.1)
}

/// Runs one frame of `dt` microseconds and returns what to draw.
///
/// In order: spawn the ship or the next wave; apply the key transitions; stop
/// if quit is held; turn, thrust and fire; count invulnerability down; move
/// every entity; drop spent projectiles; resolve collisions into score, lives
/// and destruction; break destroyed asteroids into fragments. A finished game
/// is left as it is.
pub fn update_and_render(asteroids: &mut Asteroids, input: &KeyTransitions, dt: u32) -> (frame: Vec<Sprite>)
    requires
        old(asteroids).wf(),
    ensures
        final(asteroids).wf(),
        !old(asteroids).should_continue ==> *final(asteroids) == *old(asteroids) && frame@.len() == 0,
        old(asteroids).should_continue ==> final(asteroids).input == spec_apply(old(asteroids).input, *input),
        old(asteroids).should_continue && spec_apply(old(asteroids).input, *input).quit is Down ==> {
            &&& !final(asteroids).should_continue
            &&& frame@.len() == 0
        },
        old(asteroids).should_continue && spec_apply(old(asteroids).input, *input).quit is Up ==> {
            &&& frame@ == scene(*final(asteroids))
            &&& exists|w: Asteroids, k: Asteroids, t: Asteroids, s: Asteroids, c: Asteroids, v: Asteroids, x: Asteroids, cs: Seq<(Contact, Contact)>, r: Asteroids|
                #[trigger] frame_phases(*old(asteroids), *input, dt, w, k, t, s, c, v, x, cs, r, *final(asteroids))
        },
{
    if !asteroids.should_continue {
        return Vec::new();
    }
    let ghost before = *asteroids;
    asteroids.spawn_wave();
    let ghost w = *asteroids;
    asteroids.input = asteroids.input.apply(input);
    let ghost k = *asteroids;
    if let InputStatus::Down = asteroids.input.quit {
        asteroids.should_continue = false;
        return Vec::new();
    }
    let ghost mut t = *asteroids;
    if asteroids.entities.len() > 0 {
        asteroids.turn_and_thrust();
        proof {
            t = *asteroids;
        }
        asteroids.fire();
    }
    let ghost s = *asteroids;
    asteroids.session.tick(dt);
    let ghost c = *asteroids;
    asteroids.advance(dt);
    let ghost v = *asteroids;
    asteroids.expire();
    let ghost x = *asteroids;
    let collisions = find_collisions(&asteroids.state, asteroids.entities.as_slice());
    let destroyed = resolve_collisions(&mut asteroids.session, &collisions);
    let ghost r = *asteroids;
    asteroids.destroy(&destroyed);
    assert(frame_phases(before, *input, dt, w, k, t, s, c, v, x, collisions@, r, *asteroids));
    asteroids.render()
}

} // verus!

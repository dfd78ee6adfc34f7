//! The entity store: one id-keyed column per attribute, the archetype
//! factories that populate it, and the per-frame kinematics of one entity.
use std::collections::HashMap;
use vstd::prelude::*;

use crate::geometry::{
    on_screen, within_unit, wrap_axis, wrap_coordinate, wrap_point, HeadingTable, Vec2, DEGREES,
    MICROS, SCREEN_HEIGHT, SCREEN_WIDTH, UNIT,
};
use crate::random::random_in;

verus! {

/// Thrust in pixels per second squared for one unit of control input.
pub const THRUST: i64 = 1000;

/// Speed of a projectile in pixels per second.
pub const PROJECTILE_SPEED: u32 = 500;

/// Lifetime of a projectile in microseconds (0.75 s).
pub const PROJECTILE_LIFETIME: i64 = 750_000;

/// Lowest speed of a fresh asteroid in pixels per second.
pub const ASTEROID_MIN_SPEED: u32 = 100;

/// Bound (exclusive) on the speed of a fresh asteroid in pixels per second.
pub const ASTEROID_MAX_SPEED: u32 = 200;

#[derive(Clone, Copy, Debug, PartialEq, Eq, Structural)]
pub enum Size {
    Large,
    Medium,
    Small,
}

#[derive(Clone, Copy, Debug, PartialEq, Eq, Structural)]
pub enum Kind {
    PlayerShip,
    ProjectileFriendly,
    Asteroid(Size),
}

/// A handle on an entity: its id in the store.
#[derive(Clone, Copy, Debug, PartialEq, Eq, Structural)]
pub struct Entity {
    pub id: u32,
}

/// The centre of the screen, where the player ship appears.
pub open spec fn screen_centre() -> Vec2 {
    Vec2 { x: 400_000_000, y: 300_000_000 }
}

/// Half-extents of an archetype in micro-pixels.
pub open spec fn scale_of(kind: Kind) -> Vec2 {
    match kind {
        Kind::PlayerShip => Vec2 { x: 20_000_000, y: 30_000_000 },
        Kind::ProjectileFriendly => Vec2 { x: 5_000_000, y: 5_000_000 },
        Kind::Asteroid(Size::Large) => Vec2 { x: 50_000_000, y: 50_000_000 },
        Kind::Asteroid(Size::Medium) => Vec2 { x: 25_000_000, y: 25_000_000 },
        Kind::Asteroid(Size::Small) => Vec2 { x: 12_500_000, y: 12_500_000 },
    }
}

/// The renderer's mesh handle and vertex count of an archetype.
pub open spec fn model_of(kind: Kind) -> (u32, u32) {
    match kind {
        Kind::PlayerShip => (1, 3),
        Kind::ProjectileFriendly => (2, 4),
        Kind::Asteroid(_) => (3, 10),
    }
}

/// Initial lifetime in microseconds; only projectiles are finite-lived.
pub open spec fn lifetime_of(kind: Kind) -> Option<i64> {
    match kind {
        Kind::ProjectileFriendly => Some(PROJECTILE_LIFETIME),
        _ => None,
    }
}

/// Initial weapon cooldown; only the player ship can fire.
pub open spec fn cooldown_of(kind: Kind) -> Option<i64> {
    match kind {
        Kind::PlayerShip => Some(0),
        _ => None,
    }
}

/// `v` scaled by a speed: a unit heading times pixels per second gives
/// micro-pixels per second.
pub open spec fn scaled(v: Vec2, speed: int) -> Vec2 {
    Vec2 { x: (v.x * speed) as i64, y: (v.y * speed) as i64 }
}

/// Keeps a value inside the range of `i64`.
pub open spec fn saturate(x: int) -> i64 {
    if x > i64::MAX {
        i64::MAX
    } else if x < i64::MIN {
        i64::MIN
    } else {
        x as i64
    }
}

/// A countdown timer after `dt` microseconds; it may go negative.
pub open spec fn countdown(t: i64, dt: u32) -> i64 {
    saturate(t - dt)
}

/// One coordinate after `dt` microseconds under constant acceleration,
/// before wrap-around: `p + a*dt^2/2 + v*dt`, each term floored.
pub open spec fn drift(p: int, v: int, a: int, dt: int) -> int {
    p + (a * THRUST * dt * dt) / (2 * MICROS * MICROS) + (v * dt) / (MICROS as int)
}

/// Velocity after `dt` microseconds under control input `a`.
pub open spec fn next_velocity(v: Vec2, a: Vec2, dt: u32) -> Vec2 {
    Vec2 {
        x: saturate(v.x + (a.x * THRUST * dt) / (MICROS as int)),
        y: saturate(v.y + (a.y * THRUST * dt) / (MICROS as int)),
    }
}

/// Position after `dt` microseconds, wrapped onto the screen.
pub open spec fn next_position(p: Vec2, v: Vec2, a: Vec2, dt: u32) -> Vec2 {
    wrap_point(drift(p.x as int, v.x as int, a.x as int, dt as int), drift(p.y as int, v.y as int, a.y as int, dt as int))
}

/// Decrements the timer of `id` if it has one.
pub open spec fn tick(m: Map<u32, i64>, id: u32, dt: u32) -> Map<u32, i64> {
    if m.contains_key(id) {
        m.insert(id, countdown(m[id], dt))
    } else {
        m
    }
}

/// Inserts `v` for `id` when there is one.
pub open spec fn insert_some(m: Map<u32, i64>, id: u32, v: Option<i64>) -> Map<u32, i64> {
    match v {
        Some(t) => m.insert(id, t),
        None => m,
    }
}

impl Entity {
    pub fn new(id: u32) -> (r: Entity)
        ensures
            r.id == id,
    {
        Entity { id }
    }

    /// The player ship at the centre of the screen, heading up, at rest.
    pub fn player_ship(state: &mut EntityState) -> (r: Entity)
        requires
            old(state).wf(),
            old(state).entity_count < u32::MAX,
        ensures
            final(state).wf(),
            final(state).spawned(
                *old(state),
                r.id,
                Kind::PlayerShip,
                screen_centre(),
                Vec2 { x: 0, y: 0 },
                0,
            ),
    {
        state.spawn(Kind::PlayerShip, Vec2::new(400_000_000, 300_000_000), Vec2::zero(), 0)
    }

    /// An asteroid at `position`, heading `direction` at `speed` pixels per second.
    pub fn asteroid_with(
        state: &mut EntityState,
        size: Size,
        position: Vec2,
        direction: i64,
        speed: u32,
    ) -> (r: Entity)
        requires
            old(state).wf(),
            old(state).entity_count < u32::MAX,
            on_screen(position),
        ensures
            final(state).wf(),
            final(state).spawned(
                *old(state),
                r.id,
                Kind::Asteroid(size),
                position,
                scaled(old(state).headings.spec_heading(direction as int), speed as int),
                direction,
            ),
    {
        let velocity = launch_velocity(&state.headings, direction, speed);
        state.spawn(Kind::Asteroid(size), position, velocity, direction)
    }

    /// An asteroid at `position`, or at a uniformly random point of the
    /// screen, with a random heading and a random speed in `[100, 200)`.
    fn asteroid(state: &mut EntityState, size: Size, position: Option<Vec2>) -> (r: Entity)
        requires
            old(state).wf(),
            old(state).entity_count < u32::MAX,
            position matches Some(p) ==> on_screen(p),
        ensures
            final(state).wf(),
            final(state).spawned_asteroid(*old(state), r.id, size, position),
    {
        let p = match position {
            Some(p) => p,
            None => {
                let px = random_in(0, SCREEN_WIDTH as u32);
                let py = random_in(0, SCREEN_HEIGHT as u32);
                Vec2::new(px as i64, py as i64)
            },
        };
        let direction = random_in(0, DEGREES as u32) as i64;
        let speed = random_in(ASTEROID_MIN_SPEED, ASTEROID_MAX_SPEED);
        let r = Entity::asteroid_with(state, size, p, direction, speed);
        assert(final(state).spawned(
            *old(state),
            r.id,
            Kind::Asteroid(size),
            p,
            scaled(old(state).headings.spec_heading(direction as int), speed as int),
            direction,
        ));
        r
    }

    pub fn large_asteroid(state: &mut EntityState) -> (r: Entity)
        requires
            old(state).wf(),
            old(state).entity_count < u32::MAX,
        ensures
            final(state).wf(),
            final(state).spawned_asteroid(*old(state), r.id, Size::Large, None),
    {
        Entity::asteroid(state, Size::Large, None)
    }

    pub fn medium_asteroid(state: &mut EntityState, position: Vec2) -> (r: Entity)
        requires
            old(state).wf(),
            old(state).entity_count < u32::MAX,
            on_screen(position),
        ensures
            final(state).wf(),
            final(state).spawned_asteroid(*old(state), r.id, Size::Medium, Some(position)),
    {
        Entity::asteroid(state, Size::Medium, Some(position))
    }

    pub fn small_asteroid(state: &mut EntityState, position: Vec2) -> (r: Entity)
        requires
            old(state).wf(),
            old(state).entity_count < u32::MAX,
            on_screen(position),
        ensures
            final(state).wf(),
            final(state).spawned_asteroid(*old(state), r.id, Size::Small, Some(position)),
    {
        Entity::asteroid(state, Size::Small, Some(position))
    }

    /// A projectile leaving `pos` along `dir` at 500 pixels per second.
    pub fn projectile(state: &mut EntityState, pos: Vec2, dir: i64) -> (r: Entity)
        requires
            old(state).wf(),
            old(state).entity_count < u32::MAX,
            on_screen(pos),
        ensures
            final(state).wf(),
            final(state).spawned(
                *old(state),
                r.id,
                Kind::ProjectileFriendly,
                pos,
                scaled(old(state).headings.spec_heading(dir as int), PROJECTILE_SPEED as int),
                dir,
            ),
    {
        let velocity = launch_velocity(&state.headings, dir, PROJECTILE_SPEED);
        state.spawn(Kind::ProjectileFriendly, pos, velocity, dir)
    }

    /// Advances this entity by `dt` microseconds: integrates the thrust-scaled
    /// control input and the velocity, wraps the position onto the screen,
    /// clears the control input and counts its timers down.
    pub fn update(&self, state: &mut EntityState, dt: u32)
        requires
            old(state).wf(),
            old(state).is_live(self.id),
        ensures
            final(state).wf(),
            final(state).advanced(*old(state), self.id, dt),
    {
        let id = self.id;
        let a = match state.accelerations.get(&id) {
            Some(a) => *a,
            None => Vec2::zero(),
        };
        let p = match state.positions.get(&id) {
            Some(p) => *p,
            None => Vec2::zero(),
        };
        let v = match state.velocities.get(&id) {
            Some(v) => *v,
            None => Vec2::zero(),
        };
        let (px, vx) = advance_axis(p.x, v.x, a.x, dt, SCREEN_WIDTH);
        let (py, vy) = advance_axis(p.y, v.y, a.y, dt, SCREEN_HEIGHT);
        state.positions.insert(id, Vec2::new(px, py));
        state.velocities.insert(id, Vec2::new(vx, vy));
        let lifetime = match state.lifetimes.get(&id) {
            Some(t) => Some(*t),
            None => None,
        };
        if let Some(t) = lifetime {
            state.lifetimes.insert(id, countdown_timer(t, dt));
        }
        let cooldown = match state.weapon_cooldowns.get(&id) {
            Some(t) => Some(*t),
            None => None,
        };
        if let Some(t) = cooldown {
            state.weapon_cooldowns.insert(id, countdown_timer(t, dt));
        }
        state.accelerations.insert(id, Vec2::zero());
        assert(state.accelerations@.dom() =~= state.kinds@.dom());
        assert(state.positions@.dom() =~= state.kinds@.dom());
        assert(state.velocities@.dom() =~= state.kinds@.dom());
    }
}

/// After removal no column keeps an entry for the removed id, and every
/// other id keeps its entries.
pub proof fn lemma_removal_is_complete(before: EntityState, after: EntityState, id: u32, other: u32)
    requires
        after.removed(before, id),
        other != id,
    ensures
        !after.kinds@.contains_key(id),
        !after.accelerations@.contains_key(id),
        !after.positions@.contains_key(id),
        !after.velocities@.contains_key(id),
        !after.directions@.contains_key(id),
        !after.models@.contains_key(id),
        !after.scales@.contains_key(id),
        !after.lifetimes@.contains_key(id),
        !after.weapon_cooldowns@.contains_key(id),
        after.kinds@.contains_key(other) == before.kinds@.contains_key(other),
        after.lifetimes@.contains_key(other) == before.lifetimes@.contains_key(other),
        after.weapon_cooldowns@.contains_key(other) == before.weapon_cooldowns@.contains_key(other),
        before.is_live(other) ==> after.kinds@[other] == before.kinds@[other]
            && after.positions@[other] == before.positions@[other],
{
}

/// Without control input an entity coasts: its velocity is unchanged and its
/// position advances by exactly `velocity * dt` before wrap-around.
pub proof fn lemma_coasting(p: Vec2, v: Vec2, dt: u32)
    ensures
        next_velocity(v, Vec2 { x: 0, y: 0 }, dt) == v,
        next_position(p, v, Vec2 { x: 0, y: 0 }, dt) == wrap_point(
            p.x + (v.x * dt) / (MICROS as int),
            p.y + (v.y * dt) / (MICROS as int),
        ),
{
    assert(0 * THRUST * dt == 0);
    assert(0 * THRUST * dt * dt == 0);
}

/// Velocity of heading `direction` at `speed` pixels per second.
fn launch_velocity(headings: &HeadingTable, direction: i64, speed: u32) -> (r: Vec2)
    requires
        headings.wf(),
    ensures
        r == scaled(headings.spec_heading(direction as int), speed as int),
{
    let h = headings.heading(direction);
    let s = speed as i64;
    assert(-UNIT * s <= h.x * s <= UNIT * s) by (nonlinear_arith)
        requires
            -UNIT <= h.x <= UNIT,
            0 <= s <= u32::MAX,
    ;
    assert(-UNIT * s <= h.y * s <= UNIT * s) by (nonlinear_arith)
        requires
            -UNIT <= h.y <= UNIT,
            0 <= s <= u32::MAX,
    ;
    Vec2::new(h.x * s, h.y * s)
}

/// Euclidean division by a positive divisor never grows a value's magnitude.
proof fn lemma_div_shrinks(x: int, d: int)
    requires
        d > 0,
    ensures
        x >= 0 ==> 0 <= x / d <= x,
        x < 0 ==> x <= x / d < 0,
{
    vstd::arithmetic::div_mod::lemma_fundamental_div_mod(x, d);
    let q = x / d;
    let r = x % d;
    assert(x >= 0 ==> 0 <= q <= x) by (nonlinear_arith)
        requires
            x == d * q + r,
            0 <= r < d,
            d > 0,
    ;
    assert(x < 0 ==> x <= q < 0) by (nonlinear_arith)
        requires
            x == d * q + r,
            0 <= r < d,
            d > 0,
    ;
}

/// `x / d` for a positive divisor, floored.
pub(crate) fn floor_div(x: i128, d: i128) -> (q: i128)
    requires
        d > 0,
    ensures
        q == x / d,
{
    proof {
        lemma_div_shrinks(x as int, d as int);
    }
    match x.checked_div_euclid(d) {
        Some(q) => q,
        None => 0,
    }
}

/// A timer counted down by `dt`.
fn countdown_timer(t: i64, dt: u32) -> (r: i64)
    ensures
        r == countdown(t, dt),
{
    match t.checked_sub(dt as i64) {
        Some(r) => r,
        None => i64::MIN,
    }
}

/// One coordinate and its velocity after `dt` microseconds.
fn advance_axis(p: i64, v: i64, a: i64, dt: u32, extent: i64) -> (r: (i64, i64))
    requires
        -UNIT <= a <= UNIT,
        extent >= 0,
    ensures
        r.0 == wrap_axis(drift(p as int, v as int, a as int, dt as int), extent as int),
        r.1 == saturate(v + (a * THRUST * dt) / (MICROS as int)),
{
    let t = dt as i128;
    assert(-1_000_000_000 <= a * 1000 <= 1_000_000_000) by (nonlinear_arith)
        requires
            -1_000_000 <= a <= 1_000_000,
    ;
    let thrust = (a as i128) * 1000;
    assert(-1_000_000_000 * 0x1_0000_0000 <= thrust * t <= 1_000_000_000 * 0x1_0000_0000)
        by (nonlinear_arith)
        requires
            -1_000_000_000 <= thrust <= 1_000_000_000,
            0 <= t < 0x1_0000_0000,
    ;
    let thrust_t = thrust * t;
    assert(-1_000_000_000 * 0x1_0000_0000 * 0x1_0000_0000 <= thrust_t * t
        <= 1_000_000_000 * 0x1_0000_0000 * 0x1_0000_0000) by (nonlinear_arith)
        requires
            -1_000_000_000 * 0x1_0000_0000 <= thrust_t <= 1_000_000_000 * 0x1_0000_0000,
            0 <= t < 0x1_0000_0000,
    ;
    let from_thrust = floor_div(thrust_t * t, 2 * (MICROS as i128) * (MICROS as i128));
    assert(-0x8000_0000_0000_0000 * 0x1_0000_0000 <= (v as i128) * t
        <= 0x8000_0000_0000_0000 * 0x1_0000_0000) by (nonlinear_arith)
        requires
            -0x8000_0000_0000_0000 <= v < 0x8000_0000_0000_0000,
            0 <= t < 0x1_0000_0000,
    ;
    let from_velocity = floor_div((v as i128) * t, MICROS as i128);
    proof {
        lemma_div_shrinks(thrust_t * t, 2 * MICROS * MICROS);
        lemma_div_shrinks(v * t, MICROS as int);
        lemma_div_shrinks(thrust_t as int, MICROS as int);
    }
    let position = wrap_coordinate((p as i128) + from_thrust + from_velocity, extent);
    let velocity = (v as i128) + floor_div(thrust_t, MICROS as i128);
    let velocity = if velocity > i64::MAX as i128 {
        i64::MAX
    } else if velocity < i64::MIN as i128 {
        i64::MIN
    } else {
        velocity as i64
    };
    (position, velocity)
}

/// Column store of all entity attributes, keyed by entity id.
pub struct EntityState {
    /// Ids handed out so far; the next id is this count.
    pub entity_count: u32,
    /// Unit heading vector of each whole degree.
    pub headings: HeadingTable,
    pub kinds: HashMap<u32, Kind>,
    /// Control input of the current frame, in units of `UNIT`.
    pub accelerations: HashMap<u32, Vec2>,
    pub positions: HashMap<u32, Vec2>,
    pub velocities: HashMap<u32, Vec2>,
    /// Heading in whole degrees, unbounded.
    pub directions: HashMap<u32, i64>,
    pub models: HashMap<u32, (u32, u32)>,
    pub scales: HashMap<u32, Vec2>,
    pub lifetimes: HashMap<u32, i64>,
    pub weapon_cooldowns: HashMap<u32, i64>,
}

impl EntityState {
    /// A live entity has every required column; lifetimes belong to
    /// projectiles and cooldowns to the player ship; ids are below the count;
    /// positions lie on the screen and control input within one unit.
    pub open spec fn wf(&self) -> bool {
        &&& self.headings.wf()
        &&& self.accelerations@.dom() == self.kinds@.dom()
        &&& self.positions@.dom() == self.kinds@.dom()
        &&& self.velocities@.dom() == self.kinds@.dom()
        &&& self.directions@.dom() == self.kinds@.dom()
        &&& self.models@.dom() == self.kinds@.dom()
        &&& self.scales@.dom() == self.kinds@.dom()
        &&& forall|id: u32| #[trigger]
            self.kinds@.contains_key(id) ==> {
                &&& id < self.entity_count
                &&& on_screen(self.positions@[id])
                &&& within_unit(self.accelerations@[id])
            }
        &&& forall|id: u32| #[trigger]
            self.lifetimes@.contains_key(id) <==> (self.kinds@.contains_key(id)
                && self.kinds@[id] is ProjectileFriendly)
        &&& forall|id: u32| #[trigger]
            self.weapon_cooldowns@.contains_key(id) <==> (self.kinds@.contains_key(id)
                && self.kinds@[id] is PlayerShip)
    }

    /// `self` is `before` with one fresh asteroid `id` of `size`, placed at
    /// `at` if given and anywhere on the screen if not, with some heading in
    /// `[0, 360)` and some speed in `[100, 200)`.
    pub open spec fn spawned_asteroid(
        &self,
        before: EntityState,
        id: u32,
        size: Size,
        at: Option<Vec2>,
    ) -> bool {
        exists|p: Vec2, d: i64, s: u32|
            #![trigger self.spawned(before, id, Kind::Asteroid(size), p, scaled(before.headings.spec_heading(d as int), s as int), d)]
            {
                &&& self.spawned(
                    before,
                    id,
                    Kind::Asteroid(size),
                    p,
                    scaled(before.headings.spec_heading(d as int), s as int),
                    d,
                )
                &&& on_screen(p)
                &&& (at matches Some(q) ==> p == q)
                &&& 0 <= d < DEGREES
                &&& ASTEROID_MIN_SPEED <= s < ASTEROID_MAX_SPEED
            }
    }

    /// `self` is `before` after entity `id` advanced by `dt` microseconds.
    pub open spec fn advanced(&self, before: EntityState, id: u32, dt: u32) -> bool {
        let p = before.positions@[id];
        let v = before.velocities@[id];
        let a = before.accelerations@[id];
        &&& self.entity_count == before.entity_count
        &&& self.headings == before.headings
        &&& self.kinds@ == before.kinds@
        &&& self.directions@ == before.directions@
        &&& self.models@ == before.models@
        &&& self.scales@ == before.scales@
        &&& self.accelerations@ == before.accelerations@.insert(id, Vec2 { x: 0, y: 0 })
        &&& self.positions@ == before.positions@.insert(id, next_position(p, v, a, dt))
        &&& self.velocities@ == before.velocities@.insert(id, next_velocity(v, a, dt))
        &&& self.lifetimes@ == tick(before.lifetimes@, id, dt)
        &&& self.weapon_cooldowns@ == tick(before.weapon_cooldowns@, id, dt)
    }

    /// `self` is `before` with `id` deleted from every column.
    pub open spec fn removed(&self, before: EntityState, id: u32) -> bool {
        &&& self.entity_count == before.entity_count
        &&& self.headings == before.headings
        &&& self.kinds@ == before.kinds@.remove(id)
        &&& self.accelerations@ == before.accelerations@.remove(id)
        &&& self.positions@ == before.positions@.remove(id)
        &&& self.velocities@ == before.velocities@.remove(id)
        &&& self.directions@ == before.directions@.remove(id)
        &&& self.models@ == before.models@.remove(id)
        &&& self.scales@ == before.scales@.remove(id)
        &&& self.lifetimes@ == before.lifetimes@.remove(id)
        &&& self.weapon_cooldowns@ == before.weapon_cooldowns@.remove(id)
    }

    /// Entity `id` heads along a whole degree in `[0, 360)` at some asteroid
    /// speed in `[100, 200)`.
    pub open spec fn launched(&self, id: u32) -> bool {
        &&& 0 <= self.directions@[id] < DEGREES
        &&& exists|s: u32|
            ASTEROID_MIN_SPEED <= s < ASTEROID_MAX_SPEED && self.velocities@[id] == #[trigger] scaled(
                self.headings.spec_heading(self.directions@[id] as int),
                s as int,
            )
    }

    pub open spec fn is_live(&self, id: u32) -> bool {
        self.kinds@.contains_key(id)
    }

    /// `self` is `before` with one fresh entity `id`: every column but the
    /// timers populated for `kind`.
    pub open spec fn spawned_columns(
        &self,
        before: EntityState,
        id: u32,
        kind: Kind,
        position: Vec2,
        velocity: Vec2,
        direction: i64,
    ) -> bool {
        &&& id == before.entity_count
        &&& self.entity_count == before.entity_count + 1
        &&& self.headings == before.headings
        &&& self.kinds@ == before.kinds@.insert(id, kind)
        &&& self.accelerations@ == before.accelerations@.insert(id, Vec2 { x: 0, y: 0 })
        &&& self.positions@ == before.positions@.insert(id, position)
        &&& self.velocities@ == before.velocities@.insert(id, velocity)
        &&& self.directions@ == before.directions@.insert(id, direction)
        &&& self.models@ == before.models@.insert(id, model_of(kind))
        &&& self.scales@ == before.scales@.insert(id, scale_of(kind))
    }

    /// `self` is `before` with one fresh entity `id` fully populated.
    pub open spec fn spawned(
        &self,
        before: EntityState,
        id: u32,
        kind: Kind,
        position: Vec2,
        velocity: Vec2,
        direction: i64,
    ) -> bool {
        &&& self.spawned_columns(before, id, kind, position, velocity, direction)
        &&& self.lifetimes@ == insert_some(before.lifetimes@, id, lifetime_of(kind))
        &&& self.weapon_cooldowns@ == insert_some(
            before.weapon_cooldowns@,
            id,
            cooldown_of(kind),
        )
    }

    pub fn new(headings: HeadingTable) -> (r: EntityState)
        requires
            headings.wf(),
        ensures
            r.wf(),
            r.entity_count == 0,
            r.headings == headings,
            r.kinds@ == Map::<u32, Kind>::empty(),
            r.lifetimes@ == Map::<u32, i64>::empty(),
            r.weapon_cooldowns@ == Map::<u32, i64>::empty(),
    {
        let r = EntityState {
            entity_count: 0,
            headings,
            kinds: HashMap::new(),
            accelerations: HashMap::new(),
            positions: HashMap::new(),
            velocities: HashMap::new(),
            directions: HashMap::new(),
            models: HashMap::new(),
            scales: HashMap::new(),
            lifetimes: HashMap::new(),
            weapon_cooldowns: HashMap::new(),
        };
        assert(r.accelerations@.dom() =~= r.kinds@.dom());
        assert(r.positions@.dom() =~= r.kinds@.dom());
        assert(r.velocities@.dom() =~= r.kinds@.dom());
        assert(r.directions@.dom() =~= r.kinds@.dom());
        assert(r.models@.dom() =~= r.kinds@.dom());
        assert(r.scales@.dom() =~= r.kinds@.dom());
        r
    }

    /// Hands out a fresh id, never used before.
    fn next_id(&mut self) -> (id: u32)
        requires
            old(self).entity_count < u32::MAX,
        ensures
            id == old(self).entity_count,
            final(self).entity_count == old(self).entity_count + 1,
            final(self).headings == old(self).headings,
            final(self).kinds == old(self).kinds,
            final(self).accelerations == old(self).accelerations,
            final(self).positions == old(self).positions,
            final(self).velocities == old(self).velocities,
            final(self).directions == old(self).directions,
            final(self).models == old(self).models,
            final(self).scales == old(self).scales,
            final(self).lifetimes == old(self).lifetimes,
            final(self).weapon_cooldowns == old(self).weapon_cooldowns,
    {
        let id = self.entity_count;
        self.entity_count = self.entity_count + 1;
        id
    }

    /// Allocates an id and populates every column its archetype needs.
    pub fn spawn(&mut self, kind: Kind, position: Vec2, velocity: Vec2, direction: i64) -> (r:
        Entity)
        requires
            old(self).wf(),
            old(self).entity_count < u32::MAX,
            on_screen(position),
        ensures
            final(self).wf(),
            final(self).spawned(*old(self), r.id, kind, position, velocity, direction),
    {
        let id = self.next_id();
        self.kinds.insert(id, kind);
        self.accelerations.insert(id, Vec2::zero());
        self.positions.insert(id, position);
        self.velocities.insert(id, velocity);
        self.directions.insert(id, direction);
        self.models.insert(id, archetype_model(kind));
        self.scales.insert(id, archetype_scale(kind));
        match kind {
            Kind::ProjectileFriendly => {
                self.lifetimes.insert(id, PROJECTILE_LIFETIME);
            },
            Kind::PlayerShip => {
                self.weapon_cooldowns.insert(id, 0);
            },
            Kind::Asteroid(_) => {},
        }
        assert(self.accelerations@.dom() =~= self.kinds@.dom());
        assert(self.positions@.dom() =~= self.kinds@.dom());
        assert(self.velocities@.dom() =~= self.kinds@.dom());
        assert(self.directions@.dom() =~= self.kinds@.dom());
        assert(self.models@.dom() =~= self.kinds@.dom());
        assert(self.scales@.dom() =~= self.kinds@.dom());
        Entity::new(id)
    }

    /// Deletes `id` from every column; absent ids are left as they are.
    pub fn remove(&mut self, id: u32)
        requires
            old(self).wf(),
        ensures
            final(self).wf(),
            final(self).removed(*old(self), id),
    {
        self.kinds.remove(&id);
        self.accelerations.remove(&id);
        self.positions.remove(&id);
        self.velocities.remove(&id);
        self.directions.remove(&id);
        self.models.remove(&id);
        self.scales.remove(&id);
        self.lifetimes.remove(&id);
        self.weapon_cooldowns.remove(&id);
        assert(self.accelerations@.dom() =~= self.kinds@.dom());
        assert(self.positions@.dom() =~= self.kinds@.dom());
        assert(self.velocities@.dom() =~= self.kinds@.dom());
        assert(self.directions@.dom() =~= self.kinds@.dom());
        assert(self.models@.dom() =~= self.kinds@.dom());
        assert(self.scales@.dom() =~= self.kinds@.dom());
    }
}

fn archetype_scale(kind: Kind) -> (r: Vec2)
    ensures
        r == scale_of(kind),
{
    match kind {
        Kind::PlayerShip => Vec2::new(20_000_000, 30_000_000),
        Kind::ProjectileFriendly => Vec2::new(5_000_000, 5_000_000),
        Kind::Asteroid(Size::Large) => Vec2::new(50_000_000, 50_000_000),
        Kind::Asteroid(Size::Medium) => Vec2::new(25_000_000, 25_000_000),
        Kind::Asteroid(Size::Small) => Vec2::new(12_500_000, 12_500_000),
    }
}

fn archetype_model(kind: Kind) -> (r: (u32, u32))
    ensures
        r == model_of(kind),
{
    match kind {
        Kind::PlayerShip => (1, 3),
        Kind::ProjectileFriendly => (2, 4),
        Kind::Asteroid(_) => (3, 10),
    }
}

} // verus!

//! Session rules: held-key toggling and the resolution of collisions into
//! scoring, lives, invulnerability and the set of destroyed entities.
use vstd::prelude::*;

use crate::collisions::Contact;
use crate::entity::{countdown, Kind, Size};

verus! {

/// Points needed for one extra life.
pub const EXTRA_LIFE_POINTS: u32 = 2000;

/// Invulnerability after losing a life, in microseconds (1 s).
pub const INVULNERABILITY: i64 = 1_000_000;

/// Whether a key is held.
#[derive(Clone, Copy, Debug, PartialEq, Eq, Structural)]
pub enum InputStatus {
    Up,
    Down,
}

/// Held status of each recognised key.
#[derive(Clone, Copy, Debug, PartialEq, Eq, Structural)]
pub struct HeldKeys {
    pub thrust: InputStatus,
    pub turn_left: InputStatus,
    pub turn_right: InputStatus,
    pub fire: InputStatus,
    pub quit: InputStatus,
}

/// Transition count of each recognised key in one frame's input batch;
/// `None` for a key without events. An even count flips the key.
#[derive(Clone, Copy, Debug, PartialEq, Eq, Structural, Default)]
pub struct KeyTransitions {
    pub thrust: Option<u32>,
    pub turn_left: Option<u32>,
    pub turn_right: Option<u32>,
    pub fire: Option<u32>,
    pub quit: Option<u32>,
}

/// Score, lives and timers of one game.
#[derive(Clone, Copy, Debug, PartialEq, Eq, Structural)]
pub struct Session {
    pub stage: u32,
    pub score: u32,
    pub lives: u32,
    /// Points gathered toward the next extra life.
    pub live_up: u32,
    /// Remaining invulnerability in microseconds; invulnerable while `>= 0`.
    pub invulnerability: i64,
}

pub open spec fn flips(count: Option<u32>) -> bool {
    count matches Some(c) && c % 2 == 0
}

pub open spec fn toggled(status: InputStatus, count: Option<u32>) -> InputStatus {
    if flips(count) {
        match status {
            InputStatus::Up => InputStatus::Down,
            InputStatus::Down => InputStatus::Up,
        }
    } else {
        status
    }
}

pub open spec fn spec_apply(held: HeldKeys, input: KeyTransitions) -> HeldKeys {
    HeldKeys {
        thrust: toggled(held.thrust, input.thrust),
        turn_left: toggled(held.turn_left, input.turn_left),
        turn_right: toggled(held.turn_right, input.turn_right),
        fire: toggled(held.fire, input.fire),
        quit: toggled(held.quit, input.quit),
    }
}

fn toggle(status: InputStatus, count: Option<u32>) -> (r: InputStatus)
    ensures
        r == toggled(status, count),
{
    match count {
        Some(c) if c % 2 == 0 => match status {
            InputStatus::Up => InputStatus::Down,
            InputStatus::Down => InputStatus::Up,
        },
        _ => status,
    }
}

impl HeldKeys {
    pub open spec fn up_spec() -> HeldKeys {
        HeldKeys {
            thrust: InputStatus::Up,
            turn_left: InputStatus::Up,
            turn_right: InputStatus::Up,
            fire: InputStatus::Up,
            quit: InputStatus::Up,
        }
    }

    /// Every key up.
    pub fn new() -> (r: HeldKeys)
        ensures
            r == HeldKeys::up_spec(),
    {
        HeldKeys {
            thrust: InputStatus::Up,
            turn_left: InputStatus::Up,
            turn_right: InputStatus::Up,
            fire: InputStatus::Up,
            quit: InputStatus::Up,
        }
    }

    /// Flips each key whose transition count this frame is even.
    pub fn apply(&self, input: &KeyTransitions) -> (r: HeldKeys)
        ensures
            r == spec_apply(*self, *input),
    {
        HeldKeys {
            thrust: toggle(self.thrust, input.thrust),
            turn_left: toggle(self.turn_left, input.turn_left),
            turn_right: toggle(self.turn_right, input.turn_right),
            fire: toggle(self.fire, input.fire),
            quit: toggle(self.quit, input.quit),
        }
    }
}

/// Points for destroying an asteroid of `size`.
pub open spec fn points_of(size: Size) -> u32 {
    match size {
        Size::Large => 10,
        Size::Medium => 25,
        Size::Small => 50,
    }
}

pub fn points(size: Size) -> (r: u32)
    ensures
        r == points_of(size),
{
    match size {
        Size::Large => 10,
        Size::Medium => 25,
        Size::Small => 50,
    }
}

/// `s` after an asteroid of `size` is shot: the score grows by its points,
/// and every 2000 points gathered grant one life.
pub open spec fn awarded(s: Session, size: Size) -> Session {
    let gathered = s.live_up + points_of(size);
    let score = if s.score + points_of(size) > u32::MAX {
        u32::MAX
    } else {
        (s.score + points_of(size)) as u32
    };
    if gathered >= EXTRA_LIFE_POINTS {
        Session {
            score,
            lives: if s.lives == u32::MAX { u32::MAX } else { (s.lives + 1) as u32 },
            live_up: (gathered % (EXTRA_LIFE_POINTS as int)) as u32,
            ..s
        }
    } else {
        Session { score, live_up: gathered as u32, ..s }
    }
}

/// `s` and `destroyed` after the player ship `player` touches an asteroid.
pub open spec fn player_hit(s: Session, destroyed: Seq<u32>, player: u32) -> (Session, Seq<u32>) {
    if s.invulnerability >= 0 {
        (s, destroyed)
    } else if s.lives <= 1 {
        (s, add_once(destroyed, player))
    } else {
        (Session { lives: (s.lives - 1) as u32, invulnerability: INVULNERABILITY, ..s }, destroyed)
    }
}

/// `ids` with `id` appended unless it is already there.
pub open spec fn add_once(ids: Seq<u32>, id: u32) -> Seq<u32> {
    if ids.contains(id) {
        ids
    } else {
        ids.push(id)
    }
}

/// The effect of one collision report, by the kinds of its two sides.
pub open spec fn resolve_one(s: Session, destroyed: Seq<u32>, c: (Contact, Contact)) -> (Session, Seq<u32>) {
    let (a, kind_a) = c.0;
    let (b, kind_b) = c.1;
    match (kind_a, kind_b) {
        (Kind::PlayerShip, Kind::Asteroid(_)) => player_hit(s, destroyed, a),
        (Kind::Asteroid(_), Kind::PlayerShip) => player_hit(s, destroyed, b),
        (Kind::Asteroid(size), Kind::ProjectileFriendly) => (
            awarded(s, size),
            add_once(add_once(destroyed, a), b),
        ),
        (Kind::ProjectileFriendly, Kind::Asteroid(size)) => (
            awarded(s, size),
            add_once(add_once(destroyed, a), b),
        ),
        _ => (s, destroyed),
    }
}

/// The two reports name the same unordered pair of entities.
pub open spec fn same_pair(c: (Contact, Contact), d: (Contact, Contact)) -> bool {
    (c.0.0 == d.0.0 && c.1.0 == d.1.0) || (c.0.0 == d.1.0 && c.1.0 == d.0.0)
}

/// Report `i` names a pair already named earlier in the list.
pub open spec fn repeats(cs: Seq<(Contact, Contact)>, i: int) -> bool {
    exists|k: int| 0 <= k < i && same_pair(#[trigger] cs[k], cs[i])
}

/// Session and destroyed ids after the first `n` reports, each unordered
/// pair taking effect once.
pub open spec fn resolve_prefix(s: Session, cs: Seq<(Contact, Contact)>, n: nat) -> (Session, Seq<u32>)
    decreases n,
{
    if n == 0 {
        (s, Seq::empty())
    } else {
        let (s1, d1) = resolve_prefix(s, cs, (n - 1) as nat);
        if repeats(cs, n - 1) {
            (s1, d1)
        } else {
            resolve_one(s1, d1, cs[n - 1])
        }
    }
}

/// A projectile and an asteroid of `size` that hit each other are reported in
/// both orders, yet the hit scores the asteroid's points once and destroys
/// each of the two once.
pub proof fn lemma_hit_scores_once(s: Session, asteroid: u32, size: Size, projectile: u32)
    requires
        asteroid != projectile,
    ensures
        ({
            let c = ((asteroid, Kind::Asteroid(size)), (projectile, Kind::ProjectileFriendly));
            let r = resolve_prefix(s, seq![c, (c.1, c.0)], 2);
            &&& r.0 == awarded(s, size)
            &&& r.0.score == if s.score + points_of(size) > u32::MAX {
                u32::MAX as int
            } else {
                s.score + points_of(size)
            }
            &&& r.1 == seq![asteroid, projectile]
        }),
        ({
            let c = ((projectile, Kind::ProjectileFriendly), (asteroid, Kind::Asteroid(size)));
            let r = resolve_prefix(s, seq![c, (c.1, c.0)], 2);
            &&& r.0 == awarded(s, size)
            &&& r.1 == seq![projectile, asteroid]
        }),
{
    let c = ((asteroid, Kind::Asteroid(size)), (projectile, Kind::ProjectileFriendly));
    let cs = seq![c, (c.1, c.0)];
    assert(!repeats(cs, 0));
    assert(same_pair(cs[0], cs[1]));
    assert(repeats(cs, 1));
    let e = Seq::<u32>::empty();
    assert(!e.contains(asteroid));
    assert(!e.contains(projectile));
    assert(!e.push(asteroid).contains(projectile)) by {
        assert(e.push(asteroid)[0] == asteroid);
    }
    assert(!e.push(projectile).contains(asteroid)) by {
        assert(e.push(projectile)[0] == projectile);
    }
    assert(resolve_prefix(s, cs, 0) == (s, e));
    assert(resolve_prefix(s, cs, 1) == resolve_one(s, e, c));
    assert(resolve_prefix(s, cs, 2) == resolve_prefix(s, cs, 1));
    assert(e.push(asteroid).push(projectile) == seq![asteroid, projectile]);
    let d = ((projectile, Kind::ProjectileFriendly), (asteroid, Kind::Asteroid(size)));
    let ds = seq![d, (d.1, d.0)];
    assert(!repeats(ds, 0));
    assert(same_pair(ds[0], ds[1]));
    assert(repeats(ds, 1));
    assert(resolve_prefix(s, ds, 0) == (s, e));
    assert(resolve_prefix(s, ds, 1) == resolve_one(s, e, d));
    assert(resolve_prefix(s, ds, 2) == resolve_prefix(s, ds, 1));
    assert(e.push(projectile).push(asteroid) == seq![projectile, asteroid]);
}

/// Whether `ids` holds `id`.
pub fn holds(ids: &Vec<u32>, id: u32) -> (r: bool)
    ensures
        r == ids@.contains(id),
{
    let mut i: usize = 0;
    while i < ids.len()
        invariant
            0 <= i <= ids@.len(),
            forall|k: int| 0 <= k < i ==> ids@[k] != id,
        decreases ids@.len() - i,
    {
        if ids[i] == id {
            return true;
        }
        i = i + 1;
    }
    false
}

fn push_once(ids: &mut Vec<u32>, id: u32)
    ensures
        final(ids)@ == add_once(old(ids)@, id),
{
    if !holds(ids, id) {
        ids.push(id);
    }
}

/// Whether report `i` repeats an earlier pair.
fn seen_before(cs: &Vec<(Contact, Contact)>, i: usize) -> (r: bool)
    requires
        i < cs@.len(),
    ensures
        r == repeats(cs@, i as int),
{
    let (a, b) = (cs[i].0.0, cs[i].1.0);
    let mut k: usize = 0;
    while k < i
        invariant
            i < cs@.len(),
            0 <= k <= i,
            a == cs@[i as int].0.0,
            b == cs@[i as int].1.0,
            forall|j: int| 0 <= j < k ==> !same_pair(#[trigger] cs@[j], cs@[i as int]),
        decreases i - k,
    {
        let (x, y) = (cs[k].0.0, cs[k].1.0);
        if (x == a && y == b) || (x == b && y == a) {
            assert(same_pair(cs@[k as int], cs@[i as int]));
            return true;
        }
        k = k + 1;
    }
    false
}

impl Session {
    pub open spec fn new_spec() -> Session {
        Session { stage: 1, score: 0, lives: 3, live_up: 0, invulnerability: 0 }
    }

    /// A fresh game: stage one, no score, three lives, not invulnerable.
    pub fn new() -> (r: Session)
        ensures
            r == Session::new_spec(),
    {
        Session { stage: 1, score: 0, lives: 3, live_up: 0, invulnerability: 0 }
    }

    /// Counts the invulnerability window down by `dt` microseconds.
    pub fn tick(&mut self, dt: u32)
        ensures
            *final(self) == (Session { invulnerability: countdown(old(self).invulnerability, dt), ..*old(self) }),
    {
        self.invulnerability = match self.invulnerability.checked_sub(dt as i64) {
            Some(t) => t,
            None => i64::MIN,
        };
    }

    /// Scores a shot asteroid of `size`.
    pub fn award(&mut self, size: Size)
        ensures
            *final(self) == awarded(*old(self), size),
    {
        let p = points(size);
        self.score = self.score.saturating_add(p);
        let gathered = self.live_up as u64 + p as u64;
        if gathered >= EXTRA_LIFE_POINTS as u64 {
            self.lives = self.lives.saturating_add(1);
            self.live_up = (gathered % (EXTRA_LIFE_POINTS as u64)) as u32;
        } else {
            self.live_up = gathered as u32;
        }
    }

    fn hit_player(&mut self, destroyed: &mut Vec<u32>, player: u32)
        ensures
            (*final(self), final(destroyed)@) == player_hit(*old(self), old(destroyed)@, player),
    {
        if self.invulnerability >= 0 {
        } else if self.lives <= 1 {
            push_once(destroyed, player);
        } else {
            self.lives = self.lives - 1;
            self.invulnerability = INVULNERABILITY;
        }
    }
}

/// Applies the collision reports in order: a player ship touching an
/// asteroid loses a life unless invulnerable, or is destroyed on its last
/// life; a projectile and an asteroid destroy each other and score. Each
/// unordered pair takes effect once, whichever orders it is reported in.
/// Returns the destroyed ids, each once, in the order they were marked.
pub fn resolve_collisions(session: &mut Session, collisions: &Vec<(Contact, Contact)>) -> (destroyed: Vec<u32>)
    ensures
        (*final(session), destroyed@) == resolve_prefix(*old(session), collisions@, collisions@.len()),
{
    let mut destroyed: Vec<u32> = Vec::new();
    let mut n: usize = 0;
    while n < collisions.len()
        invariant
            0 <= n <= collisions@.len(),
            (*session, destroyed@) == resolve_prefix(*old(session), collisions@, n as nat),
        decreases collisions@.len() - n,
    {
        if !seen_before(collisions, n) {
            let ((a, kind_a), (b, kind_b)) = collisions[n];
            match (kind_a, kind_b) {
                (Kind::PlayerShip, Kind::Asteroid(_)) => session.hit_player(&mut destroyed, a),
                (Kind::Asteroid(_), Kind::PlayerShip) => session.hit_player(&mut destroyed, b),
                (Kind::Asteroid(size), Kind::ProjectileFriendly) | (
                    Kind::ProjectileFriendly,
                    Kind::Asteroid(size),
                ) => {
                    session.award(size);
                    push_once(&mut destroyed, a);
                    push_once(&mut destroyed, b);
                },
                _ => {},
            }
        }
        n = n + 1;
    }
    destroyed
}

} // verus!

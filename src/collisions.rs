//! Broad-phase collision detection by bounding circles.
use vstd::prelude::*;

use crate::entity::{floor_div, Entity, EntityState, Kind};
use crate::geometry::{on_screen, Vec2};

verus! {

/// One side of a reported collision: an entity id and its kind.
pub type Contact = (u32, Kind);

/// Bounding radius of an entity: half its larger extent.
pub open spec fn radius(scale: Vec2) -> int {
    (if scale.x >= scale.y { scale.x } else { scale.y }) / 2
}

/// Two circles overlap when the squared distance of their centres is below
/// the square of the sum of their radii.
pub open spec fn overlaps(pa: Vec2, ra: int, pb: Vec2, rb: int) -> bool {
    (pb.x - pa.x) * (pb.x - pa.x) + (pb.y - pa.y) * (pb.y - pa.y) < (ra + rb) * (ra + rb)
}

/// Distinct live entities `a` and `b` overlap.
pub open spec fn collide(state: EntityState, a: u32, b: u32) -> bool {
    &&& a != b
    &&& overlaps(
        state.positions@[a],
        radius(state.scales@[a]),
        state.positions@[b],
        radius(state.scales@[b]),
    )
}

/// `id` stands in the entity list.
pub open spec fn listed(entities: Seq<Entity>, id: u32) -> bool {
    exists|i: int| 0 <= i < entities.len() && (#[trigger] entities[i]).id == id
}

/// The detector reports `c` for these entities: both sides are listed,
/// carry their stored kinds, and collide.
pub open spec fn reports(state: EntityState, entities: Seq<Entity>, c: (Contact, Contact)) -> bool {
    let (a, kind_a) = c.0;
    let (b, kind_b) = c.1;
    &&& listed(entities, a)
    &&& listed(entities, b)
    &&& state.kinds@.contains_key(a)
    &&& state.kinds@.contains_key(b)
    &&& kind_a == state.kinds@[a]
    &&& kind_b == state.kinds@[b]
    &&& collide(state, a, b)
}

pub open spec fn contact_at(state: EntityState, entities: Seq<Entity>, i: int) -> Contact {
    (entities[i].id, state.kinds@[entities[i].id])
}

pub open spec fn pair_at(state: EntityState, entities: Seq<Entity>, i: int, j: int) -> (Contact, Contact) {
    (contact_at(state, entities, i), contact_at(state, entities, j))
}

/// Collision reports are symmetric: whenever `(a, b)` is reported so is
/// `(b, a)`, and no entity is ever reported against itself.
pub proof fn lemma_reports_symmetric(state: EntityState, entities: Seq<Entity>, c: (Contact, Contact))
    requires
        reports(state, entities, c),
    ensures
        reports(state, entities, (c.1, c.0)),
        c.0.0 != c.1.0,
{
    let pa = state.positions@[c.0.0];
    let pb = state.positions@[c.1.0];
    let ra = radius(state.scales@[c.0.0]);
    let rb = radius(state.scales@[c.1.0]);
    assert((pa.x - pb.x) * (pa.x - pb.x) == (pb.x - pa.x) * (pb.x - pa.x)) by (nonlinear_arith);
    assert((pa.y - pb.y) * (pa.y - pb.y) == (pb.y - pa.y) * (pb.y - pa.y)) by (nonlinear_arith);
    assert((rb + ra) * (rb + ra) == (ra + rb) * (ra + rb)) by (nonlinear_arith);
}

/// Position, bounding radius and kind of a live entity.
fn collidable(state: &EntityState, id: u32) -> (r: (Vec2, i64, Kind))
    requires
        state.wf(),
        state.is_live(id),
    ensures
        r.0 == state.positions@[id],
        r.1 == radius(state.scales@[id]),
        -0x4000_0000_0000_0000 <= r.1 <= 0x4000_0000_0000_0000,
        r.2 == state.kinds@[id],
{
    let p = match state.positions.get(&id) {
        Some(p) => *p,
        None => Vec2::zero(),
    };
    let s = match state.scales.get(&id) {
        Some(s) => *s,
        None => Vec2::zero(),
    };
    let k = match state.kinds.get(&id) {
        Some(k) => *k,
        None => Kind::PlayerShip,
    };
    let larger = if s.x >= s.y {
        s.x
    } else {
        s.y
    };
    let r = floor_div(larger as i128, 2);
    (p, r as i64, k)
}

/// Whether two on-screen circles overlap.
fn circles_overlap(pa: Vec2, ra: i64, pb: Vec2, rb: i64) -> (r: bool)
    requires
        on_screen(pa),
        on_screen(pb),
        -0x4000_0000_0000_0000 <= ra <= 0x4000_0000_0000_0000,
        -0x4000_0000_0000_0000 <= rb <= 0x4000_0000_0000_0000,
    ensures
        r == overlaps(pa, ra as int, pb, rb as int),
{
    let dx = (pb.x as i128) - (pa.x as i128);
    let dy = (pb.y as i128) - (pa.y as i128);
    let reach = (ra as i128) + (rb as i128);
    assert(0 <= dx * dx <= 1_000_000_000 * 1_000_000_000) by (nonlinear_arith)
        requires
            -1_000_000_000 <= dx <= 1_000_000_000,
    ;
    assert(0 <= dy * dy <= 1_000_000_000 * 1_000_000_000) by (nonlinear_arith)
        requires
            -1_000_000_000 <= dy <= 1_000_000_000,
    ;
    assert(0 <= reach * reach <= 0x8000_0000_0000_0000 * 0x8000_0000_0000_0000)
        by (nonlinear_arith)
        requires
            -0x8000_0000_0000_0000 <= reach <= 0x8000_0000_0000_0000,
    ;
    dx * dx + dy * dy < reach * reach
}

/// Every ordered pair of distinct listed entities whose bounding circles
/// overlap, each with its kind: an overlapping pair is reported in both orders.
pub fn find_collisions(state: &EntityState, entities: &[Entity]) -> (r: Vec<(Contact, Contact)>)
    requires
        state.wf(),
        forall|i: int| 0 <= i < entities@.len() ==> state.is_live(#[trigger] entities@[i].id),
    ensures
        forall|c: (Contact, Contact)| #[trigger] r@.contains(c) <==> reports(*state, entities@, c),
{
    let ghost es = entities@;
    let mut r: Vec<(Contact, Contact)> = Vec::new();
    let mut i: usize = 0;
    while i < entities.len()
        invariant
            state.wf(),
            es == entities@,
            forall|k: int| 0 <= k < es.len() ==> state.is_live(#[trigger] es[k].id),
            0 <= i <= es.len(),
            forall|c: (Contact, Contact)| #[trigger] r@.contains(c) ==> reports(*state, es, c),
            forall|x: int, y: int|
                0 <= x < i && 0 <= y < es.len() && collide(*state, es[x].id, es[y].id)
                    ==> r@.contains(#[trigger] pair_at(*state, es, x, y)),
        decreases es.len() - i,
    {
        let a = entities[i].id;
        let (pa, ra, ka) = collidable(state, a);
        let mut j: usize = 0;
        while j < entities.len()
            invariant
                state.wf(),
                es == entities@,
                forall|k: int| 0 <= k < es.len() ==> state.is_live(#[trigger] es[k].id),
                0 <= i < es.len(),
                0 <= j <= es.len(),
                a == es[i as int].id,
                pa == state.positions@[a],
                ra == radius(state.scales@[a]),
                ka == state.kinds@[a],
                forall|c: (Contact, Contact)| #[trigger] r@.contains(c) ==> reports(*state, es, c),
                forall|x: int, y: int|
                    0 <= x < i && 0 <= y < es.len() && collide(*state, es[x].id, es[y].id)
                        ==> r@.contains(#[trigger] pair_at(*state, es, x, y)),
                forall|y: int|
                    0 <= y < j && collide(*state, a, es[y].id)
                        ==> r@.contains(#[trigger] pair_at(*state, es, i as int, y)),
            decreases es.len() - j,
        {
            let b = entities[j].id;
            let (pb, rb, kb) = collidable(state, b);
            assert(state.is_live(es[j as int].id));
            if a != b && circles_overlap(pa, ra, pb, rb) {
                let ghost before = r@;
                r.push(((a, ka), (b, kb)));
                proof {
                    assert(r@.last() == ((a, ka), (b, kb)));
                    assert(r@.contains(((a, ka), (b, kb))));
                    assert forall|c: (Contact, Contact)| #[trigger] r@.contains(c) implies reports(*state, es, c) by {
                        if c != ((a, ka), (b, kb)) {
                            let k = choose|k: int| 0 <= k < r@.len() && r@[k] == c;
                            assert(before[k] == c);
                            assert(before.contains(c));
                        } else {
                            assert(es[i as int].id == a);
                            assert(es[j as int].id == b);
                        }
                    }
                    assert forall|c: (Contact, Contact)| before.contains(c) implies #[trigger] r@.contains(c) by {
                        let k = choose|k: int| 0 <= k < before.len() && before[k] == c;
                        assert(r@[k] == c);
                    }
                }
            }
            j = j + 1;
        }
        i = i + 1;
    }
    proof {
        assert forall|c: (Contact, Contact)| reports(*state, es, c) implies #[trigger] r@.contains(c) by {
            let x = choose|x: int| 0 <= x < es.len() && (#[trigger] es[x]).id == c.0.0;
            let y = choose|y: int| 0 <= y < es.len() && (#[trigger] es[y]).id == c.1.0;
            assert(c == pair_at(*state, es, x, y));
        }
    }
    r
}

} // verus!

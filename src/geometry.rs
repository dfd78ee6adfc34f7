//! Fixed-point plane geometry on the 800 x 600 pixel screen.
use vstd::prelude::*;

verus! {

/// Micro-units in one pixel, and microseconds in one second.
pub const MICROS: i64 = 1_000_000;

/// Width of the screen in micro-pixels (800 px).
pub const SCREEN_WIDTH: i64 = 800_000_000;

/// Height of the screen in micro-pixels (600 px).
pub const SCREEN_HEIGHT: i64 = 600_000_000;

/// Fixed-point scale of a heading vector: a unit vector has length `UNIT`.
pub const UNIT: i64 = 1_000_000;

/// Number of whole-degree headings in a turn.
pub const DEGREES: i64 = 360;

/// A two-dimensional integer vector.
#[derive(Clone, Copy, Debug, PartialEq, Eq, Structural)]
pub struct Vec2 {
    pub x: i64,
    pub y: i64,
}

impl Vec2 {
    pub fn new(x: i64, y: i64) -> (r: Vec2)
        ensures
            r.x == x,
            r.y == y,
    {
        Vec2 { x, y }
    }

    pub fn zero() -> (r: Vec2)
        ensures
            r.x == 0,
            r.y == 0,
    {
        Vec2 { x: 0, y: 0 }
    }
}

/// The point lies on the screen, borders included.
pub open spec fn on_screen(p: Vec2) -> bool {
    &&& 0 <= p.x <= SCREEN_WIDTH
    &&& 0 <= p.y <= SCREEN_HEIGHT
}

/// Both components lie within one unit of heading.
pub open spec fn within_unit(v: Vec2) -> bool {
    &&& -UNIT <= v.x <= UNIT
    &&& -UNIT <= v.y <= UNIT
}

/// Single-step teleport wrap of one coordinate onto `[0, extent]`.
pub open spec fn wrap_axis(c: int, extent: int) -> int {
    if c < 0 {
        extent
    } else if c > extent {
        0
    } else {
        c
    }
}

/// Wraps one coordinate: below zero goes to `extent`, beyond `extent` goes to zero.
pub fn wrap_coordinate(c: i128, extent: i64) -> (r: i64)
    requires
        extent >= 0,
    ensures
        r == wrap_axis(c as int, extent as int),
{
    if c < 0 {
        extent
    } else if c > extent as i128 {
        0
    } else {
        c as i64
    }
}

/// The point that a free position maps to after wrap-around.
pub open spec fn wrap_point(x: int, y: int) -> Vec2 {
    Vec2 {
        x: wrap_axis(x, SCREEN_WIDTH as int) as i64,
        y: wrap_axis(y, SCREEN_HEIGHT as int) as i64,
    }
}

/// Wrap-around keeps points on the screen, leaves points on it where they are,
/// and sends a point past one border to the opposite one.
pub proof fn lemma_wrap_around(x: int, y: int)
    ensures
        on_screen(wrap_point(x, y)),
        0 <= x <= SCREEN_WIDTH && 0 <= y <= SCREEN_HEIGHT ==> wrap_point(x, y).x == x
            && wrap_point(x, y).y == y,
        x > SCREEN_WIDTH ==> wrap_point(x, y).x == 0,
        x < 0 ==> wrap_point(x, y).x == SCREEN_WIDTH,
        y > SCREEN_HEIGHT ==> wrap_point(x, y).y == 0,
        y < 0 ==> wrap_point(x, y).y == SCREEN_HEIGHT,
{
}

/// Unit heading vectors for each whole degree, `0` pointing up the screen.
///
/// Entry `d` holds `(sin d, -cos d)` scaled by `UNIT`; the table is computed
/// outside this library, which only relies on its shape and bounds.
pub struct HeadingTable {
    pub units: Vec<Vec2>,
}

impl HeadingTable {
    pub open spec fn wf(&self) -> bool {
        &&& self.units@.len() == DEGREES
        &&& forall|i: int| 0 <= i < DEGREES ==> within_unit(#[trigger] self.units@[i])
    }

    /// The heading vector of an unbounded angle in degrees.
    pub open spec fn spec_heading(&self, direction: int) -> Vec2 {
        self.units@[direction % (DEGREES as int)]
    }

    /// Builds a table from one vector per degree; `None` unless there are
    /// exactly 360 vectors, each within one unit per component.
    pub fn new(units: Vec<Vec2>) -> (r: Option<HeadingTable>)
        ensures
            r is Some <==> (units@.len() == DEGREES && forall|i: int|
                0 <= i < units@.len() ==> within_unit(#[trigger] units@[i])),
            r matches Some(t) ==> t.units@ == units@ && t.wf(),
    {
        if units.len() != DEGREES as usize {
            return None;
        }
        let mut i: usize = 0;
        while i < units.len()
            invariant
                0 <= i <= units@.len(),
                forall|j: int| 0 <= j < i ==> within_unit(#[trigger] units@[j]),
            decreases units@.len() - i,
        {
            let v = units[i];
            if v.x < -UNIT || v.x > UNIT || v.y < -UNIT || v.y > UNIT {
                return None;
            }
            i = i + 1;
        }
        Some(HeadingTable { units })
    }

    /// The heading vector of `direction`, taken modulo 360 degrees.
    pub fn heading(&self, direction: i64) -> (r: Vec2)
        requires
            self.wf(),
        ensures
            r == self.spec_heading(direction as int),
            within_unit(r),
    {
        let index = match direction.checked_rem_euclid(DEGREES) {
            Some(m) => m,
            None => 0,
        };
        self.units[index as usize]
    }
}

} // verus!

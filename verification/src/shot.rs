//! A shot fired by the player: it climbs its column at a fixed pace.
use vstd::prelude::*;

verus! {

/// Microseconds a shot takes to climb one row.
pub const SHOT_STEP_US: u64 = 50_000;

/// A shot in flight.
#[derive(Clone, Copy, Debug, PartialEq, Eq)]
pub struct Shot {
    /// Column of the shot.
    pub x: usize,
    /// Row of the shot; row 0 is the top of the grid.
    pub y: usize,
    /// Microseconds flown since the shot last climbed a row.
    pub since_step: u64,
}

impl Shot {
    /// Whether the shot is at the cell `(x, y)`.
    pub open spec fn at(self, x: int, y: int) -> bool {
        self.x == x && self.y == y
    }

    /// Rows the shot climbs when `delta` more microseconds pass: one for
    /// every full step of flight time, the time already flown since the last
    /// step included.
    pub open spec fn rows_climbed(self, delta: u64) -> int {
        (self.since_step + delta) / (SHOT_STEP_US as int)
    }

    /// The shot after `delta` more microseconds, or `None` where it has left
    /// the grid over the top.
    pub open spec fn advanced(self, delta: u64) -> Option<Shot> {
        if self.rows_climbed(delta) > self.y {
            None
        } else {
            Some(
                Shot {
                    x: self.x,
                    y: (self.y - self.rows_climbed(delta)) as usize,
                    since_step: ((self.since_step + delta) % (SHOT_STEP_US as int)) as u64,
                },
            )
        }
    }

    /// A shot that has just been fired from the cell `(x, y)`.
    pub fn new(x: usize, y: usize) -> (shot: Shot)
        ensures
            shot == (Shot { x, y, since_step: 0 }),
    {
        Shot { x, y, since_step: 0 }
    }

    /// Lets `delta` microseconds pass: the shot climbs, or leaves the grid.
    pub fn advance(self, delta: u64) -> (next: Option<Shot>)
        ensures
            next == self.advanced(delta),
    {
        let flown: u128 = self.since_step as u128 + delta as u128;
        let rows: u128 = flown / (SHOT_STEP_US as u128);
        if rows > self.y as u128 {
            None
        } else {
            Some(
                Shot {
                    x: self.x,
                    y: self.y - rows as usize,
                    since_step: (flown % (SHOT_STEP_US as u128)) as u64,
                },
            )
        }
    }
}

/// A shot climbs in proportion to the time that passes: two spans of time
/// one after the other take it where their sum takes it at once, and it has
/// left the grid after the two exactly where it has left after the sum.
pub proof fn lemma_advance_adds_up(shot: Shot, first: u64, second: u64)
    requires
        shot.since_step < SHOT_STEP_US,
        first + second <= u64::MAX,
    ensures
        shot.advanced((first + second) as u64) == match shot.advanced(first) {
            Some(between) => between.advanced(second),
            None => None,
        },
{
    let step = SHOT_STEP_US as int;
    let flown = shot.since_step + first;
    assert((flown % step + second) / step == (flown + second) / step - flown / step
        && (flown % step + second) % step == (flown + second) % step) by {
        vstd::arithmetic::div_mod::lemma_fundamental_div_mod(flown, step);
        vstd::arithmetic::div_mod::lemma_fundamental_div_mod(flown % step + second, step);
        vstd::arithmetic::div_mod::lemma_fundamental_div_mod_converse(
            flown + second,
            step,
            flown / step + (flown % step + second) / step,
            (flown % step + second) % step,
        );
    }
}

} // verus!

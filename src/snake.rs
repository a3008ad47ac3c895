use vstd::prelude::*;
use crate::geometry::{fits_i64, Coordinates, Rotation, Velocity, LENGTH_SCALE, SPEED_SCALE};
use crate::text::{fixed_text, push_fixed};

verus! {

/// The rectangle-bounded path that a snake covered in one update.
#[derive(Clone, Copy, Debug, PartialEq, Eq, Structural)]
pub struct SweepArea {
    pub start_loc: Coordinates,
    pub end_loc: Coordinates,
    pub width: i64,
}

impl SweepArea {
    /// `sweep area from (x.x,y.y) to (x.x,y.y), w.w`.
    pub open spec fn text(self) -> Seq<char> {
        "sweep area from "@ + self.start_loc.text() + " to "@ + self.end_loc.text() + ", "@
            + fixed_text(self.width as int, LENGTH_SCALE as nat, 1, false)
    }

    pub fn to_text(&self) -> (r: String)
        ensures
            r@ == self.text(),
    {
        let mut out = String::from_str("sweep area from ");
        self.start_loc.push_text(&mut out);
        out.append(" to ");
        self.end_loc.push_text(&mut out);
        out.append(", ");
        push_fixed(&mut out, self.width, LENGTH_SCALE as u64, 1, false);
        assert(out@ =~= self.text());
        out
    }
}

/// A snake: where it is, how it moves, when its location was last settled and
/// how big it has grown.
#[derive(Clone, Copy, Debug, PartialEq, Eq, Structural)]
pub struct Snake {
    pub location: Coordinates,
    pub velocity: Velocity,
    pub last_updated: i64,
    pub size: i64,
}

impl Snake {
    /// A snake born at `event_time`: at the origin, headed north at one unit
    /// per second, of size one.
    pub open spec fn newborn(event_time: i64) -> Snake {
        Snake {
            location: Coordinates { x: 0, y: 0 },
            velocity: Velocity { delta_x: 0, delta_y: SPEED_SCALE },
            last_updated: event_time,
            size: LENGTH_SCALE,
        }
    }

    /// Where the snake is at `game_time` on its present heading, before
    /// bounds: `location + velocity * (game_time - last_updated)`.
    pub open spec fn reach_x(self, game_time: i64) -> int {
        self.location.x + self.velocity.delta_x * (game_time - self.last_updated)
    }

    pub open spec fn reach_y(self, game_time: i64) -> int {
        self.location.y + self.velocity.delta_y * (game_time - self.last_updated)
    }

    /// True when the location at `game_time` can be held in `Coordinates`.
    pub open spec fn update_fits(self, game_time: i64) -> bool {
        fits_i64(self.reach_x(game_time)) && fits_i64(self.reach_y(game_time))
    }

    /// The snake with its location settled at `game_time`.
    pub open spec fn updated(self, game_time: i64) -> Snake {
        Snake {
            location: Coordinates {
                x: self.reach_x(game_time) as i64,
                y: self.reach_y(game_time) as i64,
            },
            last_updated: game_time,
            ..self
        }
    }

    /// The area covered while settling the location at `game_time`.
    pub open spec fn sweep(self, game_time: i64) -> SweepArea {
        SweepArea {
            start_loc: self.location,
            end_loc: self.updated(game_time).location,
            width: self.size,
        }
    }

    /// True when a turn by `rot` at `event_time` stays within bounds.
    pub open spec fn turn_fits(self, rot: Rotation, event_time: i64) -> bool {
        self.update_fits(event_time) && rot.turn_fits(self.velocity)
    }

    /// The snake settled at `event_time` and then turned by `rot`.
    pub open spec fn turned(self, rot: Rotation, event_time: i64) -> Snake {
        Snake { velocity: rot.apply(self.velocity), ..self.updated(event_time) }
    }

    /// The snake after eating food of the given nutrition.
    pub open spec fn fed(self, nutrition: i64) -> Snake {
        Snake { size: (self.size + nutrition / 10) as i64, ..self }
    }

    pub fn new(event_time: i64) -> (s: Snake)
        ensures
            s == Snake::newborn(event_time),
    {
        Snake {
            location: Coordinates { x: 0, y: 0 },
            velocity: Velocity { delta_x: 0, delta_y: SPEED_SCALE },
            last_updated: event_time,
            size: LENGTH_SCALE,
        }
    }

    /// Tells whether `update(game_time)` stays within bounds.
    pub fn can_update(&self, game_time: i64) -> (r: bool)
        ensures
            r == self.update_fits(game_time),
    {
        let delta_t: i128 = game_time as i128 - self.last_updated as i128;
        proof {
            lemma_step_bound(self.velocity.delta_x as int, delta_t as int);
            lemma_step_bound(self.velocity.delta_y as int, delta_t as int);
        }
        let x: i128 = self.location.x as i128 + self.velocity.delta_x as i128 * delta_t;
        let y: i128 = self.location.y as i128 + self.velocity.delta_y as i128 * delta_t;
        i64::MIN as i128 <= x && x <= i64::MAX as i128 && i64::MIN as i128 <= y && y
            <= i64::MAX as i128
    }

    /// Settles the location at `game_time` by moving along the velocity for
    /// the time passed since the last update (backwards, if `game_time` is
    /// earlier), and returns the area covered.
    pub fn update(&mut self, game_time: i64) -> (covered: SweepArea)
        requires
            old(self).update_fits(game_time),
        ensures
            *final(self) == old(self).updated(game_time),
            covered == old(self).sweep(game_time),
    {
        let start_loc = self.location;
        let width = self.size;
        let delta_t: i128 = game_time as i128 - self.last_updated as i128;
        proof {
            lemma_step_bound(self.velocity.delta_x as int, delta_t as int);
            lemma_step_bound(self.velocity.delta_y as int, delta_t as int);
        }
        let x: i128 = self.location.x as i128 + self.velocity.delta_x as i128 * delta_t;
        let y: i128 = self.location.y as i128 + self.velocity.delta_y as i128 * delta_t;
        self.last_updated = game_time;
        self.location = Coordinates { x: x as i64, y: y as i64 };
        SweepArea { start_loc, end_loc: self.location, width }
    }

    /// Settles the location at `event_time`, then turns the heading by `rot`;
    /// returns the area covered before the turn.
    pub fn turn(&mut self, rot: Rotation, event_time: i64) -> (covered: SweepArea)
        requires
            rot.wf(),
            old(self).turn_fits(rot, event_time),
        ensures
            *final(self) == old(self).turned(rot, event_time),
            covered == old(self).sweep(event_time),
    {
        let covered = self.update(event_time);
        self.velocity = rot.rotate(self.velocity);
        covered
    }

    /// Grows by a tenth of `nutrition` (rounded down to the length grid).
    pub fn eat(&mut self, nutrition: i64)
        requires
            fits_i64(old(self).size + nutrition / 10),
        ensures
            *final(self) == old(self).fed(nutrition),
    {
        let growth = crate::geometry::floor_div_i128(nutrition as i128, 10);
        self.size = (self.size as i128 + growth) as i64;
    }

    pub fn get_location(&self) -> (r: Coordinates)
        ensures
            r == self.location,
    {
        self.location
    }

    pub fn get_velocity(&self) -> (r: Velocity)
        ensures
            r == self.velocity,
    {
        self.velocity
    }

    pub fn get_size(&self) -> (r: i64)
        ensures
            r == self.size,
    {
        self.size
    }

    /// `Snake at (x.x,y.y), vel <x.x,y.y>, size s.s`.
    pub open spec fn text(self) -> Seq<char> {
        "Snake at "@ + self.location.text() + ", vel "@ + self.velocity.text() + ", size "@
            + fixed_text(self.size as int, LENGTH_SCALE as nat, 1, false)
    }

    pub fn to_text(&self) -> (r: String)
        ensures
            r@ == self.text(),
    {
        let mut out = String::from_str("Snake at ");
        self.location.push_text(&mut out);
        out.append(", vel ");
        self.velocity.push_text(&mut out);
        out.append(", size ");
        push_fixed(&mut out, self.size, LENGTH_SCALE as u64, 1, false);
        assert(out@ =~= self.text());
        out
    }
}

proof fn lemma_step_bound(v: int, dt: int)
    requires
        fits_i64(v),
        -0xFFFF_FFFF_FFFF_FFFF <= dt <= 0xFFFF_FFFF_FFFF_FFFF,
    ensures
        -0x8000_0000_0000_0000 * 0xFFFF_FFFF_FFFF_FFFF <= v * dt <= 0x8000_0000_0000_0000
            * 0xFFFF_FFFF_FFFF_FFFF,
{
    assert(-0x8000_0000_0000_0000 * 0xFFFF_FFFF_FFFF_FFFF <= v * dt <= 0x8000_0000_0000_0000
        * 0xFFFF_FFFF_FFFF_FFFF) by (nonlinear_arith)
        requires
            -0x8000_0000_0000_0000 <= v <= 0x8000_0000_0000_0000,
            -0xFFFF_FFFF_FFFF_FFFF <= dt <= 0xFFFF_FFFF_FFFF_FFFF,
    ;
}

} // verus!

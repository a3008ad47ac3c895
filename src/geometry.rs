use vstd::prelude::*;
use crate::text::{fixed_text, push_fixed};

verus! {

/// Nano-units of length in one unit: positions, sizes and nutrition.
pub const LENGTH_SCALE: i64 = 1_000_000_000;

/// Steps of speed in one unit of length per second (micro-units per second).
pub const SPEED_SCALE: i64 = 1_000_000;

/// Milliseconds of simulated time in one second.
pub const TIME_SCALE: i64 = 1_000;

/// Micro-radians in one radian.
pub const ANGLE_SCALE: i64 = 1_000_000;

/// The fixed-point scale of a rotation's cosine and sine.
pub const TRIG_SCALE: i64 = 1_000_000_000;

/// A point in the arena, in nano-units.
#[derive(Clone, Copy, Debug, PartialEq, Eq, Structural)]
pub struct Coordinates {
    pub x: i64,
    pub y: i64,
}

/// A direction-and-speed vector, in micro-units per second; not normalised.
#[derive(Clone, Copy, Debug, PartialEq, Eq, Structural)]
pub struct Velocity {
    pub delta_x: i64,
    pub delta_y: i64,
}

/// A turn by `rad` micro-radians, carried together with its cosine and sine
/// (both scaled by `TRIG_SCALE`).
#[derive(Clone, Copy, Debug, PartialEq, Eq, Structural)]
pub struct Rotation {
    pub rad: i64,
    pub cos: i64,
    pub sin: i64,
}

/// True when `v` can be held in an `i64`.
pub open spec fn fits_i64(v: int) -> bool {
    i64::MIN <= v <= i64::MAX
}

/// `a / b` rounded towards negative infinity, for a positive `b`.
pub open spec fn floor_div(a: int, b: int) -> int {
    a / b
}

/// Computes `floor_div(a, b)` on machine integers.
pub fn floor_div_i128(a: i128, b: i128) -> (r: i128)
    requires
        0 < b,
        a > i128::MIN,
    ensures
        r == floor_div(a as int, b as int),
{
    if a >= 0 {
        a / b
    } else {
        let m: i128 = -a;
        let q: i128 = (m - 1) / b;
        proof {
            lemma_neg_floor(m as int, b as int);
        }
        -q - 1
    }
}

proof fn lemma_neg_floor(m: int, b: int)
    requires
        0 < m,
        0 < b,
    ensures
        (-m) / b == -((m - 1) / b) - 1,
{
    let q = (m - 1) / b;
    let r = (m - 1) % b;
    assert(m - 1 == b * q + r && 0 <= r < b) by {
        vstd::arithmetic::div_mod::lemma_fundamental_div_mod(m - 1, b);
    };
    // -m = b * (-q - 1) + (b - 1 - r), with 0 <= b - 1 - r < b
    assert(-m == (-q - 1) * b + (b - 1 - r)) by (nonlinear_arith)
        requires
            m - 1 == b * q + r,
    ;
    vstd::arithmetic::div_mod::lemma_fundamental_div_mod_converse(-m, b, -q - 1, b - 1 - r);
}

impl Rotation {
    /// A rotation's cosine and sine lie in [-1, 1].
    pub open spec fn wf(self) -> bool {
        -TRIG_SCALE <= self.cos <= TRIG_SCALE && -TRIG_SCALE <= self.sin <= TRIG_SCALE
    }

    /// `v` rotated by this rotation, `(vx cos - vy sin, vx sin + vy cos)`,
    /// each rounded to the nearest step of speed (halves upwards).
    pub open spec fn rotated_x(self, v: Velocity) -> int {
        floor_div(v.delta_x * self.cos - v.delta_y * self.sin + TRIG_SCALE / 2, TRIG_SCALE as int)
    }

    pub open spec fn rotated_y(self, v: Velocity) -> int {
        floor_div(v.delta_x * self.sin + v.delta_y * self.cos + TRIG_SCALE / 2, TRIG_SCALE as int)
    }

    /// True when `v` turned by this rotation can be held in a `Velocity`.
    pub open spec fn turn_fits(self, v: Velocity) -> bool {
        fits_i64(self.rotated_x(v)) && fits_i64(self.rotated_y(v))
    }

    /// `v` turned by this rotation.
    pub open spec fn apply(self, v: Velocity) -> Velocity {
        Velocity { delta_x: self.rotated_x(v) as i64, delta_y: self.rotated_y(v) as i64 }
    }

    /// Tells whether this is a rotation that can turn `v` within bounds.
    pub fn can_turn(&self, v: Velocity) -> (r: bool)
        ensures
            r == (self.wf() && self.turn_fits(v)),
    {
        if self.cos < -TRIG_SCALE || self.cos > TRIG_SCALE || self.sin < -TRIG_SCALE || self.sin
            > TRIG_SCALE {
            return false;
        }
        let vx = v.delta_x as i128;
        let vy = v.delta_y as i128;
        let c = self.cos as i128;
        let s = self.sin as i128;
        proof {
            lemma_product_bound(v.delta_x as int, self.cos as int);
            lemma_product_bound(v.delta_y as int, self.sin as int);
            lemma_product_bound(v.delta_x as int, self.sin as int);
            lemma_product_bound(v.delta_y as int, self.cos as int);
        }
        let half = (TRIG_SCALE / 2) as i128;
        let x = floor_div_i128(vx * c - vy * s + half, TRIG_SCALE as i128);
        let y = floor_div_i128(vx * s + vy * c + half, TRIG_SCALE as i128);
        i64::MIN as i128 <= x && x <= i64::MAX as i128 && i64::MIN as i128 <= y && y
            <= i64::MAX as i128
    }

    /// Turns `v` by this rotation.
    pub fn rotate(&self, v: Velocity) -> (r: Velocity)
        requires
            self.wf(),
            self.turn_fits(v),
        ensures
            r == self.apply(v),
    {
        let vx = v.delta_x as i128;
        let vy = v.delta_y as i128;
        let c = self.cos as i128;
        let s = self.sin as i128;
        proof {
            lemma_product_bound(v.delta_x as int, self.cos as int);
            lemma_product_bound(v.delta_y as int, self.sin as int);
            lemma_product_bound(v.delta_x as int, self.sin as int);
            lemma_product_bound(v.delta_y as int, self.cos as int);
        }
        let half = (TRIG_SCALE / 2) as i128;
        let px: i128 = vx * c - vy * s + half;
        let py: i128 = vx * s + vy * c + half;
        let x = floor_div_i128(px, TRIG_SCALE as i128);
        let y = floor_div_i128(py, TRIG_SCALE as i128);
        Velocity { delta_x: x as i64, delta_y: y as i64 }
    }
}

proof fn lemma_product_bound(a: int, c: int)
    requires
        fits_i64(a),
        -TRIG_SCALE <= c <= TRIG_SCALE,
    ensures
        -0x1_0000_0000_0000_0000_0000_0000 < a * c < 0x1_0000_0000_0000_0000_0000_0000,
{
    assert(-0x8000_0000_0000_0000 * 1_000_000_000 <= a * c <= 0x8000_0000_0000_0000 * 1_000_000_000)
        by (nonlinear_arith)
        requires
            -0x8000_0000_0000_0000 <= a <= 0x8000_0000_0000_0000,
            -1_000_000_000 <= c <= 1_000_000_000,
    ;
}

impl Coordinates {
    /// `(x.x,y.y)`, in units, with one decimal.
    pub open spec fn text(self) -> Seq<char> {
        "("@ + fixed_text(self.x as int, LENGTH_SCALE as nat, 1, false) + ","@ + fixed_text(
            self.y as int,
            LENGTH_SCALE as nat,
            1,
            false,
        ) + ")"@
    }

    pub fn push_text(&self, out: &mut String)
        ensures
            final(out)@ == old(out)@ + self.text(),
    {
        out.append("(");
        push_fixed(out, self.x, LENGTH_SCALE as u64, 1, false);
        out.append(",");
        push_fixed(out, self.y, LENGTH_SCALE as u64, 1, false);
        out.append(")");
        assert(final(out)@ =~= old(out)@ + self.text());
    }

    pub fn to_text(&self) -> (r: String)
        ensures
            r@ == self.text(),
    {
        let mut out = String::new();
        self.push_text(&mut out);
        assert(out@ =~= self.text());
        out
    }
}

impl Velocity {
    /// `<x.x,y.y>`, in units per second, with one decimal.
    pub open spec fn text(self) -> Seq<char> {
        "<"@ + fixed_text(self.delta_x as int, SPEED_SCALE as nat, 1, false) + ","@ + fixed_text(
            self.delta_y as int,
            SPEED_SCALE as nat,
            1,
            false,
        ) + ">"@
    }

    pub fn push_text(&self, out: &mut String)
        ensures
            final(out)@ == old(out)@ + self.text(),
    {
        out.append("<");
        push_fixed(out, self.delta_x, SPEED_SCALE as u64, 1, false);
        out.append(",");
        push_fixed(out, self.delta_y, SPEED_SCALE as u64, 1, false);
        out.append(">");
        assert(final(out)@ =~= old(out)@ + self.text());
    }

    pub fn to_text(&self) -> (r: String)
        ensures
            r@ == self.text(),
    {
        let mut out = String::new();
        self.push_text(&mut out);
        assert(out@ =~= self.text());
        out
    }
}

} // verus!

use vstd::prelude::*;
use crate::geometry::{Coordinates, LENGTH_SCALE};
use crate::text::{fixed_text, push_fixed};

verus! {

/// A piece of food lying at a fixed place.
#[derive(Clone, Copy, Debug, PartialEq, Eq, Structural)]
pub struct Food {
    pub location: Coordinates,
    pub nutrition: i64,
}

impl Food {
    /// Food placed at `(x, y)`, worth one unit of nutrition.
    pub open spec fn placed(x: i64, y: i64) -> Food {
        Food { location: Coordinates { x, y }, nutrition: LENGTH_SCALE }
    }

    pub fn new(x_placement: i64, y_placement: i64) -> (f: Food)
        ensures
            f == Food::placed(x_placement, y_placement),
    {
        Food { location: Coordinates { x: x_placement, y: y_placement }, nutrition: LENGTH_SCALE }
    }

    pub fn get_location(&self) -> (r: Coordinates)
        ensures
            r == self.location,
    {
        self.location
    }

    pub fn get_nutrition(&self) -> (r: i64)
        ensures
            r == self.nutrition,
    {
        self.nutrition
    }

    /// `loc = (x.x, y.y), nutrition = n.n`.
    pub open spec fn text(self) -> Seq<char> {
        "loc = ("@ + fixed_text(self.location.x as int, LENGTH_SCALE as nat, 1, false) + ", "@
            + fixed_text(self.location.y as int, LENGTH_SCALE as nat, 1, false) + "), nutrition = "@
            + fixed_text(self.nutrition as int, LENGTH_SCALE as nat, 1, false)
    }

    pub fn to_text(&self) -> (r: String)
        ensures
            r@ == self.text(),
    {
        let mut out = String::from_str("loc = (");
        push_fixed(&mut out, self.location.x, LENGTH_SCALE as u64, 1, false);
        out.append(", ");
        push_fixed(&mut out, self.location.y, LENGTH_SCALE as u64, 1, false);
        out.append("), nutrition = ");
        push_fixed(&mut out, self.nutrition, LENGTH_SCALE as u64, 1, false);
        assert(out@ =~= self.text());
        out
    }
}

} // verus!

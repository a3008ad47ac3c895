use vstd::prelude::*;
use rand::Rng;
use crate::eventqueue::{Event, EventKind, EventQueue};
use crate::food::Food;
use crate::geometry::{fits_i64, Coordinates, Rotation, LENGTH_SCALE, TRIG_SCALE};
use crate::snake::{Snake, SweepArea};

verus! {

/// The most food slots a game holds: few enough that every food id fits a
/// `usize` on any target, and that a snake eating all of them (a tenth of a
/// unit each) keeps a size that fits an `i64`.
pub const MAX_FOOD: u64 = 4_000_000_000;

/// `n` units of length.
pub open spec fn units(n: int) -> i64 {
    (n * LENGTH_SCALE) as i64
}

/// How many pieces of food a new game starts with.
pub const SEED_FOOD: usize = 9;

/// How much a snake grows by eating one piece of food.
pub open spec fn growth() -> int {
    100_000_000
}

/// The error of every lookup of a snake or a piece of food that is not there.
#[derive(Clone, Copy, Debug, PartialEq, Eq, Structural)]
pub struct NotFound;

impl NotFound {
    pub fn to_text(&self) -> (r: String)
        ensures
            r@ == "No such item!"@,
    {
        String::from_str("No such item!")
    }
}

/// The number of food slots that still hold food.
pub open spec fn live_count(foods: Seq<Option<Food>>) -> nat
    decreases foods.len(),
{
    if foods.len() == 0 {
        0
    } else {
        live_count(foods.drop_last()) + if foods.last() is Some {
            1nat
        } else {
            0nat
        }
    }
}

/// True when `loc` lies strictly inside the bounding box of the sweep, grown
/// on every side by half the sweep's width.
pub open spec fn inside(loc: Coordinates, a: SweepArea) -> bool {
    let w = a.width as int;
    let (x0, x1) = if a.start_loc.x <= a.end_loc.x {
        (a.start_loc.x as int, a.end_loc.x as int)
    } else {
        (a.end_loc.x as int, a.start_loc.x as int)
    };
    let (y0, y1) = if a.start_loc.y <= a.end_loc.y {
        (a.start_loc.y as int, a.end_loc.y as int)
    } else {
        (a.end_loc.y as int, a.start_loc.y as int)
    };
    &&& 2 * x0 - w < 2 * loc.x
    &&& 2 * loc.x < 2 * x1 + w
    &&& 2 * y0 - w < 2 * loc.y
    &&& 2 * loc.y < 2 * y1 + w
}

/// The state of a game: arena size, simulated time, the snakes by id, the food
/// slots by id (emptied when eaten) and the event log.
pub struct GameView {
    pub size: i64,
    pub time: i64,
    pub snakes: Seq<Snake>,
    pub foods: Seq<Option<Food>>,
    pub events: Seq<Event>,
}

impl GameView {
    /// Every piece of food is worth one unit, the food slots are few enough,
    /// and each snake has grown by at most one step per slot emptied.
    pub open spec fn wf(self) -> bool {
        &&& self.foods.len() <= MAX_FOOD
        &&& forall|j: int|
            0 <= j < self.foods.len() && #[trigger] self.foods[j] is Some ==> self.foods[j].unwrap().nutrition
                == LENGTH_SCALE
        &&& forall|k: int|
            0 <= k < self.snakes.len() ==> #[trigger] self.snakes[k].size + growth() * live_count(
                self.foods,
            ) <= LENGTH_SCALE + growth() * self.foods.len()
    }

    /// Snake `k` eats the food in slot `j`, if there is any and it lies inside
    /// the sweep `a`: the slot is emptied, the snake grows, and the meal is
    /// logged at the present time.
    pub open spec fn eat_step(self, k: int, j: int, a: SweepArea) -> GameView {
        if self.foods[j] is Some && inside(self.foods[j].unwrap().location, a) {
            GameView {
                snakes: self.snakes.update(k, self.snakes[k].fed(self.foods[j].unwrap().nutrition)),
                foods: self.foods.update(j, None),
                events: self.events.push(
                    Event {
                        kind: EventKind::SnakeAte { snake_id: k as usize, food_id: j as usize },
                        event_time: self.time,
                    },
                ),
                ..self
            }
        } else {
            self
        }
    }

    /// Snake `k` with sweep `a` tries the food slots `0..j`, in ascending order.
    pub open spec fn eat_scan(self, k: int, a: SweepArea, j: nat) -> GameView
        decreases j,
    {
        if j == 0 {
            self
        } else {
            self.eat_scan(k, a, (j - 1) as nat).eat_step(k, j - 1, a)
        }
    }

    /// Snakes `0..k`, in ascending order, each with its sweep, try all food slots.
    pub open spec fn feast(self, sweeps: Seq<SweepArea>, k: nat) -> GameView
        decreases k,
    {
        if k == 0 {
            self
        } else {
            self.feast(sweeps, (k - 1) as nat).eat_scan(
                k - 1,
                sweeps[k - 1],
                self.foods.len(),
            )
        }
    }

    /// The clock after a tick of `delta_t`.
    pub open spec fn tick_time(self, delta_t: i64) -> i64 {
        (self.time + delta_t) as i64
    }

    /// The sweeps of all snakes settled at time `t`.
    pub open spec fn sweeps(self, t: i64) -> Seq<SweepArea> {
        self.snakes.map_values(|s: Snake| s.sweep(t))
    }

    /// All snakes settled at the new time, before any food is eaten.
    pub open spec fn moved(self, delta_t: i64) -> GameView {
        let t = self.tick_time(delta_t);
        GameView { time: t, snakes: self.snakes.map_values(|s: Snake| s.updated(t)), ..self }
    }

    /// The state after a tick of `delta_t >= 0`.
    pub open spec fn advanced(self, delta_t: i64) -> GameView {
        let t = self.tick_time(delta_t);
        self.moved(delta_t).feast(self.sweeps(t), self.snakes.len())
    }

    /// The state after `advance_clock(delta_t)`: a negative `delta_t` changes
    /// nothing.
    pub open spec fn after_advance(self, delta_t: i64) -> GameView {
        if delta_t < 0 {
            self
        } else {
            self.advanced(delta_t)
        }
    }

    /// True when a tick of `delta_t` keeps the clock and every location within
    /// bounds.
    pub open spec fn advance_fits(self, delta_t: i64) -> bool {
        delta_t < 0 || (fits_i64(self.time + delta_t) && forall|k: int|
            0 <= k < self.snakes.len() ==> (#[trigger] self.snakes[k]).update_fits(
                self.tick_time(delta_t),
            ))
    }
}

/// `h` differs from `g` only by meals: the same clock, arena and slots, every
/// snake where it was and headed as it was, none smaller, and the events of
/// `g` still first in the log.
pub open spec fn only_meals(g: GameView, h: GameView) -> bool {
    &&& h.time == g.time
    &&& h.size == g.size
    &&& h.snakes.len() == g.snakes.len()
    &&& h.foods.len() == g.foods.len()
    &&& forall|i: int|
        0 <= i < g.snakes.len() ==> {
            &&& (#[trigger] h.snakes[i]).location == g.snakes[i].location
            &&& h.snakes[i].velocity == g.snakes[i].velocity
            &&& h.snakes[i].last_updated == g.snakes[i].last_updated
            &&& h.snakes[i].size >= g.snakes[i].size
        }
    &&& h.events.len() >= g.events.len()
    &&& h.events.subrange(0, g.events.len() as int) == g.events
}

proof fn lemma_only_meals_trans(a: GameView, b: GameView, c: GameView)
    requires
        only_meals(a, b),
        only_meals(b, c),
    ensures
        only_meals(a, c),
{
    assert forall|i: int| 0 <= i < a.snakes.len() implies {
        &&& (#[trigger] c.snakes[i]).location == a.snakes[i].location
        &&& c.snakes[i].velocity == a.snakes[i].velocity
        &&& c.snakes[i].last_updated == a.snakes[i].last_updated
        &&& c.snakes[i].size >= a.snakes[i].size
    } by {
        assert(b.snakes[i].location == a.snakes[i].location);
    };
    let ca = c.events.subrange(0, a.events.len() as int);
    assert forall|i: int| 0 <= i < a.events.len() implies ca[i] == a.events[i] by {
        assert(c.events.subrange(0, b.events.len() as int)[i] == b.events[i]);
        assert(b.events.subrange(0, a.events.len() as int)[i] == a.events[i]);
    };
    assert(ca =~= a.events);
}

proof fn lemma_live_count_bound(foods: Seq<Option<Food>>)
    ensures
        live_count(foods) <= foods.len(),
    decreases foods.len(),
{
    if foods.len() > 0 {
        lemma_live_count_bound(foods.drop_last());
    }
}

proof fn lemma_live_count_push(foods: Seq<Option<Food>>, x: Option<Food>)
    ensures
        live_count(foods.push(x)) == live_count(foods) + if x is Some {
            1nat
        } else {
            0nat
        },
{
    assert(foods.push(x).drop_last() =~= foods);
}

proof fn lemma_live_count_remove(foods: Seq<Option<Food>>, j: int)
    requires
        0 <= j < foods.len(),
        foods[j] is Some,
    ensures
        live_count(foods.update(j, None)) + 1 == live_count(foods),
    decreases foods.len(),
{
    let u = foods.update(j, None);
    if j == foods.len() - 1 {
        assert(u.drop_last() =~= foods.drop_last());
    } else {
        assert(u.drop_last() =~= foods.drop_last().update(j, None));
        lemma_live_count_remove(foods.drop_last(), j);
    }
}

/// One eating step keeps the game well formed and its shape.
proof fn lemma_eat_step(g: GameView, k: int, j: int, a: SweepArea)
    requires
        g.wf(),
        0 <= k < g.snakes.len(),
        0 <= j < g.foods.len(),
    ensures
        g.eat_step(k, j, a).wf(),
        only_meals(g, g.eat_step(k, j, a)),
        g.eat_step(k, j, a).snakes.len() == g.snakes.len(),
        g.eat_step(k, j, a).foods.len() == g.foods.len(),
        g.eat_step(k, j, a).time == g.time,
        g.eat_step(k, j, a).size == g.size,
{
    let h = g.eat_step(k, j, a);
    assert(h.events.subrange(0, g.events.len() as int) =~= g.events);
    if g.foods[j] is Some && inside(g.foods[j].unwrap().location, a) {
        assert(g.foods[j].unwrap().nutrition / 10 == growth());
        assert(h.snakes[k].size == g.snakes[k].size + growth()) by {
            lemma_meal_fits(g, k, j);
        };
        lemma_live_count_remove(g.foods, j);
        lemma_live_count_bound(g.foods);
        assert forall|i: int| 0 <= i < h.snakes.len() implies #[trigger] h.snakes[i].size + growth()
            * live_count(h.foods) <= LENGTH_SCALE + growth() * h.foods.len() by {
            assert(g.snakes[i].size + growth() * live_count(g.foods) <= LENGTH_SCALE + growth()
                * g.foods.len());
            let lg = live_count(g.foods) as int;
            let lh = live_count(h.foods) as int;
            assert(lh + 1 == lg);
            assert(growth() * lg == growth() * lh + growth());
            if i == k {
                assert(g.foods[j].unwrap().nutrition / 10 == growth());
                assert(g.snakes[k].size + growth() <= LENGTH_SCALE + growth() * g.foods.len());
                assert(h.snakes[k].size == g.snakes[k].size + growth());
            } else {
                assert(h.snakes[i] == g.snakes[i]);
            }
        };
        assert forall|i: int| 0 <= i < h.foods.len() && #[trigger] h.foods[i] is Some implies h.foods[i].unwrap().nutrition
            == LENGTH_SCALE by {
            assert(g.foods[i] is Some);
        };
    }
}

proof fn lemma_eat_scan(g: GameView, k: int, a: SweepArea, j: nat)
    requires
        g.wf(),
        0 <= k < g.snakes.len(),
        j <= g.foods.len(),
    ensures
        g.eat_scan(k, a, j).wf(),
        only_meals(g, g.eat_scan(k, a, j)),
        g.eat_scan(k, a, j).snakes.len() == g.snakes.len(),
        g.eat_scan(k, a, j).foods.len() == g.foods.len(),
        g.eat_scan(k, a, j).time == g.time,
        g.eat_scan(k, a, j).size == g.size,
    decreases j,
{
    if j > 0 {
        lemma_eat_scan(g, k, a, (j - 1) as nat);
        lemma_eat_step(g.eat_scan(k, a, (j - 1) as nat), k, j - 1, a);
        lemma_only_meals_trans(g, g.eat_scan(k, a, (j - 1) as nat), g.eat_scan(k, a, j));
    } else {
        assert(g.events.subrange(0, g.events.len() as int) =~= g.events);
    }
}

proof fn lemma_feast(g: GameView, sweeps: Seq<SweepArea>, k: nat)
    requires
        g.wf(),
        k <= g.snakes.len(),
    ensures
        g.feast(sweeps, k).wf(),
        only_meals(g, g.feast(sweeps, k)),
        g.feast(sweeps, k).snakes.len() == g.snakes.len(),
        g.feast(sweeps, k).foods.len() == g.foods.len(),
        g.feast(sweeps, k).time == g.time,
        g.feast(sweeps, k).size == g.size,
    decreases k,
{
    if k > 0 {
        lemma_feast(g, sweeps, (k - 1) as nat);
        lemma_eat_scan(g.feast(sweeps, (k - 1) as nat), k - 1, sweeps[k - 1], g.foods.len());
        lemma_only_meals_trans(g, g.feast(sweeps, (k - 1) as nat), g.feast(sweeps, k));
    } else {
        assert(g.events.subrange(0, g.events.len() as int) =~= g.events);
    }
}

/// A meal of one piece of food keeps the eater's size within bounds.
proof fn lemma_meal_fits(g: GameView, k: int, j: int)
    requires
        g.wf(),
        0 <= k < g.snakes.len(),
        0 <= j < g.foods.len(),
        g.foods[j] is Some,
    ensures
        fits_i64(g.snakes[k].size + g.foods[j].unwrap().nutrition / 10),
{
    lemma_live_count_remove(g.foods, j);
    let l = live_count(g.foods) as int;
    assert(l >= 1);
    assert(g.snakes[k].size + growth() * l <= LENGTH_SCALE + growth() * g.foods.len());
    assert(growth() * l >= growth());
}

/// Settling the snakes changes no size, so the game stays well formed.
proof fn lemma_moved_wf(g: GameView, delta_t: i64)
    requires
        g.wf(),
    ensures
        g.moved(delta_t).wf(),
{
    let m = g.moved(delta_t);
    assert forall|k: int| 0 <= k < m.snakes.len() implies #[trigger] m.snakes[k].size + growth()
        * live_count(m.foods) <= LENGTH_SCALE + growth() * m.foods.len() by {
        assert(m.snakes[k].size == g.snakes[k].size);
        assert(g.snakes[k].size + growth() * live_count(g.foods) <= LENGTH_SCALE + growth()
            * g.foods.len());
    };
}

/// Computes `inside(loc, a)`.
fn in_sweep(loc: Coordinates, a: SweepArea) -> (r: bool)
    ensures
        r == inside(loc, a),
{
    let w = a.width as i128;
    let (x0, x1) = if a.start_loc.x <= a.end_loc.x {
        (a.start_loc.x as i128, a.end_loc.x as i128)
    } else {
        (a.end_loc.x as i128, a.start_loc.x as i128)
    };
    let (y0, y1) = if a.start_loc.y <= a.end_loc.y {
        (a.start_loc.y as i128, a.end_loc.y as i128)
    } else {
        (a.end_loc.y as i128, a.start_loc.y as i128)
    };
    let x = loc.x as i128;
    let y = loc.y as i128;
    2 * x0 - w < 2 * x && 2 * x < 2 * x1 + w && 2 * y0 - w < 2 * y && 2 * y < 2 * y1 + w
}

/// Relies on rand's `thread_rng().gen_range(low, high)`: a value drawn from
/// `[low, high)`; it panics when `low >= high`.
#[verifier::external_body]
fn random_between(low: i64, high: i64) -> (r: i64)
    requires
        low < high,
    ensures
        low <= r < high,
{
    rand::thread_rng().gen_range(low, high)
}

/// A snake arena: owns its snakes and food by id, the simulated clock and the
/// event log. Ids are handed out in ascending order from 0 and never reused:
/// the next snake id is the number of snakes, the next food id the number of
/// food slots.
pub struct Game {
    size: i64,
    time: i64,
    snake: Vec<Snake>,
    food: Vec<Option<Food>>,
    eventqueue: EventQueue,
}

impl View for Game {
    type V = GameView;

    closed spec fn view(&self) -> GameView {
        GameView {
            size: self.size,
            time: self.time,
            snakes: self.snake@,
            foods: self.food@,
            events: self.eventqueue@,
        }
    }
}

impl Game {
    /// Snake `snake_id` grows by a tenth of `nutrition`; `NotFound`, with
    /// nothing changed, when there is no such snake.
    fn feed_snake(&mut self, snake_id: usize, nutrition: i64) -> (r: Result<(), NotFound>)
        requires
            snake_id < old(self)@.snakes.len() ==> fits_i64(
                old(self)@.snakes[snake_id as int].size + nutrition / 10,
            ),
        ensures
            snake_id >= old(self)@.snakes.len() ==> r == Err::<(), NotFound>(NotFound)
                && final(self)@ == old(self)@,
            snake_id < old(self)@.snakes.len() ==> r == Ok::<(), NotFound>(()) && final(self)@ == (
            GameView {
                snakes: old(self)@.snakes.update(
                    snake_id as int,
                    old(self)@.snakes[snake_id as int].fed(nutrition),
                ),
                ..old(self)@
            }),
    {
        if snake_id < self.snake.len() {
            let mut the_snake = self.snake[snake_id];
            the_snake.eat(nutrition);
            self.snake.set(snake_id, the_snake);
            Ok(())
        } else {
            Err(NotFound)
        }
    }

    /// Snake `snake_id` eats the food in slot `food_id`: the slot is emptied,
    /// the snake fed, and the meal logged at `event_time`.
    fn snake_eats_food(&mut self, snake_id: usize, food_id: usize, event_time: i64)
        requires
            old(self)@.wf(),
            snake_id < old(self)@.snakes.len(),
            food_id < old(self)@.foods.len(),
            old(self)@.foods[food_id as int] is Some,
        ensures
            final(self)@ == (GameView {
                snakes: old(self)@.snakes.update(
                    snake_id as int,
                    old(self)@.snakes[snake_id as int].fed(
                        old(self)@.foods[food_id as int].unwrap().nutrition,
                    ),
                ),
                foods: old(self)@.foods.update(food_id as int, None),
                events: old(self)@.events.push(
                    Event { kind: EventKind::SnakeAte { snake_id, food_id }, event_time },
                ),
                ..old(self)@
            }),
    {
        proof {
            lemma_meal_fits(self@, snake_id as int, food_id as int);
        }
        let food_to_eat = self.food[food_id].unwrap();
        self.food.set(food_id, None);
        let _ = self.feed_snake(snake_id, food_to_eat.get_nutrition());
        self.eventqueue.log_snake_ate(event_time, snake_id, food_id);
    }

    /// Tells whether `advance_clock(delta_t)` keeps the clock and every
    /// location within bounds.
    pub fn can_advance_clock(&self, delta_t: i64) -> (r: bool)
        ensures
            r == self@.advance_fits(delta_t),
    {
        if delta_t < 0 {
            return true;
        }
        let t: i128 = self.time as i128 + delta_t as i128;
        if t > i64::MAX as i128 {
            return false;
        }
        let t = t as i64;
        let mut k: usize = 0;
        while k < self.snake.len()
            invariant
                t == self@.tick_time(delta_t),
                fits_i64(self@.time + delta_t),
                delta_t >= 0,
                k <= self@.snakes.len(),
                forall|i: int| 0 <= i < k ==> #[trigger] self@.snakes[i].update_fits(t),
            decreases self@.snakes.len() - k,
        {
            if !self.snake[k].can_update(t) {
                return false;
            }
            k = k + 1;
        }
        true
    }

    /// Tells whether `turn_snake(snake_id, rot, event_time)` may be called:
    /// `rot` is a rotation, and the turn keeps the snake within bounds.
    pub fn can_turn_snake(&self, snake_id: usize, rot: Rotation, event_time: i64) -> (r: bool)
        ensures
            r == (rot.wf() && (snake_id < self@.snakes.len() ==> self@.snakes[snake_id as int].turn_fits(
                rot,
                event_time,
            ))),
    {
        if snake_id < self.snake.len() {
            let s = &self.snake[snake_id];
            rot.can_turn(s.velocity) && s.can_update(event_time)
        } else {
            rot.cos >= -TRIG_SCALE && rot.cos <= TRIG_SCALE && rot.sin >= -TRIG_SCALE && rot.sin
                <= TRIG_SCALE
        }
    }

    /// Advances the clock by `delta_t`, unless it is negative, in which case
    /// nothing changes. Every snake is settled at the new time; then each
    /// snake in ascending id order eats, in ascending food id order, every
    /// remaining piece of food strictly inside its sweep grown by half its
    /// width, and each meal is logged at the new time.
    pub fn advance_clock(&mut self, delta_t: i64)
        requires
            old(self)@.wf(),
            old(self)@.advance_fits(delta_t),
        ensures
            final(self)@.wf(),
            final(self)@ == old(self)@.after_advance(delta_t),
            delta_t >= 0 ==> final(self)@.time == old(self)@.time + delta_t,
            delta_t >= 0 ==> only_meals(old(self)@.moved(delta_t), final(self)@),
    {
        if delta_t < 0 {
            return ;
        }
        let ghost g0 = self@;
        self.time = self.time + delta_t;
        let t = self.time;
        let mut sweeps: Vec<SweepArea> = Vec::new();
        let mut k: usize = 0;
        while k < self.snake.len()
            invariant
                t == g0.tick_time(delta_t),
                self.time == t,
                self.size == g0.size,
                self.food@ == g0.foods,
                self.eventqueue@ == g0.events,
                self.snake@.len() == g0.snakes.len(),
                k <= g0.snakes.len(),
                sweeps@.len() == k,
                forall|i: int| 0 <= i < g0.snakes.len() ==> #[trigger] g0.snakes[i].update_fits(t),
                forall|i: int|
                    0 <= i < k ==> #[trigger] self.snake@[i] == g0.snakes[i].updated(t),
                forall|i: int| 0 <= i < k ==> #[trigger] sweeps@[i] == g0.snakes[i].sweep(t),
                forall|i: int| k <= i < g0.snakes.len() ==> #[trigger] self.snake@[i] == g0.snakes[i],
            decreases g0.snakes.len() - k,
        {
            let mut s = self.snake[k];
            let a = s.update(t);
            self.snake.set(k, s);
            sweeps.push(a);
            k = k + 1;
        }
        proof {
            assert(self@.snakes =~= g0.moved(delta_t).snakes);
            assert(sweeps@ =~= g0.sweeps(t));
            lemma_moved_wf(g0, delta_t);
        }
        let ghost g1 = self@;
        let n = self.snake.len();
        let mut k: usize = 0;
        while k < n
            invariant
                g1 == g0.moved(delta_t),
                g1.wf(),
                t == g0.tick_time(delta_t),
                sweeps@ == g0.sweeps(t),
                n == g1.snakes.len(),
                k <= n,
                self@ == g1.feast(sweeps@, k as nat),
            decreases n - k,
        {
            proof {
                lemma_feast(g1, sweeps@, k as nat);
                assert(g1.time == t);
            }
            let a = sweeps[k];
            let ghost h = self@;
            let mut j: usize = 0;
            while j < self.food.len()
                invariant
                    h == g1.feast(sweeps@, k as nat),
                    h.wf(),
                    h.time == t,
                    h.snakes.len() == n,
                    h.foods.len() == g1.foods.len(),
                    k < n,
                    j <= h.foods.len(),
                    self@ == h.eat_scan(k as int, a, j as nat),
                decreases h.foods.len() - j,
            {
                proof {
                    lemma_eat_scan(h, k as int, a, j as nat);
                }
                let ghost before = self@;
                if let Some(f) = self.food[j] {
                    if in_sweep(f.location, a) {
                        self.snake_eats_food(k, j, t);
                    }
                }
                assert(self@ == before.eat_step(k as int, j as int, a));
                j = j + 1;
            }
            proof {
                lemma_eat_scan(h, k as int, a, j as nat);
                assert(sweeps@[k as int] == a);
            }
            k = k + 1;
        }
        proof {
            lemma_feast(g1, sweeps@, n as nat);
        }
    }

    /// A new arena of size 100 at time zero, without snakes, with nine pieces
    /// of food placed at random in `[-size/2, size/2)` on each axis, each
    /// logged as added at time zero.
    pub fn new() -> (r: Game)
        ensures
            r@.wf(),
            r@.size == 100 * LENGTH_SCALE,
            r@.time == 0,
            r@.snakes.len() == 0,
            r@.foods.len() == SEED_FOOD,
            r@.events.len() == SEED_FOOD,
            forall|i: int|
                0 <= i < SEED_FOOD ==> {
                    let f = #[trigger] r@.foods[i];
                    &&& f is Some
                    &&& f.unwrap() == Food::placed(f.unwrap().location.x, f.unwrap().location.y)
                    &&& -r@.size / 2 <= f.unwrap().location.x < r@.size / 2
                    &&& -r@.size / 2 <= f.unwrap().location.y < r@.size / 2
                    &&& r@.events[i] == (Event {
                        kind: EventKind::FoodAdded {
                            food_id: i as usize,
                            loc: f.unwrap().location,
                            nutrition: LENGTH_SCALE,
                        },
                        event_time: 0,
                    })
                },
    {
        let mut new_game = Game::new_blank_game();
        let half = new_game.size / 2;
        let mut i: usize = 0;
        while i < SEED_FOOD
            invariant
                new_game@.wf(),
                new_game@.size == 100 * LENGTH_SCALE,
                half == new_game@.size / 2,
                new_game@.time == 0,
                new_game@.snakes.len() == 0,
                i <= SEED_FOOD,
                new_game@.foods.len() == i,
                new_game@.events.len() == i,
                forall|j: int|
                    0 <= j < i ==> {
                        let f = #[trigger] new_game@.foods[j];
                        &&& f is Some
                        &&& f.unwrap() == Food::placed(f.unwrap().location.x, f.unwrap().location.y)
                        &&& -half <= f.unwrap().location.x < half
                        &&& -half <= f.unwrap().location.y < half
                        &&& new_game@.events[j] == (Event {
                            kind: EventKind::FoodAdded {
                                food_id: j as usize,
                                loc: f.unwrap().location,
                                nutrition: LENGTH_SCALE,
                            },
                            event_time: 0,
                        })
                    },
            decreases SEED_FOOD - i,
        {
            let x = random_between(-half, half);
            let y = random_between(-half, half);
            new_game.add_food(x, y, 0);
            i = i + 1;
        }
        new_game
    }

    /// An arena of size 100 at time zero with ten pieces of food on the
    /// diagonal from (-50,50) to (50,-50), ids 0 to 9, each logged as added
    /// at time zero.
    pub fn _new_test_game() -> (r: Game)
        ensures
            r@.wf(),
            r@.size == 100 * LENGTH_SCALE,
            r@.time == 0,
            r@.snakes.len() == 0,
            r@.events.len() == 10,
            r@.foods == seq![
                Some(Food::placed(units(-50), units(50))),
                Some(Food::placed(units(-40), units(40))),
                Some(Food::placed(units(-30), units(30))),
                Some(Food::placed(units(-20), units(20))),
                Some(Food::placed(units(-10), units(10))),
                Some(Food::placed(units(10), units(-10))),
                Some(Food::placed(units(20), units(-20))),
                Some(Food::placed(units(30), units(-30))),
                Some(Food::placed(units(40), units(-40))),
                Some(Food::placed(units(50), units(-50))),
            ],
    {
        let mut new_game = Game::new_blank_game();
        new_game.add_food(-50 * LENGTH_SCALE, 50 * LENGTH_SCALE, 0);
        new_game.add_food(-40 * LENGTH_SCALE, 40 * LENGTH_SCALE, 0);
        new_game.add_food(-30 * LENGTH_SCALE, 30 * LENGTH_SCALE, 0);
        new_game.add_food(-20 * LENGTH_SCALE, 20 * LENGTH_SCALE, 0);
        new_game.add_food(-10 * LENGTH_SCALE, 10 * LENGTH_SCALE, 0);
        new_game.add_food(10 * LENGTH_SCALE, -10 * LENGTH_SCALE, 0);
        new_game.add_food(20 * LENGTH_SCALE, -20 * LENGTH_SCALE, 0);
        new_game.add_food(30 * LENGTH_SCALE, -30 * LENGTH_SCALE, 0);
        new_game.add_food(40 * LENGTH_SCALE, -40 * LENGTH_SCALE, 0);
        new_game.add_food(50 * LENGTH_SCALE, -50 * LENGTH_SCALE, 0);
        assert(new_game@.foods =~= seq![
            Some(Food::placed(units(-50), units(50))),
            Some(Food::placed(units(-40), units(40))),
            Some(Food::placed(units(-30), units(30))),
            Some(Food::placed(units(-20), units(20))),
            Some(Food::placed(units(-10), units(10))),
            Some(Food::placed(units(10), units(-10))),
            Some(Food::placed(units(20), units(-20))),
            Some(Food::placed(units(30), units(-30))),
            Some(Food::placed(units(40), units(-40))),
            Some(Food::placed(units(50), units(-50))),
        ]);
        new_game
    }

    /// An empty arena of size 100 at time zero: no snakes, no food, no events.
    pub fn new_blank_game() -> (r: Game)
        ensures
            r@ == (GameView {
                size: (100 * LENGTH_SCALE) as i64,
                time: 0,
                snakes: Seq::empty(),
                foods: Seq::empty(),
                events: Seq::empty(),
            }),
            r@.wf(),
    {
        let r = Game {
            size: 100 * LENGTH_SCALE,
            time: 0,
            snake: Vec::new(),
            food: Vec::new(),
            eventqueue: EventQueue::new(),
        };
        assert(r@.foods =~= Seq::<Option<Food>>::empty());
        r
    }

    pub fn get_size(&self) -> (r: i64)
        ensures
            r == self@.size,
    {
        self.size
    }

    pub fn get_time(&self) -> (r: i64)
        ensures
            r == self@.time,
    {
        self.time
    }

    /// Creates a snake born at `event_time` under the next snake id, logs its
    /// birth with its snapshot, and returns the id.
    pub fn create_snake(&mut self, event_time: i64) -> (snake_id: usize)
        requires
            old(self)@.wf(),
        ensures
            final(self)@.wf(),
            snake_id == old(self)@.snakes.len(),
            final(self)@ == (GameView {
                snakes: old(self)@.snakes.push(Snake::newborn(event_time)),
                events: old(self)@.events.push(
                    Event {
                        kind: EventKind::SnakeBorn {
                            snake_id,
                            loc: Snake::newborn(event_time).location,
                            vel: Snake::newborn(event_time).velocity,
                            size: Snake::newborn(event_time).size,
                        },
                        event_time,
                    },
                ),
                ..old(self)@
            }),
    {
        proof {
            lemma_live_count_bound(self@.foods);
        }
        let snake_id = self.snake.len();
        let new_snake = Snake::new(event_time);
        self.eventqueue.log_snake_born(event_time, snake_id, new_snake);
        self.snake.push(new_snake);
        proof {
            assert forall|k: int| 0 <= k < self@.snakes.len() implies #[trigger] self@.snakes[k].size
                + growth() * live_count(self@.foods) <= LENGTH_SCALE + growth()
                * self@.foods.len() by {
                if k < old(self)@.snakes.len() {
                    assert(self@.snakes[k] == old(self)@.snakes[k]);
                }
            };
        }
        snake_id
    }

    /// The snake with id `snake_id`, or `NotFound` when there is none.
    pub fn get_snake(&self, snake_id: usize) -> (r: Result<&Snake, NotFound>)
        ensures
            snake_id < self@.snakes.len() ==> r == Ok::<&Snake, NotFound>(&self@.snakes[snake_id as int]),
            snake_id >= self@.snakes.len() ==> r == Err::<&Snake, NotFound>(NotFound),
    {
        if snake_id < self.snake.len() {
            Ok(&self.snake[snake_id])
        } else {
            Err(NotFound)
        }
    }

    /// Logs the turn (with the angle asked for), then settles snake
    /// `snake_id` at `event_time` and turns it by `rot`. No food is eaten on a
    /// turn. `NotFound`, with nothing changed, when there is no such snake.
    pub fn turn_snake(&mut self, snake_id: usize, rot: Rotation, event_time: i64) -> (r: Result<
        (),
        NotFound,
    >)
        requires
            old(self)@.wf(),
            rot.wf(),
            snake_id < old(self)@.snakes.len() ==> old(self)@.snakes[snake_id as int].turn_fits(
                rot,
                event_time,
            ),
        ensures
            final(self)@.wf(),
            snake_id >= old(self)@.snakes.len() ==> r == Err::<(), NotFound>(NotFound)
                && final(self)@ == old(self)@,
            snake_id < old(self)@.snakes.len() ==> r == Ok::<(), NotFound>(())
                && final(self)@ == (GameView {
                snakes: old(self)@.snakes.update(
                    snake_id as int,
                    old(self)@.snakes[snake_id as int].turned(rot, event_time),
                ),
                events: old(self)@.events.push(
                    Event {
                        kind: EventKind::SnakeTurned { snake_id, rad_relative: rot.rad },
                        event_time,
                    },
                ),
                ..old(self)@
            }),
    {
        if snake_id < self.snake.len() {
            self.eventqueue.log_snake_turned(event_time, snake_id, rot.rad);
            let mut the_snake = self.snake[snake_id];
            let _coverage = the_snake.turn(rot, event_time);
            self.snake.set(snake_id, the_snake);
            proof {
                assert forall|k: int| 0 <= k < self@.snakes.len() implies #[trigger] self@.snakes[k].size
                    + growth() * live_count(self@.foods) <= LENGTH_SCALE + growth()
                    * self@.foods.len() by {
                    assert(old(self)@.snakes[k].size + growth() * live_count(old(self)@.foods)
                        <= LENGTH_SCALE + growth() * old(self)@.foods.len());
                };
            }
            Ok(())
        } else {
            Err(NotFound)
        }
    }

    /// Tells whether `add_food` may be called: the game holds fewer than
    /// `MAX_FOOD` food slots.
    pub fn can_add_food(&self) -> (r: bool)
        ensures
            r == (self@.foods.len() < MAX_FOOD),
    {
        (self.food.len() as u64) < MAX_FOOD
    }

    /// Places food at `(x, y)` under the next food id, logs it with its
    /// snapshot, and returns the id.
    pub fn add_food(&mut self, x: i64, y: i64, event_time: i64) -> (food_id: usize)
        requires
            old(self)@.wf(),
            old(self)@.foods.len() < MAX_FOOD,
        ensures
            final(self)@.wf(),
            food_id == old(self)@.foods.len(),
            final(self)@ == (GameView {
                foods: old(self)@.foods.push(Some(Food::placed(x, y))),
                events: old(self)@.events.push(
                    Event {
                        kind: EventKind::FoodAdded {
                            food_id,
                            loc: Food::placed(x, y).location,
                            nutrition: Food::placed(x, y).nutrition,
                        },
                        event_time,
                    },
                ),
                ..old(self)@
            }),
    {
        proof {
            lemma_live_count_push(self@.foods, Some(Food::placed(x, y)));
        }
        let food_id = self.food.len();
        let new_food = Food::new(x, y);
        self.eventqueue.log_food_added(event_time, food_id, new_food);
        self.food.push(Some(new_food));
        proof {
            assert forall|k: int| 0 <= k < self@.snakes.len() implies #[trigger] self@.snakes[k].size
                + growth() * live_count(self@.foods) <= LENGTH_SCALE + growth()
                * self@.foods.len() by {
                assert(old(self)@.snakes[k].size + growth() * live_count(old(self)@.foods)
                    <= LENGTH_SCALE + growth() * old(self)@.foods.len());
            };
            assert forall|j: int| 0 <= j < self@.foods.len() && #[trigger] self@.foods[j] is Some implies self@.foods[j].unwrap().nutrition
                == LENGTH_SCALE by {
                if j < old(self)@.foods.len() {
                    assert(self@.foods[j] == old(self)@.foods[j]);
                }
            };
        }
        food_id
    }

    /// The food with id `food_id`, or `NotFound` when there is none (never
    /// placed, or eaten).
    pub fn _get_food(&self, food_id: usize) -> (r: Result<&Food, NotFound>)
        ensures
            food_id < self@.foods.len() && self@.foods[food_id as int] is Some ==> r == Ok::<
                &Food,
                NotFound,
            >(&self@.foods[food_id as int].unwrap()),
            !(food_id < self@.foods.len() && self@.foods[food_id as int] is Some) ==> r == Err::<
                &Food,
                NotFound,
            >(NotFound),
    {
        if food_id < self.food.len() {
            match &self.food[food_id] {
                Some(f) => Ok(f),
                None => Err(NotFound),
            }
        } else {
            Err(NotFound)
        }
    }

    /// The number of pieces of food not yet eaten.
    pub fn _get_food_count(&self) -> (r: usize)
        ensures
            r == live_count(self@.foods),
    {
        let mut count: usize = 0;
        let mut i: usize = 0;
        while i < self.food.len()
            invariant
                i <= self.food@.len(),
                count == live_count(self.food@.take(i as int)),
                count <= i,
            decreases self.food@.len() - i,
        {
            proof {
                assert(self.food@.take(i + 1).drop_last() =~= self.food@.take(i as int));
            }
            if self.food[i].is_some() {
                count = count + 1;
            }
            i = i + 1;
        }
        assert(self.food@.take(i as int) =~= self.food@);
        count
    }

    /// The event log, to be read and drained by the caller.
    pub fn get_event_queue_mut(&mut self) -> (r: &mut EventQueue)
        ensures
            r@ == old(self)@.events,
            final(self)@ == (GameView { events: final(r)@, ..old(self)@ }),
    {
        &mut self.eventqueue
    }
}

} // verus!

use vstd::prelude::*;
use std::collections::VecDeque;
use crate::food::Food;
use crate::geometry::{Coordinates, Velocity, ANGLE_SCALE, LENGTH_SCALE, TIME_SCALE};
use crate::snake::Snake;
use crate::text::{digits_text, fixed_text, push_digits, push_fixed};

verus! {

/// What happened, with the identifiers and snapshots that describe it.
#[derive(Clone, Copy, Debug, PartialEq, Eq, Structural)]
pub enum EventKind {
    SnakeBorn { snake_id: usize, loc: Coordinates, vel: Velocity, size: i64 },
    SnakeKilled { snake_id: usize },
    SnakeTurned { snake_id: usize, rad_relative: i64 },
    SnakeAte { snake_id: usize, food_id: usize },
    FoodAdded { food_id: usize, loc: Coordinates, nutrition: i64 },
}

/// A state change and the simulated time at which it happened.
#[derive(Clone, Copy, Debug, PartialEq, Eq, Structural)]
pub struct Event {
    pub kind: EventKind,
    pub event_time: i64,
}

impl Event {
    /// The one-line rendering of the event: its time in seconds with one
    /// decimal, a colon, and a message per kind. Lengths are shown in units,
    /// speeds in units per second, turns in radians with a sign and three
    /// decimals.
    pub open spec fn text(self) -> Seq<char> {
        let t = fixed_text(self.event_time as int, TIME_SCALE as nat, 1, false);
        match self.kind {
            EventKind::SnakeBorn { snake_id, loc, vel, size } => t + ": snake "@ + digits_text(
                snake_id as nat,
            ) + " born at "@ + loc.text() + " headed "@ + vel.text() + " of size "@ + fixed_text(
                size as int,
                LENGTH_SCALE as nat,
                1,
                false,
            ),
            EventKind::SnakeKilled { snake_id } => t + ": snake "@ + digits_text(snake_id as nat)
                + " killed"@,
            EventKind::SnakeTurned { snake_id, rad_relative } => t + ": snake "@ + digits_text(
                snake_id as nat,
            ) + " turned "@ + fixed_text(rad_relative as int, ANGLE_SCALE as nat, 3, true)
                + " rad"@,
            EventKind::SnakeAte { snake_id, food_id } => t + ": snake "@ + digits_text(
                snake_id as nat,
            ) + " ate food "@ + digits_text(food_id as nat),
            EventKind::FoodAdded { food_id, loc, nutrition } => t + ": food "@ + digits_text(
                food_id as nat,
            ) + " added at "@ + loc.text() + " of nutrition "@ + fixed_text(
                nutrition as int,
                LENGTH_SCALE as nat,
                1,
                false,
            ),
        }
    }

    pub fn to_text(&self) -> (r: String)
        ensures
            r@ == self.text(),
    {
        let mut out = String::new();
        push_fixed(&mut out, self.event_time, TIME_SCALE as u64, 1, false);
        match self.kind {
            EventKind::SnakeBorn { snake_id, loc, vel, size } => {
                out.append(": snake ");
                push_digits(&mut out, snake_id as u64);
                out.append(" born at ");
                loc.push_text(&mut out);
                out.append(" headed ");
                vel.push_text(&mut out);
                out.append(" of size ");
                push_fixed(&mut out, size, LENGTH_SCALE as u64, 1, false);
            },
            EventKind::SnakeKilled { snake_id } => {
                out.append(": snake ");
                push_digits(&mut out, snake_id as u64);
                out.append(" killed");
            },
            EventKind::SnakeTurned { snake_id, rad_relative } => {
                out.append(": snake ");
                push_digits(&mut out, snake_id as u64);
                out.append(" turned ");
                push_fixed(&mut out, rad_relative, ANGLE_SCALE as u64, 3, true);
                out.append(" rad");
            },
            EventKind::SnakeAte { snake_id, food_id } => {
                out.append(": snake ");
                push_digits(&mut out, snake_id as u64);
                out.append(" ate food ");
                push_digits(&mut out, food_id as u64);
            },
            EventKind::FoodAdded { food_id, loc, nutrition } => {
                out.append(": food ");
                push_digits(&mut out, food_id as u64);
                out.append(" added at ");
                loc.push_text(&mut out);
                out.append(" of nutrition ");
                push_fixed(&mut out, nutrition, LENGTH_SCALE as u64, 1, false);
            },
        }
        assert(out@ =~= self.text());
        out
    }
}

/// One `get_event`: the head of the queue, if any, and what remains.
pub open spec fn take_first(q: Seq<Event>) -> (Option<Event>, Seq<Event>) {
    if q.len() == 0 {
        (None, q)
    } else {
        (Some(q[0]), q.drop_first())
    }
}

/// The queue after logging each of `es` in turn.
pub open spec fn logged(q: Seq<Event>, es: Seq<Event>) -> Seq<Event>
    decreases es.len(),
{
    if es.len() == 0 {
        q
    } else {
        logged(q, es.drop_last()).push(es.last())
    }
}

/// What `n` calls of `get_event` return, in order, and the queue they leave.
pub open spec fn read_back(q: Seq<Event>, n: nat) -> (Seq<Option<Event>>, Seq<Event>)
    decreases n,
{
    if n == 0 {
        (Seq::empty(), q)
    } else {
        let (got, rest) = read_back(q, (n - 1) as nat);
        let (r, rest2) = take_first(rest);
        (got.push(r), rest2)
    }
}

/// An append-only log of events, read back first in, first out.
pub struct EventQueue {
    queue: VecDeque<Event>,
}

impl View for EventQueue {
    type V = Seq<Event>;

    closed spec fn view(&self) -> Seq<Event> {
        self.queue@
    }
}

impl EventQueue {
    pub fn new() -> (r: EventQueue)
        ensures
            r@ == Seq::<Event>::empty(),
    {
        EventQueue { queue: VecDeque::new() }
    }

    /// Logs the birth of a snake, from its snapshot.
    pub fn log_snake_born(&mut self, event_time: i64, snake_id: usize, new_snake: Snake)
        ensures
            final(self)@ == old(self)@.push(
                Event {
                    kind: EventKind::SnakeBorn {
                        snake_id,
                        loc: new_snake.location,
                        vel: new_snake.velocity,
                        size: new_snake.size,
                    },
                    event_time,
                },
            ),
    {
        self.log_event(
            Event {
                kind: EventKind::SnakeBorn {
                    snake_id: snake_id,
                    loc: new_snake.get_location(),
                    vel: new_snake.get_velocity(),
                    size: new_snake.get_size(),
                },
                event_time: event_time,
            },
        );
    }

    pub fn _log_snake_killed(&mut self, event_time: i64, snake_id: usize)
        ensures
            final(self)@ == old(self)@.push(
                Event { kind: EventKind::SnakeKilled { snake_id }, event_time },
            ),
    {
        self.log_event(
            Event { kind: EventKind::SnakeKilled { snake_id: snake_id }, event_time: event_time },
        );
    }

    /// Logs a turn by `rad_relative` micro-radians.
    pub fn log_snake_turned(&mut self, event_time: i64, snake_id: usize, rad_relative: i64)
        ensures
            final(self)@ == old(self)@.push(
                Event { kind: EventKind::SnakeTurned { snake_id, rad_relative }, event_time },
            ),
    {
        self.log_event(
            Event {
                kind: EventKind::SnakeTurned { snake_id: snake_id, rad_relative: rad_relative },
                event_time: event_time,
            },
        );
    }

    pub fn log_snake_ate(&mut self, event_time: i64, snake_id: usize, food_id: usize)
        ensures
            final(self)@ == old(self)@.push(
                Event { kind: EventKind::SnakeAte { snake_id, food_id }, event_time },
            ),
    {
        self.log_event(
            Event {
                kind: EventKind::SnakeAte { snake_id: snake_id, food_id: food_id },
                event_time: event_time,
            },
        );
    }

    /// Logs the placement of food, from its snapshot.
    pub fn log_food_added(&mut self, event_time: i64, food_id: usize, new_food: Food)
        ensures
            final(self)@ == old(self)@.push(
                Event {
                    kind: EventKind::FoodAdded {
                        food_id,
                        loc: new_food.location,
                        nutrition: new_food.nutrition,
                    },
                    event_time,
                },
            ),
    {
        self.log_event(
            Event {
                kind: EventKind::FoodAdded {
                    food_id: food_id,
                    loc: new_food.get_location(),
                    nutrition: new_food.get_nutrition(),
                },
                event_time: event_time,
            },
        );
    }

    /// Appends `event` at the tail.
    pub fn log_event(&mut self, event: Event)
        ensures
            final(self)@ == old(self)@.push(event),
    {
        self.queue.push_back(event);
    }

    /// Removes and returns the head, or `None` when the queue is empty.
    pub fn get_event(&mut self) -> (r: Option<Event>)
        ensures
            (r, final(self)@) == take_first(old(self)@),
    {
        let r = self.queue.pop_front();
        proof {
            if old(self)@.len() > 0 {
                assert(self@ =~= old(self)@.drop_first());
            }
        }
        r
    }

    pub fn _is_empty(&self) -> (r: bool)
        ensures
            r == (self@.len() == 0),
    {
        self.queue.len() == 0
    }

    pub fn len(&self) -> (r: usize)
        ensures
            r == self@.len(),
    {
        self.queue.len()
    }
}

} // verus!

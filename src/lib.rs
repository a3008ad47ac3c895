//! A deterministic simulation of a top-down snake arena.
//!
//! All quantities are fixed-point integers, so that motion is integrated
//! exactly: positions, sizes and nutrition are counted in nano-units of length,
//! speeds in micro-units of length per second, and simulated time in
//! milliseconds. A nano-unit is then exactly one micro-unit per second held for
//! one millisecond. A turn is given by its angle in micro-radians together with
//! its cosine and sine.
mod eventqueue;
mod food;
mod game;
mod geometry;
mod laws;
mod snake;
mod text;

pub use eventqueue::{logged, read_back, take_first, Event, EventKind, EventQueue};
pub use food::Food;
pub use game::{inside, live_count, only_meals, Game, GameView, NotFound, MAX_FOOD};
pub use laws::{
    law_feeding_additive, law_fifo, law_food_on_path_is_eaten, law_half_turn, law_linear_motion,
    law_negative_tick_changes_nothing, law_path_inside_sweep, meals_of,
};
pub use geometry::{
    ANGLE_SCALE, Coordinates, LENGTH_SCALE, Rotation, SPEED_SCALE, TIME_SCALE, TRIG_SCALE, Velocity,
};
pub use snake::{Snake, SweepArea};


use snakegame::{Rotation, Snake, ANGLE_SCALE, LENGTH_SCALE, SPEED_SCALE, TIME_SCALE, TRIG_SCALE};

fn len(v: f64) -> i64 {
    (v * LENGTH_SCALE as f64).round() as i64
}

fn speed(v: f64) -> i64 {
    (v * SPEED_SCALE as f64).round() as i64
}

fn secs(v: f64) -> i64 {
    (v * TIME_SCALE as f64).round() as i64
}

fn rotation(rad: f64) -> Rotation {
    Rotation {
        rad: (rad * ANGLE_SCALE as f64).round() as i64,
        cos: (rad.cos() * TRIG_SCALE as f64).round() as i64,
        sin: (rad.sin() * TRIG_SCALE as f64).round() as i64,
    }
}

fn approx_len(expected: f64, actual: i64, eps: f64) {
    let a = actual as f64 / LENGTH_SCALE as f64;
    assert!((expected - a).abs() < eps, "expected {} got {}", expected, a);
}

fn approx_speed(expected: f64, actual: i64, eps: f64) {
    let a = actual as f64 / SPEED_SCALE as f64;
    assert!((expected - a).abs() < eps, "expected {} got {}", expected, a);
}

#[test]
fn snake_t_new() {
    let test_snake = Snake::new(secs(0.0));
    let loc = test_snake.get_location();
    assert_eq!(len(0.0), loc.x);
    assert_eq!(len(0.0), loc.y);

    let vel = test_snake.get_velocity();
    assert_eq!(speed(0.0), vel.delta_x);
    assert_eq!(speed(1.0), vel.delta_y);

    assert_eq!(len(1.0), test_snake.get_size());
}

#[test]
fn t_update() {
    let mut test_snake = Snake::new(secs(0.0));

    let coverage = test_snake.update(secs(1.0));
    assert_eq!(len(0.0), coverage.start_loc.x);
    assert_eq!(len(0.0), coverage.start_loc.y);
    assert_eq!(len(0.0), coverage.end_loc.x);
    assert_eq!(len(1.0), coverage.end_loc.y);
    assert_eq!(len(1.0), coverage.width);

    let loc = test_snake.get_location();
    assert_eq!(len(0.0), loc.x);
    assert_eq!(len(1.0), loc.y);

    let coverage = test_snake.update(secs(2.0));
    assert_eq!(len(0.0), coverage.start_loc.x);
    assert_eq!(len(1.0), coverage.start_loc.y);
    assert_eq!(len(0.0), coverage.end_loc.x);
    assert_eq!(len(2.0), coverage.end_loc.y);
    assert_eq!(len(1.0), coverage.width);

    let loc = test_snake.get_location();
    assert_eq!(len(0.0), loc.x);
    assert_eq!(len(2.0), loc.y);

    let coverage = test_snake.update(secs(0.5));
    assert_eq!(len(0.0), coverage.start_loc.x);
    assert_eq!(len(2.0), coverage.start_loc.y);
    assert_eq!(len(0.0), coverage.end_loc.x);
    assert_eq!(len(0.5), coverage.end_loc.y);
    assert_eq!(len(1.0), coverage.width);

    let loc = test_snake.get_location();
    assert_eq!(len(0.0), loc.x);
    assert_eq!(len(0.5), loc.y);
}

#[test]
fn t_turn() {
    const PI: f64 = 3.14159;
    let mut test_snake = Snake::new(secs(0.0));

    let vel = test_snake.get_velocity();
    assert_eq!(speed(0.0), vel.delta_x);
    assert_eq!(speed(1.0), vel.delta_y);

    let coverage = test_snake.turn(rotation(PI), secs(0.0));
    approx_len(0.0, coverage.start_loc.x, 1e-5);
    approx_len(0.0, coverage.start_loc.y, 1e-5);
    approx_len(0.0, coverage.end_loc.x, 1e-5);
    approx_len(0.0, coverage.end_loc.y, 1e-5);
    assert_eq!(len(1.0), coverage.width);

    let vel = test_snake.get_velocity();
    approx_speed(0.0, vel.delta_x, 1e-5);
    approx_speed(-1.0, vel.delta_y, 1e-5);

    let coverage = test_snake.update(secs(1.0));
    approx_len(0.0, coverage.start_loc.x, 1e-5);
    approx_len(0.0, coverage.start_loc.y, 1e-5);
    approx_len(0.0, coverage.end_loc.x, 1e-5);
    approx_len(-1.0, coverage.end_loc.y, 1e-5);
    assert_eq!(len(1.0), coverage.width);
    let loc = test_snake.get_location();
    approx_len(0.0, loc.x, 1e-5);
    approx_len(-1.0, loc.y, 1e-5);

    let coverage = test_snake.turn(rotation(PI / 4.0), secs(1.0));
    approx_len(0.0, coverage.start_loc.x, 1e-5);
    approx_len(-1.0, coverage.start_loc.y, 1e-5);
    approx_len(0.0, coverage.end_loc.x, 1e-5);
    approx_len(-1.0, coverage.end_loc.y, 1e-5);
    assert_eq!(len(1.0), coverage.width);
    let vel = test_snake.get_velocity();
    approx_speed(0.7071, vel.delta_x, 1e-5);
    approx_speed(-0.7071, vel.delta_y, 1e-5);

    let coverage = test_snake.update(secs(2.0));
    approx_len(0.0, coverage.start_loc.x, 1e-5);
    approx_len(-1.0, coverage.start_loc.y, 1e-5);
    approx_len(0.7071, coverage.end_loc.x, 1e-5);
    approx_len(-1.7071, coverage.end_loc.y, 1e-5);
    assert_eq!(len(1.0), coverage.width);
    let loc = test_snake.get_location();
    approx_len(0.7071, loc.x, 1e-5);
    approx_len(-1.7071, loc.y, 1e-5);
}

#[test]
fn t_eat() {
    let mut test_snake = Snake::new(secs(0.0));
    assert_eq!(len(1.0), test_snake.get_size());

    test_snake.eat(len(10.0));
    assert_eq!(len(2.0), test_snake.get_size());
}

#[test]
fn t_snake_fmt() {
    let test_snake = Snake::new(secs(0.0));
    assert_eq!("Snake at (0.0,0.0), vel <0.0,1.0>, size 1.0", test_snake.to_text());
}

#[test]
fn update_moves_by_velocity_times_elapsed_time() {
    let mut s = Snake::new(secs(2.0));
    s.velocity.delta_x = speed(-0.25);
    s.velocity.delta_y = speed(3.0);
    s.size = len(1.5);
    let coverage = s.update(secs(4.5));
    // 2.5 s at (-0.25, 3.0) per second
    assert_eq!(len(-0.625), s.location.x);
    assert_eq!(len(7.5), s.location.y);
    assert_eq!(secs(4.5), s.last_updated);
    assert_eq!(len(0.0), coverage.start_loc.x);
    assert_eq!(len(0.0), coverage.start_loc.y);
    assert_eq!(s.location, coverage.end_loc);
    assert_eq!(len(1.5), coverage.width);
}

#[test]
fn update_at_same_time_does_not_move() {
    let mut s = Snake::new(secs(3.0));
    let coverage = s.update(secs(3.0));
    assert_eq!(coverage.start_loc, coverage.end_loc);
    assert_eq!(len(0.0), s.location.y);
}

#[test]
fn exact_half_turn_negates_velocity() {
    let mut s = Snake::new(0);
    s.velocity.delta_x = speed(0.3);
    s.velocity.delta_y = speed(-2.0);
    let half = Rotation { rad: (std::f64::consts::PI * ANGLE_SCALE as f64).round() as i64, cos: -TRIG_SCALE, sin: 0 };
    s.turn(half, 0);
    assert_eq!(speed(-0.3), s.velocity.delta_x);
    assert_eq!(speed(2.0), s.velocity.delta_y);
}

#[test]
fn quarter_of_half_turn_from_south() {
    let mut s = Snake::new(0);
    s.velocity.delta_x = 0;
    s.velocity.delta_y = speed(-1.0);
    s.turn(rotation(std::f64::consts::PI / 4.0), 0);
    approx_speed(0.7071, s.velocity.delta_x, 1e-4);
    approx_speed(-0.7071, s.velocity.delta_y, 1e-4);
}

#[test]
fn turn_returns_sweep_before_the_turn() {
    let mut s = Snake::new(0);
    let coverage = s.turn(rotation(1.0), secs(2.0));
    assert_eq!(len(0.0), coverage.start_loc.y);
    assert_eq!(len(2.0), coverage.end_loc.y);
    assert_eq!(len(2.0), s.location.y);
    assert_eq!(secs(2.0), s.last_updated);
}

#[test]
fn feeding_is_additive_and_monotonic() {
    let mut s = Snake::new(0);
    s.eat(len(1.0));
    assert_eq!(len(1.1), s.get_size());
    s.eat(len(2.5));
    assert_eq!(len(1.35), s.get_size());
    s.eat(0);
    assert_eq!(len(1.35), s.get_size());
}

#[test]
fn sweep_text() {
    let mut s = Snake::new(0);
    let coverage = s.update(secs(1.5));
    assert_eq!("sweep area from (0.0,0.0) to (0.0,1.5), 1.0", coverage.to_text());
}

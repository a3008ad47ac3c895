use snakegame::{Coordinates, Event, EventKind, EventQueue, Food, Snake, Velocity, ANGLE_SCALE, LENGTH_SCALE, SPEED_SCALE, TIME_SCALE};

fn len(v: f64) -> i64 {
    (v * LENGTH_SCALE as f64).round() as i64
}

fn speed(v: f64) -> i64 {
    (v * SPEED_SCALE as f64).round() as i64
}

fn secs(v: f64) -> i64 {
    (v * TIME_SCALE as f64).round() as i64
}

fn rad(v: f64) -> i64 {
    (v * ANGLE_SCALE as f64).round() as i64
}

fn born() -> Event {
    Event {
        kind: EventKind::SnakeBorn {
            snake_id: 0,
            loc: Coordinates { x: len(0.0), y: len(0.0) },
            vel: Velocity { delta_x: speed(0.0), delta_y: speed(0.0) },
            size: len(0.0),
        },
        event_time: secs(0.0),
    }
}

#[test]
fn eventqueue_t_new() {
    let test_event_queue = EventQueue::new();
    assert!(test_event_queue._is_empty());
    assert_eq!(0, test_event_queue.len());
}

#[test]
fn t_log_event() {
    let mut test_event_queue = EventQueue::new();

    test_event_queue.log_event(born());
    assert_eq!(1, test_event_queue.len());

    let event = Event { kind: EventKind::SnakeKilled { snake_id: 0 }, event_time: secs(0.0) };
    test_event_queue.log_event(event);
    assert_eq!(2, test_event_queue.len());

    let event = Event { kind: EventKind::SnakeTurned { snake_id: 0, rad_relative: rad(0.0) }, event_time: secs(0.0) };
    test_event_queue.log_event(event);
    assert_eq!(3, test_event_queue.len());

    let event = Event { kind: EventKind::SnakeAte { snake_id: 0, food_id: 0 }, event_time: secs(0.0) };
    test_event_queue.log_event(event);
    assert_eq!(4, test_event_queue.len());

    let event = Event {
        kind: EventKind::FoodAdded { food_id: 0, loc: Coordinates { x: len(0.0), y: len(0.0) }, nutrition: len(0.0) },
        event_time: secs(0.0),
    };
    test_event_queue.log_event(event);
    assert_eq!(5, test_event_queue.len());
}

#[test]
fn tget_event() {
    let mut test_event_queue = EventQueue::new();
    assert_eq!(0, test_event_queue.len());

    let event_logged = born();
    test_event_queue.log_event(event_logged);
    assert_eq!(1, test_event_queue.len());

    let event_gotten = test_event_queue.get_event().unwrap();
    assert_eq!(0, test_event_queue.len());
    assert_eq!(event_logged, event_gotten);

    let event_logged1 = Event { kind: EventKind::SnakeTurned { snake_id: 0, rad_relative: rad(0.0) }, event_time: secs(0.0) };
    test_event_queue.log_event(event_logged1);

    let event_logged2 = Event { kind: EventKind::SnakeKilled { snake_id: 0 }, event_time: secs(0.0) };
    test_event_queue.log_event(event_logged2);
    assert_eq!(2, test_event_queue.len());

    let event_gotten1 = test_event_queue.get_event().unwrap();
    assert_eq!(1, test_event_queue.len());
    assert_eq!(event_logged1, event_gotten1);

    let event_gotten2 = test_event_queue.get_event().unwrap();
    assert_eq!(0, test_event_queue.len());
    assert_eq!(event_logged2, event_gotten2);

    let event_empty = test_event_queue.get_event();
    assert!(event_empty.is_none());
}

#[test]
fn t_event_fmt() {
    assert_eq!("0.0: snake 0 born at (0.0,0.0) headed <0.0,0.0> of size 0.0", born().to_text());

    let event = Event { kind: EventKind::SnakeKilled { snake_id: 0 }, event_time: secs(0.0) };
    assert_eq!("0.0: snake 0 killed", event.to_text());

    let event = Event { kind: EventKind::SnakeTurned { snake_id: 0, rad_relative: rad(1.0) }, event_time: secs(0.0) };
    assert_eq!("0.0: snake 0 turned +1.000 rad", event.to_text());

    let event = Event { kind: EventKind::SnakeAte { snake_id: 0, food_id: 0 }, event_time: secs(0.0) };
    assert_eq!("0.0: snake 0 ate food 0", event.to_text());

    let event = Event {
        kind: EventKind::FoodAdded { food_id: 0, loc: Coordinates { x: len(0.0), y: len(0.0) }, nutrition: len(0.0) },
        event_time: secs(0.0),
    };
    assert_eq!("0.0: food 0 added at (0.0,0.0) of nutrition 0.0", event.to_text());
}

#[test]
fn event_text_signs_and_rounding() {
    let event = Event { kind: EventKind::SnakeTurned { snake_id: 12, rad_relative: rad(-0.7854) }, event_time: secs(13.25) };
    assert_eq!("13.3: snake 12 turned -0.785 rad", event.to_text());

    let event = Event {
        kind: EventKind::FoodAdded { food_id: 305, loc: Coordinates { x: len(-0.7), y: len(-0.04) }, nutrition: len(1.0) },
        event_time: secs(0.05),
    };
    assert_eq!("0.1: food 305 added at (-0.7,-0.0) of nutrition 1.0", event.to_text());

    let event = Event { kind: EventKind::SnakeTurned { snake_id: 0, rad_relative: 0 }, event_time: secs(120.0) };
    assert_eq!("120.0: snake 0 turned +0.000 rad", event.to_text());
}

#[test]
fn coordinates_and_velocity_text() {
    assert_eq!("(12.3,-4.6)", Coordinates { x: len(12.34), y: len(-4.56) }.to_text());
    assert_eq!("<0.7,-0.7>", Velocity { delta_x: speed(0.7071), delta_y: speed(-0.7071) }.to_text());
}

#[test]
fn convenience_loggers_record_snapshots() {
    let mut q = EventQueue::new();
    let s = Snake::new(secs(1.0));
    q.log_snake_born(secs(1.0), 3, s);
    q.log_snake_turned(secs(2.0), 3, rad(0.5));
    q.log_food_added(secs(2.5), 7, Food::new(len(1.0), len(-2.0)));
    q.log_snake_ate(secs(3.0), 3, 7);
    q._log_snake_killed(secs(4.0), 3);
    assert_eq!(
        Some(Event {
            kind: EventKind::SnakeBorn { snake_id: 3, loc: s.location, vel: s.velocity, size: s.size },
            event_time: secs(1.0)
        }),
        q.get_event()
    );
    assert_eq!("2.0: snake 3 turned +0.500 rad", q.get_event().unwrap().to_text());
    assert_eq!("2.5: food 7 added at (1.0,-2.0) of nutrition 1.0", q.get_event().unwrap().to_text());
    assert_eq!("3.0: snake 3 ate food 7", q.get_event().unwrap().to_text());
    assert_eq!("4.0: snake 3 killed", q.get_event().unwrap().to_text());
    assert!(q.get_event().is_none());
}

#[test]
fn queue_is_fifo_and_draining_is_destructive() {
    let mut q = EventQueue::new();
    for i in 0..5usize {
        q.log_event(Event { kind: EventKind::SnakeKilled { snake_id: i }, event_time: 0 });
    }
    for i in 0..5usize {
        assert_eq!(Some(Event { kind: EventKind::SnakeKilled { snake_id: i }, event_time: 0 }), q.get_event());
    }
    assert!(q.get_event().is_none());
    assert!(q.get_event().is_none());
    assert!(q._is_empty());
    q.log_event(Event { kind: EventKind::SnakeKilled { snake_id: 9 }, event_time: 1 });
    assert_eq!(Some(Event { kind: EventKind::SnakeKilled { snake_id: 9 }, event_time: 1 }), q.get_event());
    assert!(q.get_event().is_none());
}

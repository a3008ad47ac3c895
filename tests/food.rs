use snakegame::{Food, LENGTH_SCALE};

fn len(v: f64) -> i64 {
    (v * LENGTH_SCALE as f64).round() as i64
}

#[test]
fn food_t_new() {
    let test_food = Food::new(len(0.0), len(0.0));

    let loc = test_food.get_location();
    assert_eq!(len(0.0), loc.x);
    assert_eq!(len(0.0), loc.y);

    let nut = test_food.get_nutrition();
    assert_eq!(len(1.0), nut);
}

#[test]
fn food_keeps_its_placement() {
    let f = Food::new(len(-3.5), len(12.0));
    assert_eq!(len(-3.5), f.get_location().x);
    assert_eq!(len(12.0), f.get_location().y);
}

#[test]
fn food_text() {
    let f = Food::new(len(-0.7), len(1.75));
    assert_eq!("loc = (-0.7, 1.8), nutrition = 1.0", f.to_text());
}

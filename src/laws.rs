use vstd::prelude::*;
use crate::eventqueue::{logged, read_back, Event, EventKind};
use crate::game::{inside, GameView, MAX_FOOD};
use crate::geometry::{fits_i64, Coordinates, Rotation, Velocity, TRIG_SCALE};
use crate::snake::{Snake, SweepArea};

verus! {

/// Settling a snake at `t` moves it by exactly `velocity * (t - last_updated)`
/// and keeps its heading and size; the sweep runs from the old location to
/// the new one, as wide as the snake.
pub proof fn law_linear_motion(s: Snake, t: i64)
    requires
        s.update_fits(t),
    ensures
        s.updated(t).location.x == s.location.x + s.velocity.delta_x * (t - s.last_updated),
        s.updated(t).location.y == s.location.y + s.velocity.delta_y * (t - s.last_updated),
        s.updated(t).velocity == s.velocity,
        s.updated(t).size == s.size,
        s.updated(t).last_updated == t,
        s.sweep(t).start_loc == s.location,
        s.sweep(t).end_loc == s.updated(t).location,
        s.sweep(t).width == s.size,
{
}

/// A half turn (cosine -1, sine 0) negates both components of the velocity.
pub proof fn law_half_turn(rot: Rotation, v: Velocity)
    requires
        rot.cos == -TRIG_SCALE,
        rot.sin == 0,
        rot.turn_fits(v),
    ensures
        rot.apply(v) == (Velocity { delta_x: -v.delta_x as i64, delta_y: -v.delta_y as i64 }),
{
    let x = v.delta_x as int;
    let y = v.delta_y as int;
    let c = rot.cos as int;
    assert(x * c - y * 0 + 500_000_000 == (-x) * 1_000_000_000 + 500_000_000) by (nonlinear_arith)
        requires
            c == -1_000_000_000,
    ;
    assert(x * 0 + y * c + 500_000_000 == (-y) * 1_000_000_000 + 500_000_000) by (nonlinear_arith)
        requires
            c == -1_000_000_000,
    ;
    vstd::arithmetic::div_mod::lemma_fundamental_div_mod_converse(
        (-x) * 1_000_000_000 + 500_000_000,
        1_000_000_000,
        -x,
        500_000_000,
    );
    vstd::arithmetic::div_mod::lemma_fundamental_div_mod_converse(
        (-y) * 1_000_000_000 + 500_000_000,
        1_000_000_000,
        -y,
        500_000_000,
    );
}

/// Feeding adds a tenth of the nutrition each time: two meals add up, and a
/// meal of non-negative nutrition never shrinks the snake.
pub proof fn law_feeding_additive(s: Snake, a: i64, b: i64)
    requires
        fits_i64(s.size + a / 10),
        fits_i64(s.size + a / 10 + b / 10),
    ensures
        s.fed(a).fed(b).size == s.size + a / 10 + b / 10,
        a >= 0 ==> s.fed(a).size >= s.size,
{
}

/// A tick of negative length changes nothing: neither the clock nor any
/// snake, food or event.
pub proof fn law_negative_tick_changes_nothing(g: GameView, delta_t: i64)
    requires
        delta_t < 0,
    ensures
        g.after_advance(delta_t) == g,
{
}

/// A location between the ends of a sweep of positive width, on each axis,
/// lies inside it.
pub proof fn law_path_inside_sweep(a: SweepArea, loc: Coordinates)
    requires
        a.width > 0,
        a.start_loc.x <= loc.x <= a.end_loc.x || a.end_loc.x <= loc.x <= a.start_loc.x,
        a.start_loc.y <= loc.y <= a.end_loc.y || a.end_loc.y <= loc.y <= a.start_loc.y,
    ensures
        inside(loc, a),
{
}

/// The number of logged meals of the food with id `j`.
pub open spec fn meals_of(events: Seq<Event>, j: int) -> nat
    decreases events.len(),
{
    if events.len() == 0 {
        0
    } else {
        meals_of(events.drop_last(), j) + match events.last().kind {
            EventKind::SnakeAte { food_id, .. } => if food_id as int == j {
                1nat
            } else {
                0nat
            },
            _ => 0nat,
        }
    }
}

/// Food slot `j` of `s` is as in `g` and its meal is not logged, or it has
/// been emptied and its meal logged once more than in `g`.
spec fn tracks(g: GameView, s: GameView, j: int) -> bool {
    &&& s.foods.len() == g.foods.len()
    &&& s.foods[j] is Some ==> s.foods[j] == g.foods[j] && meals_of(s.events, j) == meals_of(
        g.events,
        j,
    )
    &&& s.foods[j] is None ==> meals_of(s.events, j) == meals_of(g.events, j) + 1
}

proof fn lemma_track_step(g: GameView, s: GameView, j: int, k: int, i: int, a: SweepArea)
    requires
        g.wf(),
        0 <= j < g.foods.len(),
        g.foods[j] is Some,
        tracks(g, s, j),
        0 <= i < s.foods.len(),
    ensures
        tracks(g, s.eat_step(k, i, a), j),
        s.foods[j] is None ==> s.eat_step(k, i, a).foods[j] is None,
        i == j && s.foods[j] is Some && inside(g.foods[j].unwrap().location, a)
            ==> s.eat_step(k, i, a).foods[j] is None,
        s.foods[j] is Some && !inside(g.foods[j].unwrap().location, a)
            ==> s.eat_step(k, i, a).foods[j] is Some,
{
    let h = s.eat_step(k, i, a);
    if s.foods[i] is Some && inside(s.foods[i].unwrap().location, a) {
        assert(h.events.drop_last() == s.events);
        assert(i < MAX_FOOD);
        assert((i as usize) as int == i);
    }
}

proof fn lemma_track_scan(g: GameView, s: GameView, j: int, k: int, a: SweepArea, m: nat)
    requires
        g.wf(),
        0 <= j < g.foods.len(),
        g.foods[j] is Some,
        tracks(g, s, j),
        m <= s.foods.len(),
    ensures
        tracks(g, s.eat_scan(k, a, m), j),
        s.foods[j] is None ==> s.eat_scan(k, a, m).foods[j] is None,
        j < m && inside(g.foods[j].unwrap().location, a) ==> s.eat_scan(k, a, m).foods[j] is None,
        s.foods[j] is Some && !inside(g.foods[j].unwrap().location, a) ==> s.eat_scan(
            k,
            a,
            m,
        ).foods[j] is Some,
    decreases m,
{
    if m > 0 {
        lemma_track_scan(g, s, j, k, a, (m - 1) as nat);
        lemma_track_step(g, s.eat_scan(k, a, (m - 1) as nat), j, k, m - 1, a);
    }
}

proof fn lemma_track_feast(g: GameView, s: GameView, sweeps: Seq<SweepArea>, j: int, n: nat)
    requires
        g.wf(),
        0 <= j < g.foods.len(),
        g.foods[j] is Some,
        s.foods == g.foods,
        s.events == g.events,
    ensures
        tracks(g, s.feast(sweeps, n), j),
        (exists|k: int| 0 <= k < n && inside(g.foods[j].unwrap().location, #[trigger] sweeps[k]))
            ==> s.feast(sweeps, n).foods[j] is None,
        (forall|k: int| 0 <= k < n ==> !inside(g.foods[j].unwrap().location, #[trigger] sweeps[k]))
            ==> s.feast(sweeps, n).foods[j] is Some,
    decreases n,
{
    if n > 0 {
        lemma_track_feast(g, s, sweeps, j, (n - 1) as nat);
        let p = s.feast(sweeps, (n - 1) as nat);
        lemma_track_scan(g, p, j, n - 1, sweeps[n - 1], s.foods.len());
        if exists|k: int| 0 <= k < n && inside(g.foods[j].unwrap().location, #[trigger] sweeps[k]) {
            let k = choose|k: int| 0 <= k < n && inside(g.foods[j].unwrap().location, #[trigger] sweeps[k]);
            if k < n - 1 {
                assert(p.foods[j] is None);
            }
        }
    }
}

/// During a tick, food inside the sweep of any snake is eaten: its slot is
/// emptied and exactly one meal of it is logged. Food outside every sweep
/// stays where it was, and no meal of it is logged.
pub proof fn law_food_on_path_is_eaten(g: GameView, delta_t: i64, j: int)
    requires
        g.wf(),
        delta_t >= 0,
        0 <= j < g.foods.len(),
        g.foods[j] is Some,
    ensures
        (exists|k: int|
            0 <= k < g.snakes.len() && inside(
                g.foods[j].unwrap().location,
                #[trigger] g.snakes[k].sweep(g.tick_time(delta_t)),
            )) ==> g.advanced(delta_t).foods[j] is None && meals_of(g.advanced(delta_t).events, j)
            == meals_of(g.events, j) + 1,
        (forall|k: int|
            0 <= k < g.snakes.len() ==> !inside(
                g.foods[j].unwrap().location,
                #[trigger] g.snakes[k].sweep(g.tick_time(delta_t)),
            )) ==> g.advanced(delta_t).foods[j] == g.foods[j] && meals_of(
            g.advanced(delta_t).events,
            j,
        ) == meals_of(g.events, j),
{
    let t = g.tick_time(delta_t);
    let sweeps = g.sweeps(t);
    lemma_track_feast(g, g.moved(delta_t), sweeps, j, g.snakes.len());
    if exists|k: int|
        0 <= k < g.snakes.len() && inside(
            g.foods[j].unwrap().location,
            #[trigger] g.snakes[k].sweep(t),
        ) {
        let k = choose|k: int|
            0 <= k < g.snakes.len() && inside(
                g.foods[j].unwrap().location,
                #[trigger] g.snakes[k].sweep(t),
            );
        assert(sweeps[k] == g.snakes[k].sweep(t));
    }
    if forall|k: int|
        0 <= k < g.snakes.len() ==> !inside(
            g.foods[j].unwrap().location,
            #[trigger] g.snakes[k].sweep(t),
        ) {
        assert forall|k: int| 0 <= k < g.snakes.len() implies !inside(
            g.foods[j].unwrap().location,
            #[trigger] sweeps[k],
        ) by {
            assert(sweeps[k] == g.snakes[k].sweep(t));
        };
    }
}

proof fn lemma_logged(q: Seq<Event>, es: Seq<Event>)
    ensures
        logged(q, es) == q + es,
    decreases es.len(),
{
    if es.len() > 0 {
        lemma_logged(q, es.drop_last());
        assert(q + es =~= (q + es.drop_last()).push(es.last()));
    }
}

proof fn lemma_read_back(q: Seq<Event>, n: nat)
    ensures
        n <= q.len() ==> read_back(q, n) == (q.take(n as int).map_values(|e: Event| Some(e)), q.skip(
            n as int,
        )),
        n > q.len() ==> read_back(q, n) == (q.map_values(|e: Event| Some(e)) + Seq::new(
            (n - q.len()) as nat,
            |i: int| None::<Event>,
        ), Seq::<Event>::empty()),
    decreases n,
{
    if n > 0 {
        lemma_read_back(q, (n - 1) as nat);
        let (got, rest) = read_back(q, (n - 1) as nat);
        if n <= q.len() {
            assert(rest.drop_first() =~= q.skip(n as int));
            assert(got.push(Some(rest[0])) =~= q.take(n as int).map_values(|e: Event| Some(e)));
        } else if n == q.len() + 1 {
            assert(q.take(q.len() as int) =~= q);
            assert(q.skip(q.len() as int) =~= Seq::<Event>::empty());
            assert(got.push(None) =~= q.map_values(|e: Event| Some(e)) + Seq::new(
                (n - q.len()) as nat,
                |i: int| None::<Event>,
            ));
        } else {
            assert(got.push(None) =~= q.map_values(|e: Event| Some(e)) + Seq::new(
                (n - q.len()) as nat,
                |i: int| None::<Event>,
            ));
        }
    }
}

/// The queue is first in, first out: after logging `es` behind the events
/// already queued in `q`, reading it back returns the events of `q`, then
/// those of `es` in logging order, then nothing, however often it is read;
/// and the queue is left empty.
pub proof fn law_fifo(q: Seq<Event>, es: Seq<Event>, extra: nat)
    ensures
        read_back(logged(q, es), q.len() + es.len() + extra) == ((q + es).map_values(
            |e: Event| Some(e),
        ) + Seq::new(extra, |i: int| None::<Event>), Seq::<Event>::empty()),
{
    lemma_logged(q, es);
    lemma_read_back(q + es, q.len() + es.len() + extra);
    if extra == 0 {
        let s = q + es;
        assert(s.take(s.len() as int) =~= s);
        assert(s.skip(s.len() as int) =~= Seq::<Event>::empty());
        assert(s.map_values(|e: Event| Some(e)) + Seq::new(0, |i: int| None::<Event>)
            =~= s.map_values(|e: Event| Some(e)));
    }
}

} // verus!

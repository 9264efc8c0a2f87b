use pizzeria::entities::{Color, IdGen, Ingredient, IngredientSet, Pizza, PizzaState, Player};
use pizzeria::math::{isqrt, mul_div_trunc, vec2};
use pizzeria::world::{ClientMessage, Event, Model, ORDER_INTERVAL, TICKS_PER_SECOND};

fn full_order() -> IngredientSet {
    IngredientSet { cheese: true, tomato: true, cucumber: true, pepperoni: true }
}

#[test]
fn isqrt_exact_values() {
    assert_eq!(isqrt(0), 0);
    assert_eq!(isqrt(1), 1);
    assert_eq!(isqrt(35), 5);
    assert_eq!(isqrt(36), 6);
    assert_eq!(isqrt(360_000), 600);
    assert_eq!(isqrt(u64::MAX), 4_294_967_295);
}

#[test]
fn mul_div_trunc_rounds_toward_zero() {
    assert_eq!(mul_div_trunc(7, 3, 2), 10);
    assert_eq!(mul_div_trunc(-7, 3, 2), -10);
    assert_eq!(mul_div_trunc(0, 5, 3), 0);
    assert_eq!(mul_div_trunc(-1, 1, 2), 0);
}

#[test]
fn id_gen_is_monotonic() {
    let mut g = IdGen::new();
    assert_eq!(g.gen().raw(), 0);
    assert_eq!(g.gen().raw(), 1);
    assert_eq!(g.gen().raw(), 2);
}

#[test]
fn ingredient_all_lists_each_once() {
    let all = Ingredient::all();
    assert_eq!(
        all,
        vec![Ingredient::Cheese, Ingredient::Tomato, Ingredient::Cucumber, Ingredient::Pepperoni]
    );
}

#[test]
fn ingredient_colors() {
    assert_eq!(Ingredient::Cheese.color(), Color { r: 1000, g: 1000, b: 0 });
    assert_eq!(Ingredient::Tomato.color(), Color { r: 1000, g: 0, b: 0 });
    assert_eq!(Ingredient::Cucumber.color(), Color { r: 0, g: 1000, b: 0 });
    assert_eq!(Ingredient::Pepperoni.color(), Color { r: 1000, g: 500, b: 0 });
}

#[test]
fn ingredient_set_insert_and_contains() {
    let mut s = IngredientSet::empty();
    assert!(!s.contains(Ingredient::Cheese));
    s.insert(Ingredient::Cheese);
    assert!(s.contains(Ingredient::Cheese));
    assert!(!s.contains(Ingredient::Tomato));
    let once = s;
    s.insert(Ingredient::Cheese);
    assert_eq!(s, once);
}

// Velocity approaches the target speed monotonically and never overshoots.
#[test]
fn velocity_monotone_approach() {
    let mut g = IdGen::new();
    let mut p = Player::new(&mut g);
    p.target_velocity = vec2(1000, 0);
    let dt = 50;
    let mut last = p.velocity.x;
    let mut trace = Vec::new();
    for _ in 0..30 {
        p.update(dt);
        assert!(p.velocity.x >= last, "velocity moved away from the target");
        assert!(p.velocity.x <= 6000, "velocity overshot the target speed");
        assert_eq!(p.velocity.y, 0);
        last = p.velocity.x;
        trace.push(p.velocity.x);
    }
    assert_eq!(trace[0], 2500);
    assert_eq!(trace[1], 5000);
    assert_eq!(trace[2], 6000);
    assert_eq!(trace[29], 6000);
}

#[test]
fn velocity_monotone_approach_diagonal() {
    let mut g = IdGen::new();
    let mut p = Player::new(&mut g);
    p.target_velocity = vec2(707, -707);
    let mut last_gap_x = 707 * 6 - p.velocity.x;
    let mut last_gap_y = -707 * 6 - p.velocity.y;
    for _ in 0..40 {
        p.update(50);
        let gap_x = 707 * 6 - p.velocity.x;
        let gap_y = -707 * 6 - p.velocity.y;
        assert!(gap_x.abs() <= last_gap_x.abs());
        assert!(gap_y.abs() <= last_gap_y.abs());
        assert!(gap_x >= 0 && gap_y <= 0, "an axis overshot its target");
        last_gap_x = gap_x;
        last_gap_y = gap_y;
    }
}

// Collision resolution is idempotent at the fixed point.
#[test]
fn collide_fixed_point_is_idempotent() {
    let mut g = IdGen::new();
    let mut p = Player::new(&mut g);
    // centre distance 1000 equals the combined radii 500 + 500
    let moved = p.collide(vec2(1000, 0), 500);
    assert!(!moved);
    assert_eq!(p.position, vec2(0, 0));
}

#[test]
fn collide_pushes_until_touching() {
    let mut g = IdGen::new();
    let mut p = Player::new(&mut g);
    let moved = p.collide(vec2(600, 0), 500);
    assert!(moved);
    assert_eq!(p.position, vec2(-400, 0));
    // now exactly touching: resolving again changes nothing
    let again = p.collide(vec2(600, 0), 500);
    assert!(!again);
    assert_eq!(p.position, vec2(-400, 0));
}

#[test]
fn collide_skips_coincident_centres() {
    let mut g = IdGen::new();
    let mut p = Player::new(&mut g);
    let moved = p.collide(vec2(0, 0), 500);
    assert!(!moved);
    assert_eq!(p.position, vec2(0, 0));
}

#[test]
fn update_advances_position() {
    let mut g = IdGen::new();
    let mut p = Player::new(&mut g);
    p.target_velocity = vec2(1000, 0);
    p.update(50);
    // one step: velocity clamped to 2500, position 2500 * 50 / 1000
    assert_eq!(p.velocity.x, 2500);
    assert_eq!(p.position, vec2(125, 0));
}

// Join scenario: one player at the spawn, identifier zero, matching event.
#[test]
fn welcome_on_empty_world() {
    let mut m = Model::new();
    let (welcome, events) = m.welcome();
    assert_eq!(welcome.player_id.raw(), 0);
    assert_eq!(m.players.len(), 1);
    assert_eq!(m.players[0].id.raw(), 0);
    assert_eq!(m.players[0].position, vec2(0, 0));
    assert_eq!(m.players[0].velocity, vec2(0, 0));
    assert!(m.players[0].pizza.is_none());
    assert_eq!(events.len(), 1);
    assert_eq!(events[0], Event::PlayerJoined(m.players[0]));
    // the snapshot is the world as it stands after the join
    assert_eq!(welcome.model.players, m.players);
    assert_eq!(welcome.model.tables, m.tables);
    assert_eq!(welcome.model.kitchen, m.kitchen);
    assert_eq!(welcome.model.next_order, m.next_order);
}

#[test]
fn world_initial_layout() {
    let m = Model::new();
    assert_eq!(m.ticks_per_second, TICKS_PER_SECOND);
    assert_eq!(m.next_order, 0);
    assert!(m.players.is_empty());
    assert_eq!(m.tables.len(), 10);
    assert_eq!(m.tables[0].position, vec2(-10000, -10000));
    assert_eq!(m.tables[9].position, vec2(10000, -5000));
    assert!(m.tables.iter().all(|t| t.radius == 1000 && t.person.is_none() && t.order.is_none()));
    assert_eq!(m.kitchen.len(), 7);
}

// Removing an identifier that is absent is a no-op, not an error.
#[test]
fn player_left_absent_is_noop() {
    let mut m = Model::new();
    let (welcome, _) = m.welcome();
    let mut g = IdGen::new();
    let _taken = g.gen();
    let absent = g.gen();
    assert_ne!(absent.raw(), welcome.player_id.raw());
    let events = m.drop_player(absent);
    assert_eq!(events, vec![Event::PlayerLeft(absent)]);
    assert_eq!(m.players.len(), 1);
    assert_eq!(m.players[0].id.raw(), welcome.player_id.raw());
    // and twice on an empty world
    let mut empty = Model::new();
    let _ = empty.drop_player(absent);
    let _ = empty.drop_player(absent);
    assert!(empty.players.is_empty());
}

// Join A, join B, A leaves: only B remains, applied one by one or as a batch.
#[test]
fn event_sequence_independence() {
    let mut source = Model::new();
    let (wa, e1) = source.welcome();
    let (wb, e2) = source.welcome();
    let e3 = source.drop_player(wa.player_id);
    let log = vec![e1[0], e2[0], e3[0]];

    let mut one_by_one = Model::new();
    one_by_one.handle(log[0]);
    one_by_one.handle(log[1]);
    one_by_one.handle(log[2]);

    let mut batch = Model::new();
    for event in &log {
        batch.handle(*event);
    }

    assert_eq!(one_by_one.players.len(), 1);
    assert_eq!(one_by_one.players[0].id.raw(), wb.player_id.raw());
    assert_eq!(one_by_one.players, batch.players);
    assert_eq!(one_by_one.players, source.players);
    assert_eq!(one_by_one.tables, batch.tables);
}

#[test]
fn player_can_carry_a_pizza() {
    let mut m = Model::new();
    let (welcome, _) = m.welcome();
    let mut mine = m.players[0];
    let mut toppings = IngredientSet::empty();
    toppings.insert(Ingredient::Cheese);
    toppings.insert(Ingredient::Tomato);
    mine.pizza = Some(Pizza { ingredients: toppings, state: PizzaState::Raw });
    let _ = m.handle_message(welcome.player_id, ClientMessage::Event(Event::PlayerUpdated(mine)));
    let carried = m.players[0].pizza.expect("the update should carry the pizza");
    assert_eq!(carried.state, PizzaState::Raw);
    assert!(carried.ingredients.contains(Ingredient::Cheese));
    assert!(!carried.ingredients.contains(Ingredient::Pepperoni));
}

#[test]
fn handle_message_applies_and_echoes() {
    let mut m = Model::new();
    let (welcome, _) = m.welcome();
    let mut mine = m.players[0];
    mine.position = vec2(300, -200);
    mine.velocity = vec2(1500, 0);
    let events = m.handle_message(welcome.player_id, ClientMessage::Event(Event::PlayerUpdated(mine)));
    assert_eq!(events, vec![Event::PlayerUpdated(mine)]);
    assert_eq!(m.players.len(), 1);
    assert_eq!(m.players[0].position, vec2(300, -200));
}

#[test]
fn order_event_overwrites_and_clears() {
    let mut m = Model::new();
    m.handle(Event::Order(3, Some(full_order())));
    assert_eq!(m.tables[3].order, Some(full_order()));
    let one = IngredientSet { cheese: true, tomato: false, cucumber: false, pepperoni: false };
    m.handle(Event::Order(3, Some(one)));
    assert_eq!(m.tables[3].order, Some(one));
    m.handle(Event::Order(3, None));
    assert!(m.tables[3].order.is_none());
}

// Exactly one interval elapsing over all-empty tables emits one order.
#[test]
fn replenishment_emits_one_order() {
    let mut m = Model::new();
    let events = m.tick();
    assert_eq!(events.len(), 1);
    match events[0] {
        Event::Order(idx, Some(order)) => {
            assert!(idx < m.tables.len());
            assert_eq!(m.tables[idx].order, Some(order));
        }
        ref other => panic!("expected an order event, got {:?}", other),
    }
    assert_eq!(m.next_order, ORDER_INTERVAL - 1000 / TICKS_PER_SECOND as i64);
}

// Each ingredient lands in a fresh order about half of the time.
#[test]
fn replenishment_ingredients_are_fair() {
    let trials = 400;
    let mut counts = [0usize; 4];
    let mut table_hits = [0usize; 10];
    for _ in 0..trials {
        let mut m = Model::new();
        let events = m.tick();
        assert_eq!(events.len(), 1);
        match events[0] {
            Event::Order(idx, Some(order)) => {
                table_hits[idx] += 1;
                if order.cheese {
                    counts[0] += 1;
                }
                if order.tomato {
                    counts[1] += 1;
                }
                if order.cucumber {
                    counts[2] += 1;
                }
                if order.pepperoni {
                    counts[3] += 1;
                }
            }
            ref other => panic!("expected an order event, got {:?}", other),
        }
    }
    for &c in counts.iter() {
        assert!(c > 100 && c < 300, "ingredient frequency {} of {} is far from one half", c, trials);
    }
    // the table is drawn from all ten, not handed back as a constant
    assert!(table_hits.iter().filter(|&&h| h > 0).count() > 1);
}

// A full interval elapsing with every table ordering emits nothing.
#[test]
fn no_orders_when_all_tables_are_full() {
    let mut m = Model::new();
    for i in 0..m.tables.len() {
        m.handle(Event::Order(i, Some(full_order())));
    }
    let before = m.tables.clone();
    let events = m.tick();
    assert!(events.is_empty());
    assert_eq!(m.tables, before);
    assert_eq!(m.next_order, ORDER_INTERVAL - 1000 / TICKS_PER_SECOND as i64);
}

#[test]
fn timer_counts_down_without_expiry() {
    let mut m = Model::new();
    m.next_order = 1000;
    let events = m.tick();
    assert!(events.is_empty());
    assert_eq!(m.next_order, 1000 - 1000 / TICKS_PER_SECOND as i64);
}

// Replenishments keep filling empty tables, one per interval, and stop
// once every table holds an order; the timer stays inside one interval.
#[test]
fn orders_fill_all_tables_over_time() {
    let mut m = Model::new();
    let mut total = 0;
    for _ in 0..1000 {
        total += m.tick().len();
        assert!(m.next_order >= 0 && m.next_order <= ORDER_INTERVAL);
    }
    assert_eq!(total, 10);
    assert!(m.tables.iter().all(|t| t.order.is_some()));
}

// With one eligible table the random draw must land on it.
#[test]
fn replenishment_targets_the_only_empty_table() {
    let mut m = Model::new();
    for i in 0..m.tables.len() {
        if i != 7 {
            m.handle(Event::Order(i, Some(full_order())));
        }
    }
    let events = m.tick();
    assert_eq!(events.len(), 1);
    match events[0] {
        Event::Order(idx, Some(_)) => assert_eq!(idx, 7),
        ref other => panic!("expected an order event, got {:?}", other),
    }
    assert!(m.tables[7].order.is_some());
}

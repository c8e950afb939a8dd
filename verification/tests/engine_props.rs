use base_car::contract::execute_buy_accelerate;
use base_car::contract::execute_buy_banana;
use base_car::contract::execute_buy_shell;
use base_car::contract::execute_buy_shield;
use base_car::contract::execute_buy_super_shell;
use base_car::contract::execute_play;
use base_car::contract::execute_register;
use base_car::contract::execute_reset;
use base_car::contract::get_cars_sorted_by_y;
use base_car::error::ContractError;
use base_car::helpers::compute_action_price;
use base_car::helpers::get_accel_cost;
use base_car::contract::delegation_targets;
use base_car::helpers::get_bananas_sorted_by_y;
use base_car::helpers::get_shell_cost;
use base_car::helpers::WAD;
use base_car::msg::Event;
use base_car::state::ActionType;
use base_car::state::CarData;
use base_car::state::GameState;
use base_car::state::State;

fn register_state() -> GameState {
    let mut state = GameState::default();
    let res = execute_register(
        &mut state,
        true,
        vec!["car1".to_string(), "car2".to_string(), "car3".to_string()],
    );
    assert!(res.is_ok());
    state
}

fn car(balance: u64, addr: &str, y: u64, speed: u64, shield: u64) -> CarData {
    CarData { balance, addr: addr.to_string(), y, speed, shield }
}

/// Car A at 0, car B strictly ahead; the stock cap is 1.
fn two_car_state(b: CarData, bananas: Vec<u64>) -> GameState {
    let mut state = GameState::default();
    state.config.num_players = 2;
    state.all_cars = vec![car(17500, "carA", 0, 0, 0), b];
    state.state = State::Active;
    state.bananas = bananas;
    state
}

#[test]
fn registration_initializes_every_car() {
    let state = register_state();
    assert_eq!(state.all_cars.len(), 3);
    for c in &state.all_cars {
        assert_eq!(c.balance, 17500);
        assert_eq!(c.y, 0);
        assert_eq!(c.speed, 0);
        assert_eq!(c.shield, 0);
    }
    assert_eq!(state.all_cars[0].addr, "car1".to_string());
    assert_eq!(state.all_cars[1].addr, "car2".to_string());
    assert_eq!(state.all_cars[2].addr, "car3".to_string());
    assert!(state.state == State::Active);
}

#[test]
fn pricing_is_additive() {
    // A race three turns in, with a decaying, demand-adjusted shell price
    // and a flat acceleration price.
    let mut state = GameState::for_test();
    state.config.shell_target_price = 640;
    state.config.shell_per_turn_decrease = WAD / 2;
    state.config.shell_sell_per_turn = 2;
    state.config.accel_target_price = 25;
    assert_eq!(
        get_shell_cost(&state, 5, 0),
        get_shell_cost(&state, 2, 0) + get_shell_cost(&state, 3, 2)
    );
    assert_eq!(
        get_accel_cost(&state, 4, 10),
        get_accel_cost(&state, 1, 10) + get_accel_cost(&state, 3, 11)
    );
}

#[test]
fn price_follows_decay_and_demand() {
    // Half-price decay per turn, two sales expected per turn.
    let tp = 1000;
    let dec = WAD / 2;
    let r = 2;
    assert_eq!(compute_action_price(tp, dec, 0, 0, r), 1000); // on pace at the start
    assert_eq!(compute_action_price(tp, dec, 1, 2, r), 1000); // still on pace
    assert_eq!(compute_action_price(tp, dec, 1, 0, r), 500); // one turn behind
    assert_eq!(compute_action_price(tp, dec, 2, 0, r), 250); // two turns behind
    assert_eq!(compute_action_price(tp, dec, 0, 2, r), 2000); // one turn ahead
    assert_eq!(compute_action_price(tp, dec, 0, 4, r), 4000); // two turns ahead
    assert_eq!(compute_action_price(tp, dec, 3, 2, r), 250); // net two behind
    // With no decay configured the price sits at the target, whatever the
    // pace.
    assert_eq!(compute_action_price(tp, 0, 7, 5, 3), 1000);
    // The batch cost walks the curve unit by unit: at two sales per turn
    // and one turn elapsed, units 0 and 1 sell below pace at the decayed
    // price and unit 2 reaches the pace, selling at the target again.
    let mut state = GameState::default();
    state.turns = 1;
    state.config.shell_target_price = tp;
    state.config.shell_per_turn_decrease = dec;
    state.config.shell_sell_per_turn = r;
    assert_eq!(get_shell_cost(&state, 3, 0), 500 + 500 + 1000);
}

#[test]
fn accelerate_then_one_turn_moves_only_moving_cars() {
    let mut state = register_state();
    // A flat acceleration price of 10 a unit: at turns = 0 and no sales the
    // curve sits exactly at the target.
    state.config.accel_target_price = 10;
    let ev = execute_buy_accelerate(&mut state, &"car1".to_string(), 1).unwrap();
    assert_eq!(state.all_cars[0].speed, 1);
    assert_eq!(state.all_cars[0].balance, 17490);
    match ev {
        Event::BoughtAccelerate { cost, amount, .. } => {
            assert_eq!(cost, 10);
            assert_eq!(amount, 1);
        },
        other => panic!("unexpected event: {:?}", other),
    }

    assert!(execute_play(&mut state, true, 1).is_ok());
    assert_eq!(state.all_cars[0].y, 1);
    assert_eq!(state.all_cars[1].y, 0);
    assert_eq!(state.all_cars[2].y, 0);
    assert_eq!(state.turns, 1);
}

#[test]
fn shell_clamps_unshielded_fast_car_ahead() {
    let mut state = two_car_state(car(17500, "carB", 5, 10, 0), vec![]);
    let ev = execute_buy_shell(&mut state, &"carA".to_string(), 1).unwrap();
    assert_eq!(state.all_cars[1].speed, 1);
    match ev {
        Event::Shelled { shelled, .. } => assert_eq!(shelled, "carB".to_string()),
        other => panic!("unexpected event: {:?}", other),
    }
}

#[test]
fn hazard_between_shooter_and_target_blocks_shell() {
    let mut state = two_car_state(car(17500, "carB", 5, 10, 0), vec![3]);
    let ev = execute_buy_shell(&mut state, &"carA".to_string(), 1).unwrap();
    assert_eq!(state.all_cars[1].speed, 10);
    assert!(state.bananas.is_empty());
    assert!(matches!(ev, Event::BoughtShell { .. }));
}

#[test]
fn shield_blocks_shell_but_not_super_shell() {
    let mut state = two_car_state(car(17500, "carB", 5, 10, 2), vec![]);

    let ev = execute_buy_shell(&mut state, &"carA".to_string(), 1).unwrap();
    assert_eq!(state.all_cars[1].speed, 10);
    assert!(matches!(ev, Event::BoughtShell { .. }));

    let ev = execute_buy_super_shell(&mut state, &"carA".to_string(), 1).unwrap();
    assert_eq!(state.all_cars[1].speed, 1);
    assert_eq!(state.all_cars[1].shield, 2);
    match ev {
        Event::SuperShelled { shelled, .. } => assert_eq!(shelled, "carB".to_string()),
        other => panic!("unexpected event: {:?}", other),
    }
}

#[test]
fn shell_never_touches_cars_behind_or_level() {
    let mut state = GameState::default();
    state.config.num_players = 3;
    state.all_cars = vec![
        car(17500, "behind", 0, 9, 0),
        car(17500, "level", 4, 9, 0),
        car(17500, "shooter", 4, 3, 0),
    ];
    state.state = State::Active;
    let ev = execute_buy_shell(&mut state, &"shooter".to_string(), 1).unwrap();
    assert_eq!(state.all_cars[0], car(17500, "behind", 0, 9, 0));
    assert_eq!(state.all_cars[1], car(17500, "level", 4, 9, 0));
    assert_eq!(state.all_cars[2].speed, 3);
    assert_eq!(state.all_cars[2].y, 4);
    assert!(matches!(ev, Event::BoughtShell { .. }));
}

#[test]
fn turn_advance_counts_exactly_or_fails_atomically() {
    let mut state = register_state();
    assert!(execute_play(&mut state, true, 5).is_ok());
    assert_eq!(state.turns, 5);

    let mut empty = GameState::default();
    let res = execute_play(&mut empty, true, 5);
    assert_eq!(res, Err(ContractError::NotEnoughPlayers));
    assert_eq!(empty.turns, 0);
}

#[test]
fn movement_stops_at_nearest_hazard_without_consuming_it() {
    let mut state = two_car_state(car(17500, "carB", 5, 10, 0), vec![2, 4]);
    // carB runs from 5; carA stands still at 0 with a hazard at 2 ahead.
    let mut a = state.all_cars[0].clone();
    a.speed = 7;
    state.all_cars[0] = a;
    assert!(execute_play(&mut state, true, 1).is_ok());
    assert_eq!(state.all_cars[0].y, 2);
    assert_eq!(state.all_cars[1].y, 15);
    assert_eq!(state.bananas, vec![2, 4]);

    // A hazard only stops cars strictly behind it, so the car moves off 2
    // on the next turn — and runs into the one at 4.
    assert!(execute_play(&mut state, true, 1).is_ok());
    assert_eq!(state.all_cars[0].y, 4);
}

#[test]
fn shield_decays_one_charge_each_turn() {
    let mut state = two_car_state(car(17500, "carB", 5, 0, 2), vec![]);
    assert!(execute_play(&mut state, true, 1).is_ok());
    assert_eq!(state.all_cars[1].shield, 1);
    assert!(execute_play(&mut state, true, 1).is_ok());
    assert_eq!(state.all_cars[1].shield, 0);
    assert!(execute_play(&mut state, true, 1).is_ok());
    assert_eq!(state.all_cars[1].shield, 0);
}

#[test]
fn banana_lands_sorted_and_never_stacks() {
    let mut state = two_car_state(car(17500, "carB", 5, 0, 0), vec![2, 9]);
    state.config.banana_target_price = 7;
    let ev = execute_buy_banana(&mut state, &"carB".to_string()).unwrap();
    assert_eq!(state.bananas, vec![2, 5, 9]);
    match ev {
        Event::BoughtBanana { y, cost, .. } => {
            assert_eq!(y, 5);
            assert_eq!(cost, 7);
        },
        other => panic!("unexpected event: {:?}", other),
    }
    let balance_after = state.all_cars[1].balance;
    assert_eq!(balance_after, 17493);

    let ev = execute_buy_banana(&mut state, &"carB".to_string()).unwrap();
    assert!(matches!(ev, Event::BananaInPlace { .. }));
    assert_eq!(state.bananas, vec![2, 5, 9]);
    assert_eq!(state.all_cars[1].balance, balance_after);
}

#[test]
fn shield_purchase_grants_amount_plus_one() {
    let mut state = register_state();
    state.config.shield_target_price = 1;
    let ev = execute_buy_shield(&mut state, &"car2".to_string(), 3).unwrap();
    assert_eq!(state.all_cars[1].shield, 4);
    assert_eq!(state.all_cars[1].balance, 17497);
    assert!(matches!(ev, Event::BoughtShield { .. }));
}

#[test]
fn every_error_variant_has_a_trigger() {
    let mut state = register_state();
    let car1 = "car1".to_string();

    assert_eq!(execute_buy_shell(&mut state, &car1, 0), Err(ContractError::ZeroAmount));
    assert_eq!(execute_buy_shield(&mut state, &car1, 0), Err(ContractError::ZeroAmount));
    assert_eq!(execute_buy_super_shell(&mut state, &car1, 0), Err(ContractError::ZeroAmount));
    assert_eq!(execute_buy_accelerate(&mut state, &car1, 0), Err(ContractError::ZeroAmount));

    let nobody = "nobody".to_string();
    assert_eq!(execute_buy_shell(&mut state, &nobody, 1), Err(ContractError::UnknownCar));
    assert_eq!(execute_buy_banana(&mut state, &nobody), Err(ContractError::UnknownCar));

    assert_eq!(execute_reset(&mut state, false), Err(ContractError::Unauthorized));
    assert_eq!(execute_play(&mut state, false, 1), Err(ContractError::Unauthorized));

    let full_roster = vec!["car1".to_string(), "car2".to_string(), "car3".to_string()];
    assert_eq!(
        execute_register(&mut state, true, full_roster),
        Err(ContractError::LimitPlayers)
    );

    let mut broke = two_car_state(car(0, "carB", 5, 0, 0), vec![]);
    broke.config.accel_target_price = 5;
    assert_eq!(
        execute_buy_accelerate(&mut broke, &"carB".to_string(), 1),
        Err(ContractError::InsufficientBalance)
    );
}

#[test]
fn well_formedness_check_spots_bad_states() {
    assert!(register_state().check_wf());
    assert!(GameState::for_test().check_wf());

    let mut unsorted = GameState::default();
    unsorted.bananas = vec![5, 3];
    assert!(!unsorted.check_wf());

    let mut stacked = GameState::default();
    stacked.bananas = vec![4, 4];
    assert!(!stacked.check_wf());

    let mut twins = GameState::default();
    twins.all_cars = vec![car(1, "same", 0, 0, 0), car(1, "same", 3, 0, 0)];
    assert!(!twins.check_wf());
}

#[test]
fn delegation_targets_follow_round_robin() {
    let mut state = register_state();
    state.turns = 4;
    let targets = delegation_targets(&state, 5);
    let expected: Vec<String> =
        vec!["car2", "car3", "car1", "car2", "car3"].into_iter().map(String::from).collect();
    assert_eq!(targets, expected);

    let empty = GameState::default();
    assert!(delegation_targets(&empty, 3).is_empty());
}

#[test]
fn bananas_sort_ascending_whatever_the_input_order() {
    let mut state = GameState::default();
    state.bananas = vec![9, 2, 5, 2];
    let sorted = get_bananas_sorted_by_y(&state);
    assert_eq!(sorted, vec![2, 2, 5, 9]);
}

#[test]
fn cars_sort_leader_first() {
    let mut state = GameState::default();
    state.all_cars = vec![
        car(1, "slowpoke", 0, 0, 0),
        car(1, "leader", 7, 0, 0),
        car(1, "chaser", 3, 0, 0),
    ];
    let order = get_cars_sorted_by_y(&state);
    assert_eq!(
        order,
        vec!["leader".to_string(), "chaser".to_string(), "slowpoke".to_string()]
    );
}

#[test]
fn action_labels_match_wire_names() {
    assert_eq!(ActionType::Accelerate.label(), "accelerate".to_string());
    assert_eq!(ActionType::Shell.label(), "shell".to_string());
    assert_eq!(ActionType::SuperShell.label(), "super_shell".to_string());
    assert_eq!(ActionType::Banana.label(), "banana".to_string());
    assert_eq!(ActionType::Shield.label(), "shield".to_string());
}

#[test]
fn purchases_are_recorded_in_the_ledger() {
    let mut state = register_state();
    let car1 = "car1".to_string();
    execute_buy_accelerate(&mut state, &car1, 2).unwrap();
    execute_buy_shell(&mut state, &car1, 3).unwrap();
    execute_buy_banana(&mut state, &car1).unwrap();
    assert_eq!(state.sold.get(ActionType::Accelerate), 2);
    assert_eq!(state.sold.get(ActionType::Shell), 3);
    assert_eq!(state.sold.get(ActionType::Banana), 1);
    assert_eq!(state.sold.get(ActionType::SuperShell), 0);
    assert_eq!(state.sold.get(ActionType::Shield), 0);
}

#[test]
fn shell_on_an_empty_road_still_consumes_the_hazard_ahead() {
    let mut state = two_car_state(car(17500, "carB", 0, 4, 0), vec![7]);
    // Both cars sit at 0: nobody is strictly ahead of the leader's shell,
    // but the hazard at 7 is, and it takes the hit.
    let ev = execute_buy_shell(&mut state, &"carA".to_string(), 1).unwrap();
    assert!(state.bananas.is_empty());
    assert_eq!(state.all_cars[1].speed, 4);
    assert!(matches!(ev, Event::BoughtShell { .. }));
}

#[test]
fn super_shell_passes_over_slow_cars_to_the_nearest_fast_one() {
    let mut state = GameState::default();
    state.config.num_players = 3;
    state.all_cars = vec![
        car(17500, "shooter", 0, 0, 0),
        car(17500, "slow", 2, 1, 0),
        car(17500, "fast", 6, 9, 0),
    ];
    state.state = State::Active;
    let ev = execute_buy_super_shell(&mut state, &"shooter".to_string(), 1).unwrap();
    assert_eq!(state.all_cars[1].speed, 1);
    assert_eq!(state.all_cars[2].speed, 1);
    match ev {
        Event::SuperShelled { shelled, .. } => assert_eq!(shelled, "fast".to_string()),
        other => panic!("unexpected event: {:?}", other),
    }
}

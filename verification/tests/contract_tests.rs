use base_car::contract::execute;
use base_car::contract::execute_play;
use base_car::contract::execute_register;
use base_car::contract::execute_reset;
use base_car::contract::get_all_car_data_and_find_car;
use base_car::contract::get_cars_sorted_by_y;
use base_car::msg::ExecuteMsg;
use base_car::query;
use base_car::state::GameState;
use base_car::state::State;

fn instantiate_state() -> GameState {
    GameState::default()
}

fn register_state() -> GameState {
    let mut state = instantiate_state();
    let res = execute_register(
        &mut state,
        true,
        vec!["car1".to_string(), "car2".to_string(), "car3".to_string()],
    );
    assert!(res.is_ok());
    state
}

#[test]
fn test_instantiate_work() {
    let state = instantiate_state();
    assert!(state.state == State::Waiting);
    assert_eq!(state.turns, 0);
    assert_eq!(state.total_cars(), 0);
}

#[test]
fn test_reset() {
    let mut state = instantiate_state();

    let res = execute_reset(&mut state, true);
    assert!(res.is_ok());

    let res = execute_reset(&mut state, false);
    assert!(res.is_err());
}

#[test]
fn test_register() {
    let mut state = instantiate_state();
    let car_addrs = vec!["car1".to_string(), "car2".to_string(), "car3".to_string()];

    let res = execute_register(&mut state, false, car_addrs.clone());
    assert!(res.is_err());

    let res = execute_register(&mut state, true, car_addrs);
    assert!(res.is_ok());
}

#[test]
fn test_buy_accel() {
    let mut state = register_state();

    let res = execute(&mut state, &"car1".to_string(), false, ExecuteMsg::BuyAccelerate {
        amount: 1,
    });

    println!("res: {:?}", res);

    assert!(res.is_ok());
}

#[test]
fn test_buy_shell() {
    let mut state = register_state();

    let res = execute(&mut state, &"car1".to_string(), false, ExecuteMsg::BuyShell { amount: 1 });

    assert!(res.is_ok());
}

#[test]
fn test_buy_ss() {
    let mut state = register_state();

    let res = execute(&mut state, &"car1".to_string(), false, ExecuteMsg::BuySuperShell {
        amount: 1,
    });

    assert!(res.is_ok());
}

#[test]
fn test_buy_shield() {
    let mut state = register_state();

    let res = execute(&mut state, &"car1".to_string(), false, ExecuteMsg::BuyShield { amount: 1 });

    assert!(res.is_ok());
}

#[test]
fn test_buy_banana() {
    let mut state = register_state();

    let res = execute(&mut state, &"car1".to_string(), false, ExecuteMsg::BuyBanana {});

    assert!(res.is_ok());
}

#[test]
fn test_query_owner() {
    let resp = query::get_owner(Some("owner".to_string()));
    assert!(resp.owner.is_some());

    println!("res: {:?}", resp.owner.unwrap());

    let resp = query::get_owner(Some("owner".to_string()));
    assert!(resp.owner.is_some());

    println!("res: {:?}", resp.owner.unwrap());
}

#[test]
fn test_query_all_car_data() {
    let state = instantiate_state();
    let resp = query::get_all_car_data(&state);
    println!("all_cars: {:?}", resp.all_cars);
    assert!(resp.all_cars.len() == 0);

    let state = register_state();
    let resp = query::get_all_car_data(&state);
    println!("all_cars: {:?}", resp.all_cars);
    assert!(resp.all_cars.len() == 3);
}

#[test]
fn test_query_game_state() {
    let state = instantiate_state();
    let resp = query::get_game_state(&state);
    println!("turns: {:?}", resp.turns);
    assert!(resp.turns == 0);
    println!("config: {:?}", resp.config);
    println!("state: {:?}", resp.state);
    assert!(resp.state == State::Waiting);

    let state = register_state();
    let resp = query::get_game_state(&state);
    println!("turns: {:?}", resp.turns);
    assert!(resp.turns == 0);
    println!("config: {:?}", resp.config);
    println!("state: {:?}", resp.state);
    assert!(resp.state == State::Active);
}

#[test]
fn test_get_cars_sorted_by_y() {
    let state = register_state();

    let cars = get_cars_sorted_by_y(&state);
    assert!(cars.len() == 3);
    println!("cars: {:?}", cars);
}

#[test]
fn test_get_all_car_data_and_find_car() {
    let state = register_state();

    let (all_car_data, found_car) = get_all_car_data_and_find_car(&state, &"car2".to_string());

    println!("all_car_data: {:?}", all_car_data);
    println!("found_car: {:?}", found_car);
    assert!(found_car.is_some());
}

#[test]
fn test_play() {}

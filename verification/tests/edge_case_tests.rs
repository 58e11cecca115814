//! Invalid inputs, malformed data and boundary values handed to the tool operations.
use openscenario::service::{
    handle_add_lane_change_action, handle_add_speed_action, handle_add_vehicle, handle_create_scenario,
    handle_set_position, ServerState,
};
use openscenario::Real;

fn create_test_state() -> ServerState {
    ServerState::new()
}

fn create_test_scenario(state: &mut ServerState) -> Result<String, String> {
    handle_create_scenario(state, "test_scenario", "1.2")
}

fn number(x: f64) -> Real {
    Real::from_bits(x.to_bits())
}

fn speed_action(
    state: &mut ServerState,
    scenario_id: &str,
    entity: &str,
    story: &str,
    speed: f64,
    duration: f64,
) -> Result<String, String> {
    handle_add_speed_action(
        state,
        scenario_id,
        entity,
        story,
        number(speed),
        number(duration),
        None,
        &format!("{}", speed),
        &format!("{}", duration),
        "",
    )
}

fn set_position(state: &mut ServerState, scenario_id: &str, entity: &str, x: f64, y: f64, z: f64, h: f64) -> Result<String, String> {
    handle_set_position(state, scenario_id, entity, number(x), number(y), number(z), number(h))
}

#[test]
fn test_empty_scenario_name() {
    let mut state = create_test_state();

    let result = handle_create_scenario(&mut state, "", "1.2");

    // An empty name is accepted: the id is the name and a fresh suffix.
    assert!(result.is_ok());
}

#[test]
fn test_invalid_version_string() {
    let mut state = create_test_state();

    let result = handle_create_scenario(&mut state, "test", "2.0");

    assert!(result.is_err());
    let err = result.unwrap_err();
    assert!(err.contains("Invalid version"));
    assert!(err.contains("1.0, 1.1, or 1.2"));
}

#[test]
fn test_malformed_version_string() {
    let mut state = create_test_state();

    let result = handle_create_scenario(&mut state, "test", "v1.2");

    assert!(result.is_err());
}

#[test]
fn test_nan_position_x() {
    let mut state = create_test_state();
    let scenario_id = create_test_scenario(&mut state).unwrap();
    handle_add_vehicle(&mut state, &scenario_id, "car1", "Car", None).unwrap();

    let result = set_position(&mut state, &scenario_id, "car1", f64::NAN, 0.0, 0.0, 0.0);

    // Either answer will do; it must not panic.
    let _ = result;
}

#[test]
fn test_infinity_position_value() {
    let mut state = create_test_state();
    let scenario_id = create_test_scenario(&mut state).unwrap();
    handle_add_vehicle(&mut state, &scenario_id, "car1", "Car", None).unwrap();

    let result = set_position(&mut state, &scenario_id, "car1", f64::INFINITY, 0.0, 0.0, 0.0);

    let _ = result;
}

#[test]
fn test_negative_infinity_position() {
    let mut state = create_test_state();
    let scenario_id = create_test_scenario(&mut state).unwrap();
    handle_add_vehicle(&mut state, &scenario_id, "car1", "Car", None).unwrap();

    let result = set_position(&mut state, &scenario_id, "car1", 0.0, f64::NEG_INFINITY, 0.0, 0.0);

    let _ = result;
}

#[test]
fn test_extremely_large_position_values() {
    let mut state = create_test_state();
    let scenario_id = create_test_scenario(&mut state).unwrap();
    handle_add_vehicle(&mut state, &scenario_id, "car1", "Car", None).unwrap();

    let result = set_position(&mut state, &scenario_id, "car1", 1e100, -1e100, 0.0, 0.0);

    assert!(result.is_ok() || result.is_err());
}

#[test]
fn test_negative_duration() {
    let mut state = create_test_state();
    let scenario_id = create_test_scenario(&mut state).unwrap();
    handle_add_vehicle(&mut state, &scenario_id, "car1", "Car", None).unwrap();

    let result = speed_action(&mut state, &scenario_id, "car1", "story1", 50.0, -5.0);

    let _ = result;
}

#[test]
fn test_zero_duration() {
    let mut state = create_test_state();
    let scenario_id = create_test_scenario(&mut state).unwrap();
    handle_add_vehicle(&mut state, &scenario_id, "car1", "Car", None).unwrap();

    let result = speed_action(&mut state, &scenario_id, "car1", "story1", 50.0, 0.0);

    let _ = result;
}

#[test]
fn test_negative_speed() {
    let mut state = create_test_state();
    let scenario_id = create_test_scenario(&mut state).unwrap();
    handle_add_vehicle(&mut state, &scenario_id, "car1", "Car", None).unwrap();

    let result = speed_action(&mut state, &scenario_id, "car1", "story1", -50.0, 5.0);

    let _ = result;
}

#[test]
fn test_invalid_vehicle_category() {
    let mut state = create_test_state();
    let scenario_id = create_test_scenario(&mut state).unwrap();

    let result = handle_add_vehicle(&mut state, &scenario_id, "vehicle1", "Airplane", None);

    assert!(result.is_err());
    let err = result.unwrap_err();
    assert!(err.contains("Invalid vehicle category"));
}

#[test]
fn test_empty_vehicle_name() {
    let mut state = create_test_state();
    let scenario_id = create_test_scenario(&mut state).unwrap();

    let result = handle_add_vehicle(&mut state, &scenario_id, "", "Car", None);

    let _ = result;
}

#[test]
fn test_duplicate_vehicle_name() {
    let mut state = create_test_state();
    let scenario_id = create_test_scenario(&mut state).unwrap();
    handle_add_vehicle(&mut state, &scenario_id, "car1", "Car", None).unwrap();

    let result = handle_add_vehicle(&mut state, &scenario_id, "car1", "Car", None);

    assert!(result.is_err());
    let err = result.unwrap_err();
    assert!(err.contains("already exists"));
}

#[test]
fn test_nonexistent_catalog_file() {
    let mut state = create_test_state();
    let scenario_id = create_test_scenario(&mut state).unwrap();

    let result = handle_add_vehicle(
        &mut state,
        &scenario_id,
        "car1",
        "Car",
        Some("/nonexistent/path/catalog.xosc:entry1"),
    );

    // The reference is stored as given; the file is not read here.
    let _ = result;
}

#[test]
fn test_malformed_catalog_reference() {
    let mut state = create_test_state();
    let scenario_id = create_test_scenario(&mut state).unwrap();

    let result = handle_add_vehicle(&mut state, &scenario_id, "car1", "Car", Some("malformed:::reference"));

    let _ = result;
}

#[test]
fn test_empty_catalog_reference() {
    let mut state = create_test_state();
    let scenario_id = create_test_scenario(&mut state).unwrap();

    let result = handle_add_vehicle(&mut state, &scenario_id, "car1", "Car", Some(""));

    let _ = result;
}

#[test]
fn test_action_on_nonexistent_entity() {
    let mut state = create_test_state();
    let scenario_id = create_test_scenario(&mut state).unwrap();

    let result = speed_action(&mut state, &scenario_id, "nonexistent_entity", "story1", 50.0, 5.0);

    assert!(result.is_ok() || result.is_err());
}

#[test]
fn test_position_on_nonexistent_entity() {
    let mut state = create_test_state();
    let scenario_id = create_test_scenario(&mut state).unwrap();

    let result = set_position(&mut state, &scenario_id, "nonexistent_car", 0.0, 0.0, 0.0, 0.0);

    assert!(result.is_err());
}

#[test]
fn test_very_long_scenario_name() {
    let mut state = create_test_state();
    let long_name = "a".repeat(10000);

    let result = handle_create_scenario(&mut state, &long_name, "1.2");

    let _ = result;
}

#[test]
fn test_special_characters_in_name() {
    let mut state = create_test_state();

    let result = handle_create_scenario(&mut state, "test<>\"'&scenario", "1.2");

    let _ = result;
}

#[test]
fn test_unicode_in_names() {
    let mut state = create_test_state();
    let scenario_id = create_test_scenario(&mut state).unwrap();

    let result = handle_add_vehicle(&mut state, &scenario_id, "车辆🚗", "Car", None);

    let _ = result;
}

#[test]
fn test_extreme_lane_offset() {
    let mut state = create_test_state();
    let scenario_id = create_test_scenario(&mut state).unwrap();
    handle_add_vehicle(&mut state, &scenario_id, "car1", "Car", None).unwrap();

    let result = handle_add_lane_change_action(
        &mut state,
        &scenario_id,
        "car1",
        "story1",
        number(999999.0),
        number(5.0),
        None,
        "999999",
        "5",
        "",
    );

    let _ = result;
}

#[test]
fn test_complete_error_handling_flow() {
    let mut state = create_test_state();

    // 1. Create scenario successfully
    let scenario_id = handle_create_scenario(&mut state, "test", "1.2").unwrap();

    // 2. Try invalid operation
    let _ = handle_add_vehicle(&mut state, "wrong_id", "car1", "Car", None);

    // 3. Valid operation should still work
    let result = handle_add_vehicle(&mut state, &scenario_id, "car1", "Car", None);
    assert!(result.is_ok());

    // 4. Try duplicate
    let result = handle_add_vehicle(&mut state, &scenario_id, "car1", "Car", None);
    assert!(result.is_err());

    // 5. Different vehicle should still work
    let result = handle_add_vehicle(&mut state, &scenario_id, "car2", "Car", None);
    assert!(result.is_ok());
}

#[test]
fn test_no_panic_on_mutex_operations() {
    let mut state = create_test_state();
    let scenario_id = create_test_scenario(&mut state).unwrap();

    for i in 0..100 {
        let _ = handle_add_vehicle(&mut state, &scenario_id, &format!("car{}", i), "Car", None);
    }

    assert_eq!(state.scenario(&scenario_id).unwrap().entities().len(), 100);
}

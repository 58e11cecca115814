use openscenario::entities::{VehicleCategory, VehicleParams};
use openscenario::{OpenScenarioVersion, Position, Real, Scenario, ScenarioError};

fn quantity(x: f64) -> Real {
    Real::from_bits(x.to_bits())
}

fn car() -> VehicleParams {
    VehicleParams { catalog: None, vehicle_category: VehicleCategory::Car, properties: None }
}

#[test]
fn added_entity_is_found() {
    let mut s = Scenario::new(OpenScenarioVersion::V1_2);
    s.add_vehicle(" a ", car()).unwrap();
    assert!(s.contains_entity("a"));
}

#[test]
fn second_add_conflicts() {
    let mut s = Scenario::new(OpenScenarioVersion::V1_2);
    s.add_vehicle("a", car()).unwrap();
    assert!(matches!(s.add_vehicle("  a", car()), Err(ScenarioError::EntityConflict { name, .. }) if name == "a"));
}

#[test]
fn entities_are_kept() {
    let mut s = Scenario::new(OpenScenarioVersion::V1_2);
    s.add_vehicle("a", car()).unwrap();
    s.add_vehicle("b", car()).unwrap();
    assert!(s.contains_entity("a") && s.contains_entity("b"));
}

#[test]
fn parameter_declared_once() {
    let mut s = Scenario::new(OpenScenarioVersion::V1_2);
    s.add_parameter("p", openscenario::ParameterType::Integer, "1").unwrap();
    assert!(s.add_parameter("p", openscenario::ParameterType::Double, "2").is_err());
    assert_eq!(s.parameters().len(), 1);
    assert_eq!(s.parameters()[0].value, "1");
}

#[test]
fn position_read_back() {
    let mut s = Scenario::new(OpenScenarioVersion::V1_2);
    s.add_vehicle("a", car()).unwrap();
    s.set_initial_position("a ", Position::road("7", quantity(3.0), quantity(1.0), None)).unwrap();
    assert!(matches!(s.get_initial_position("a"), Some(Position::Road { road_id, .. }) if road_id == "7"));
}

#[test]
fn story_added_once() {
    let mut s = Scenario::new(OpenScenarioVersion::V1_2);
    s.add_story("x").unwrap();
    assert!(s.add_story(" x ").is_err());
    assert_eq!(s.stories().len(), 1);
}

#[test]
fn group_added_once() {
    let mut s = Scenario::new(OpenScenarioVersion::V1_2);
    s.add_story("x").unwrap();
    s.add_act("x", "a").unwrap();
    s.add_maneuver_group("x", "a", "g").unwrap();
    assert!(matches!(s.add_maneuver_group("x", "a", "g"), Err(ScenarioError::EntityNotFound { .. })));
    assert_eq!(s.stories()[0].acts[0].maneuver_groups.len(), 1);
}

#[test]
fn actor_added_once() {
    let mut s = Scenario::new(OpenScenarioVersion::V1_2);
    s.add_vehicle("v", car()).unwrap();
    s.add_story("x").unwrap();
    s.add_act("x", "a").unwrap();
    s.add_maneuver_group("x", "a", "g").unwrap();
    s.add_actor("x", "a", "g", "v").unwrap();
    s.add_actor("x", "a", "g", "v").unwrap();
    assert_eq!(s.stories()[0].acts[0].maneuver_groups[0].actors.len(), 1);
}

#[test]
fn untrimmed_names_find_nothing() {
    let mut s = Scenario::new(OpenScenarioVersion::V1_2);
    s.add_vehicle("  ego\t", car()).unwrap();
    assert!(s.contains_entity("ego"));
    assert!(!s.contains_entity(" ego"));
    assert!(s.get_entity("ego ").is_none());
    assert_eq!(s.entity_names(), vec!["ego".to_string()]);
}

#[test]
fn short_condition_form_matches_full_form() {
    let mut a = Scenario::new(OpenScenarioVersion::V1_2);
    a.add_vehicle("ego", car()).unwrap();
    a.add_vehicle("lead", car()).unwrap();
    a.add_story("s").unwrap();
    a.add_act("s", "a").unwrap();
    a.add_maneuver_group("s", "a", "g").unwrap();
    a.add_maneuver("s", "a", "g", "m").unwrap();
    let mut b = Scenario::new(OpenScenarioVersion::V1_2);
    b.add_vehicle("ego", car()).unwrap();
    b.add_vehicle("lead", car()).unwrap();
    b.add_story("s").unwrap();
    b.add_act("s", "a").unwrap();
    b.add_maneuver_group("s", "a", "g").unwrap();
    b.add_maneuver("s", "a", "g", "m").unwrap();
    a.add_event_with_collision_condition("s", "a", "g", "m", "e", "ego".to_string(), "lead".to_string()).unwrap();
    b.add_event_with_collision_condition_advanced("s", "a", "g", "m", "e", "ego".to_string(), "lead".to_string(),
        openscenario::ConditionEdge::NoEdge, quantity(0.0)).unwrap();
    let ta = format!("{:?}", a.stories()[0].acts[0].maneuver_groups[0].maneuvers[0].events[0].start_trigger);
    let tb = format!("{:?}", b.stories()[0].acts[0].maneuver_groups[0].maneuvers[0].events[0].start_trigger);
    assert_eq!(ta, tb);
}

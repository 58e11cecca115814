use openscenario::entities::{MiscObjectParams, PedestrianParams, VehicleCategory, VehicleParams};
use openscenario::position::Position;
use openscenario::storyboard::{
    Action, ConditionEdge, ConditionKind, CoordinateSystem, DynamicsDimension, DynamicsShape, EntityCondition,
    RelativeDistanceType, Route, Rule, StopCondition, TimingMode, Trajectory, TransitionDynamics, TransitionShape, Trigger,
    TriggeringEntitiesRule, Vertex, Waypoint,
};
use openscenario::{OpenScenarioVersion, ParameterType, Real, Scenario, ScenarioError};

fn quantity(x: f64) -> Real {
    Real::from_bits(x.to_bits())
}

fn car() -> VehicleParams {
    VehicleParams { catalog: None, vehicle_category: VehicleCategory::Car, properties: None }
}

fn dynamics(value: f64) -> TransitionDynamics {
    TransitionDynamics { shape: DynamicsShape::Linear, dimension: DynamicsDimension::Time, value: quantity(value) }
}

/// A scenario with vehicles "ego" and "lead" and the path s1/a1/mg1/m1.
fn built() -> Scenario {
    let mut s = Scenario::new(OpenScenarioVersion::V1_2);
    s.add_vehicle("ego", car()).unwrap();
    s.add_vehicle("lead", car()).unwrap();
    s.add_story("s1").unwrap();
    s.add_act("s1", "a1").unwrap();
    s.add_maneuver_group("s1", "a1", "mg1").unwrap();
    s.add_actor("s1", "a1", "mg1", "ego").unwrap();
    s.add_maneuver("s1", "a1", "mg1", "m1").unwrap();
    s
}

fn first_event_actions(s: &Scenario) -> usize {
    s.stories()[0].acts[0].maneuver_groups[0].maneuvers[0].events[0].actions.len()
}

fn invalid_field(r: Result<(), ScenarioError>) -> String {
    match r {
        Err(ScenarioError::InvalidValue { field, .. }) => field,
        other => panic!("expected InvalidValue, got {:?}", other),
    }
}

#[test]
fn test_add_parameter_declaration() {
    let mut scenario = Scenario::new(OpenScenarioVersion::V1_0);

    let result = scenario.add_parameter("MaxSpeed", ParameterType::Double, "60.0");

    assert!(result.is_ok());
    assert_eq!(scenario.parameters().len(), 1);
    assert_eq!(scenario.parameters()[0].name, "MaxSpeed");
}

#[test]
fn test_add_parameter_duplicate_error() {
    let mut scenario = Scenario::new(OpenScenarioVersion::V1_0);
    scenario.add_parameter("Speed", ParameterType::Double, "50.0").unwrap();

    let result = scenario.add_parameter("Speed", ParameterType::Integer, "60");
    assert!(matches!(result, Err(ScenarioError::ParameterConflict { name }) if name == "Speed"));
}

#[test]
fn test_add_parameter_all_types() {
    let mut scenario = Scenario::new(OpenScenarioVersion::V1_0);

    scenario.add_parameter("Count", ParameterType::Integer, "42").unwrap();
    assert_eq!(scenario.parameters()[0].parameter_type, ParameterType::Integer);

    scenario.add_parameter("Speed", ParameterType::Double, "60.0").unwrap();
    assert_eq!(scenario.parameters()[1].parameter_type, ParameterType::Double);

    scenario.add_parameter("State", ParameterType::String, "active").unwrap();
    assert_eq!(scenario.parameters()[2].parameter_type, ParameterType::String);

    scenario.add_parameter("Debug", ParameterType::Boolean, "true").unwrap();
    assert_eq!(scenario.parameters()[3].parameter_type, ParameterType::Boolean);
}

#[test]
fn new_scenario_is_empty() {
    let s = Scenario::new(OpenScenarioVersion::V1_1);
    assert_eq!(s.version(), OpenScenarioVersion::V1_1);
    assert!(s.entities().is_empty());
    assert!(s.stories().is_empty());
    assert!(s.parameters().is_empty());
    assert!(s.road_network().is_none());
}

#[test]
fn entity_names_are_trimmed_and_found() {
    let mut s = Scenario::new(OpenScenarioVersion::V1_2);
    s.add_vehicle("  ego \t", car()).unwrap();
    assert!(s.get_entity("ego").is_some());
    assert_eq!(s.get_entity("ego").unwrap().name(), "ego");
    assert!(s.get_entity("  ego \t").is_none());
    assert_eq!(s.entity_names(), vec!["ego".to_string()]);
}

#[test]
fn duplicate_entity_is_a_conflict() {
    let mut s = Scenario::new(OpenScenarioVersion::V1_2);
    s.add_vehicle("ego", car()).unwrap();
    let r = s.add_pedestrian(" ego ", PedestrianParams { catalog: None, model: None, mass: None });
    match r {
        Err(e @ ScenarioError::EntityConflict { .. }) => {
            assert_eq!(e.message(), "Entity 'ego' already exists");
        }
        other => panic!("expected a conflict, got {:?}", other),
    }
    assert_eq!(s.entities().len(), 1);
}

#[test]
fn blank_entity_name_is_rejected() {
    let mut s = Scenario::new(OpenScenarioVersion::V1_2);
    let r = s.add_misc_object("   ", MiscObjectParams { catalog: None, category: None, mass: None });
    match r {
        Err(ScenarioError::InvalidValue { field, reason }) => {
            assert_eq!(field, "entity name");
            assert_eq!(reason, "name cannot be empty or whitespace-only");
        }
        other => panic!("expected InvalidValue, got {:?}", other),
    }
    assert!(s.entities().is_empty());
}

#[test]
fn initial_position_is_read_back() {
    let mut s = built();
    s.set_initial_position(" ego ", Position::world(quantity(1.0), quantity(2.0), quantity(0.0), quantity(0.5))).unwrap();
    match s.get_initial_position("ego") {
        Some(Position::World { x, y, .. }) => {
            assert_eq!(x.to_bits(), 1.0f64.to_bits());
            assert_eq!(y.to_bits(), 2.0f64.to_bits());
        }
        other => panic!("expected a world position, got {:?}", other),
    }
    // Setting it again replaces it.
    s.set_initial_position("ego", Position::world(quantity(5.0), quantity(2.0), quantity(0.0), quantity(0.5))).unwrap();
    assert_eq!(s.initial_positions().len(), 1);
}

#[test]
fn initial_position_errors() {
    let mut s = built();
    let r = s.set_initial_position(" ", Position::world(quantity(0.0), quantity(0.0), quantity(0.0), quantity(0.0)));
    assert_eq!(invalid_field(r), "entity reference");
    let r = s.set_initial_position("nobody", Position::world(quantity(0.0), quantity(0.0), quantity(0.0), quantity(0.0)));
    match r {
        Err(ScenarioError::EntityNotFound { entity, context }) => {
            assert_eq!(entity, "nobody");
            assert_eq!(context, "set_initial_position");
        }
        other => panic!("unexpected {:?}", other),
    }
    let rel = Position::relative_world("ghost", quantity(1.0), quantity(0.0), quantity(0.0), Default::default());
    match s.set_initial_position("ego", rel) {
        Err(ScenarioError::EntityNotFound { entity, context }) => {
            assert_eq!(entity, "ghost");
            assert_eq!(context, "Position for entity 'ego'");
        }
        other => panic!("unexpected {:?}", other),
    }
    assert!(s.initial_positions().is_empty());
}

#[test]
fn initial_speed_is_read_back() {
    let mut s = built();
    s.set_initial_speed("lead", quantity(12.5)).unwrap();
    assert_eq!(s.get_initial_speed("lead").unwrap().to_bits(), 12.5f64.to_bits());
    assert!(s.get_initial_speed("ego").is_none());
}

#[test]
fn story_names_are_unique() {
    let mut s = Scenario::new(OpenScenarioVersion::V1_2);
    s.add_story(" main ").unwrap();
    match s.add_story("main") {
        Err(ScenarioError::StoryNotFound { name, available }) => {
            assert_eq!(name, "main");
            assert_eq!(available, vec!["main".to_string()]);
        }
        other => panic!("unexpected {:?}", other),
    }
    assert_eq!(invalid_field(s.add_story("  ")), "story name");
    assert_eq!(s.stories().len(), 1);
}

#[test]
fn missing_story_lists_the_stories() {
    let mut s = Scenario::new(OpenScenarioVersion::V1_2);
    s.add_story("a").unwrap();
    s.add_story("b").unwrap();
    let e = s.add_act("c", "act").unwrap_err();
    assert_eq!(e.message(), "Story 'c' not found. Available stories: [\"a\", \"b\"]");
}

#[test]
fn adding_an_act_twice_fails_and_keeps_it() {
    let mut s = built();
    match s.add_act("s1", "a1") {
        Err(ScenarioError::EntityNotFound { entity, context }) => {
            assert_eq!(entity, "a1");
            assert_eq!(context, "Act already exists in story 's1'");
        }
        other => panic!("unexpected {:?}", other),
    }
    assert_eq!(s.stories()[0].acts.len(), 1);
    assert_eq!(s.stories()[0].acts[0].maneuver_groups.len(), 1);
}

#[test]
fn maneuver_group_names_are_unique() {
    let mut s = built();
    match s.add_maneuver_group("s1", "a1", "mg1") {
        Err(ScenarioError::EntityNotFound { entity, context }) => {
            assert_eq!(entity, "mg1");
            assert_eq!(context, "ManeuverGroup already exists in act 'a1'");
        }
        other => panic!("unexpected {:?}", other),
    }
}

#[test]
fn path_errors_name_the_missing_level() {
    let mut s = built();
    match s.add_maneuver("s1", "nope", "mg1", "m") {
        Err(ScenarioError::EntityNotFound { entity, context }) => {
            assert_eq!(entity, "nope");
            assert_eq!(context, "Act in story 's1'");
        }
        other => panic!("unexpected {:?}", other),
    }
    match s.add_maneuver("s1", "a1", "nope", "m") {
        Err(ScenarioError::EntityNotFound { entity, context }) => {
            assert_eq!(entity, "nope");
            assert_eq!(context, "ManeuverGroup in act 'a1'");
        }
        other => panic!("unexpected {:?}", other),
    }
    let r = s.add_position_action("s1", "a1", "mg1", "nope", "e", Position::world(quantity(0.0), quantity(0.0), quantity(0.0), quantity(0.0)));
    match r {
        Err(ScenarioError::EntityNotFound { entity, context }) => {
            assert_eq!(entity, "nope");
            assert_eq!(context, "Maneuver in ManeuverGroup 'mg1'");
        }
        other => panic!("unexpected {:?}", other),
    }
}

#[test]
fn actor_is_added_once() {
    let mut s = built();
    s.add_actor("s1", "a1", "mg1", "ego").unwrap();
    s.add_actor("s1", "a1", "mg1", " ego ").unwrap();
    assert_eq!(s.stories()[0].acts[0].maneuver_groups[0].actors, vec!["ego".to_string()]);
    match s.add_actor("s1", "a1", "mg1", "ghost") {
        Err(ScenarioError::EntityNotFound { entity, context }) => {
            assert_eq!(entity, "ghost");
            assert_eq!(context, "add_actor");
        }
        other => panic!("unexpected {:?}", other),
    }
}

#[test]
fn actions_go_to_one_event() {
    let mut s = built();
    s.add_speed_action("s1", "a1", "mg1", "m1", "e1", quantity(20.0), dynamics(3.0)).unwrap();
    s.add_lane_change_action("s1", "a1", "mg1", "m1", "e1", quantity(-3.5), quantity(4.0), TransitionShape::Sinusoidal).unwrap();
    let m = &s.stories()[0].acts[0].maneuver_groups[0].maneuvers[0];
    assert_eq!(m.events.len(), 1);
    assert_eq!(m.events[0].name, "e1");
    assert_eq!(first_event_actions(&s), 2);
    assert!(matches!(m.events[0].actions[0], Action::Speed(_)));
    assert!(matches!(m.events[0].actions[1], Action::LaneChange(_)));
    assert!(m.events[0].start_trigger.is_none());
}

#[test]
fn action_value_checks() {
    let mut s = built();
    assert_eq!(invalid_field(s.add_speed_action("s1", "a1", "mg1", "m1", "e", quantity(-1.0), dynamics(3.0))), "target_speed");
    assert_eq!(invalid_field(s.add_speed_action("s1", "a1", "mg1", "m1", "e", quantity(1.0), dynamics(0.0))), "dynamics.value");
    assert_eq!(
        invalid_field(s.add_lane_change_action("s1", "a1", "mg1", "m1", "e", quantity(1.0), quantity(0.0), TransitionShape::Linear)),
        "duration"
    );
    assert_eq!(invalid_field(s.add_acceleration_action("s1", "a1", "mg1", "m1", "e", quantity(2.0), quantity(-1.0), None)), "duration");
    assert_eq!(
        invalid_field(s.add_acceleration_action("s1", "a1", "mg1", "m1", "e", quantity(2.0), quantity(1.0), Some(dynamics(-2.0)))),
        "dynamics.value"
    );
    assert_eq!(
        invalid_field(s.add_lane_offset_action("s1", "a1", "mg1", "m1", "e", quantity(0.5), false, Some(dynamics(0.0)))),
        "dynamics.value"
    );
    // Nothing was added by the refused actions.
    assert!(s.stories()[0].acts[0].maneuver_groups[0].maneuvers[0].events.is_empty());
}

#[test]
fn acceleration_defaults_to_linear_dynamics_over_its_duration() {
    let mut s = built();
    s.add_acceleration_action("s1", "a1", "mg1", "m1", "e", quantity(2.0), quantity(3.0), None).unwrap();
    match &s.stories()[0].acts[0].maneuver_groups[0].maneuvers[0].events[0].actions[0] {
        Action::Acceleration(a) => {
            assert_eq!(a.dynamics.shape, DynamicsShape::Linear);
            assert_eq!(a.dynamics.dimension, DynamicsDimension::Time);
            assert_eq!(a.dynamics.value.to_bits(), 3.0f64.to_bits());
        }
        other => panic!("unexpected {:?}", other),
    }
}

#[test]
fn trajectory_and_route_need_two_points() {
    let mut s = built();
    let one = Trajectory {
        name: "t".to_string(),
        closed: false,
        vertices: vec![Vertex { time: quantity(0.0), position: Position::world(quantity(0.0), quantity(0.0), quantity(0.0), quantity(0.0)) }],
    };
    match s.add_follow_trajectory_action("s1", "a1", "mg1", "m1", "e", one, TimingMode::Untimed, None) {
        Err(ScenarioError::InvalidValue { field, reason }) => {
            assert_eq!(field, "trajectory.vertices");
            assert_eq!(reason, "trajectory must have at least 2 vertices (got 1)");
        }
        other => panic!("unexpected {:?}", other),
    }
    let route = Route { name: "r".to_string(), closed: false, waypoints: Vec::<Waypoint>::new() };
    match s.add_assign_route_action("s1", "a1", "mg1", "m1", "e", route) {
        Err(ScenarioError::InvalidValue { field, reason }) => {
            assert_eq!(field, "route.waypoints");
            assert_eq!(reason, "route must have at least 2 waypoints (got 0)");
        }
        other => panic!("unexpected {:?}", other),
    }
}

#[test]
fn speed_profile_checks_each_point_in_order() {
    let mut s = built();
    assert_eq!(invalid_field(s.add_speed_profile_action("s1", "a1", "mg1", "m1", "e", vec![], true)), "waypoints");
    let points = vec![(quantity(0.0), quantity(10.0)), (quantity(1.0), quantity(-2.0)), (quantity(-1.0), quantity(3.0))];
    assert_eq!(invalid_field(s.add_speed_profile_action("s1", "a1", "mg1", "m1", "e", points, true)), "waypoint[1].speed");
    let points = vec![(quantity(0.0), quantity(10.0)), (quantity(5.0), quantity(20.0))];
    s.add_speed_profile_action("s1", "a1", "mg1", "m1", "e", points, false).unwrap();
    match &s.stories()[0].acts[0].maneuver_groups[0].maneuvers[0].events[0].actions[0] {
        Action::SpeedProfile(p) => {
            assert_eq!(p.entries.len(), 2);
            assert!(!p.following_mode);
            assert_eq!(p.entries[1].speed.to_bits(), 20.0f64.to_bits());
        }
        other => panic!("unexpected {:?}", other),
    }
}

#[test]
fn synchronize_and_longitudinal_check_entities() {
    let mut s = built();
    let master = openscenario::storyboard::TargetPositionMaster {
        position: Position::world(quantity(0.0), quantity(0.0), quantity(0.0), quantity(0.0)),
    };
    let target = openscenario::storyboard::TargetPosition::World(Position::world(quantity(1.0), quantity(0.0), quantity(0.0), quantity(0.0)));
    match s.add_synchronize_action("s1", "a1", "mg1", "m1", "e", "ego".to_string(), "ghost".to_string(), master, target, None) {
        Err(ScenarioError::EntityNotFound { entity, context }) => {
            assert_eq!(entity, "ghost");
            assert_eq!(context, "SynchronizeAction master_entity_ref");
        }
        other => panic!("unexpected {:?}", other),
    }
    match s.add_longitudinal_distance_action("s1", "a1", "mg1", "m1", "e", "ghost".to_string(), quantity(10.0), true, false, None) {
        Err(ScenarioError::EntityNotFound { context, .. }) => {
            assert_eq!(context, "Referenced entity for LongitudinalDistanceAction");
        }
        other => panic!("unexpected {:?}", other),
    }
    s.add_longitudinal_distance_action("s1", "a1", "mg1", "m1", "e", "lead".to_string(), quantity(10.0), true, false, None).unwrap();
    s.add_distance_action("s1", "a1", "mg1", "m1", "e", "lead".to_string(), quantity(5.0), false).unwrap();
    assert_eq!(first_event_actions(&s), 2);
    assert_eq!(invalid_field(s.add_distance_action("s1", "a1", "mg1", "m1", "e", "lead".to_string(), quantity(-1.0), false)), "distance");
    match s.add_distance_action("s1", "a1", "mg1", "m1", "e", "anything".to_string(), quantity(5.0), false) {
        Err(ScenarioError::EntityNotFound { entity, context }) => {
            assert_eq!(entity, "anything");
            assert_eq!(context, "Referenced entity for DistanceAction");
        }
        other => panic!("unexpected {:?}", other),
    }
    assert_eq!(first_event_actions(&s), 2);
}

#[test]
fn condition_event_gets_a_named_trigger() {
    let mut s = built();
    s.add_event_with_ttc_condition("s1", "a1", "mg1", "m1", "brake", "ego".to_string(), "lead".to_string(), quantity(2.0), Rule::LessThan)
        .unwrap();
    let ev = &s.stories()[0].acts[0].maneuver_groups[0].maneuvers[0].events[0];
    assert_eq!(ev.name, "brake");
    assert!(ev.actions.is_empty());
    let t = ev.start_trigger.as_ref().unwrap();
    assert_eq!(t.condition_groups.len(), 1);
    let c = &t.condition_groups[0].conditions[0];
    assert_eq!(c.name, "brakeCondition");
    assert_eq!(c.condition_edge, ConditionEdge::NoEdge);
    assert_eq!(c.delay.to_bits(), 0);
    match &c.kind {
        ConditionKind::ByEntity(b) => {
            assert_eq!(b.triggering_entities.rule, TriggeringEntitiesRule::Any);
            assert_eq!(b.triggering_entities.entity_refs, vec!["ego".to_string()]);
            match &b.entity_condition {
                EntityCondition::TimeToCollision(x) => assert_eq!(x.target_entity_ref, "lead"),
                other => panic!("unexpected {:?}", other),
            }
        }
        other => panic!("unexpected {:?}", other),
    }
}

#[test]
fn condition_checks_value_then_entities() {
    let mut s = built();
    let r = s.add_event_with_time_headway_condition("s1", "a1", "mg1", "m1", "e", "ghost".to_string(), "lead".to_string(), quantity(0.0), Rule::LessThan, false);
    assert_eq!(invalid_field(r), "time_headway_value");
    let r = s.add_event_with_standstill_condition_advanced("s1", "a1", "mg1", "m1", "e", "ghost".to_string(), quantity(2.0),
        ConditionEdge::NoEdge, quantity(0.0));
    match r {
        Err(ScenarioError::InvalidEntityRef { entity, available }) => {
            assert_eq!(entity, "ghost");
            assert_eq!(available, vec!["ego".to_string(), "lead".to_string()]);
        }
        other => panic!("unexpected {:?}", other),
    }
    let r = s.add_event_with_standstill_condition("s1", "a1", "mg1", "m1", "e", "ghost".to_string(), quantity(2.0));
    match r {
        Err(ScenarioError::EntityNotFound { entity, context }) => {
            assert_eq!(entity, "ghost");
            assert_eq!(context, "entity condition");
        }
        other => panic!("unexpected {:?}", other),
    }
    let r = s.add_event_with_relative_distance_condition_advanced(
        "s1", "a1", "mg1", "m1", "e", "ego".to_string(), "lead".to_string(), quantity(30.0), Rule::LessThan,
        RelativeDistanceType::Longitudinal, true, ConditionEdge::Rising, quantity(0.5), CoordinateSystem::Lane,
    );
    assert!(r.is_ok());
    let c = &s.stories()[0].acts[0].maneuver_groups[0].maneuvers[0].events[0].start_trigger.as_ref().unwrap().condition_groups[0]
        .conditions[0];
    assert_eq!(c.condition_edge, ConditionEdge::Rising);
    assert_eq!(c.delay.to_bits(), 0.5f64.to_bits());
}

#[test]
fn event_trigger_needs_an_existing_event() {
    let mut s = built();
    let trigger = Trigger { condition_groups: vec![] };
    match s.set_event_start_trigger("s1", "a1", "mg1", "m1", "e", trigger.clone()) {
        Err(ScenarioError::EntityNotFound { entity, context }) => {
            assert_eq!(entity, "e");
            assert_eq!(context, "Event in maneuver 'm1'");
        }
        other => panic!("unexpected {:?}", other),
    }
    match s.set_event_start_trigger("s1", "a1", "mg1", "zz", "e", trigger.clone()) {
        Err(ScenarioError::EntityNotFound { context, .. }) => assert_eq!(context, "Maneuver in maneuver group 'mg1'"),
        other => panic!("unexpected {:?}", other),
    }
    s.add_position_action("s1", "a1", "mg1", "m1", "e", Position::world(quantity(0.0), quantity(0.0), quantity(0.0), quantity(0.0))).unwrap();
    s.set_event_start_trigger("s1", "a1", "mg1", "m1", "e", trigger).unwrap();
    assert!(s.stories()[0].acts[0].maneuver_groups[0].maneuvers[0].events[0].start_trigger.is_some());
    s.set_act_start_trigger("s1", "a1", Trigger { condition_groups: vec![] }).unwrap();
    assert!(s.stories()[0].acts[0].start_trigger.is_some());
}

#[test]
fn stop_triggers() {
    let mut s = Scenario::new(OpenScenarioVersion::V1_2);
    s.set_stop_time(quantity(60.0));
    match &s.storyboard().stop_trigger.as_ref().unwrap().condition {
        StopCondition::SimulationTime { seconds } => assert_eq!(seconds.to_bits(), 60.0f64.to_bits()),
        other => panic!("unexpected {:?}", other),
    }
    s.set_stop_on_element_state("story", "main", "completeState", quantity(2.0));
    match &s.storyboard().stop_trigger.as_ref().unwrap().condition {
        StopCondition::StoryboardElementState { element_type, element_ref, state, .. } => {
            assert_eq!(element_type, "story");
            assert_eq!(element_ref, "main");
            assert_eq!(state, "completeState");
        }
        other => panic!("unexpected {:?}", other),
    }
}

#[test]
fn error_messages() {
    let e = ScenarioError::InvalidEntityRef { entity: "x".to_string(), available: vec!["a".to_string()] };
    assert_eq!(e.message(), "Invalid entity reference 'x': entity not found in scenario. Available entities: [\"a\"]");
    let e = ScenarioError::EntityNotFound { entity: "x".to_string(), context: "add_actor".to_string() };
    assert_eq!(e.message(), "Entity 'x' not found (referenced by add_actor)");
    let e = ScenarioError::NameConflict { item_type: "ManeuverGroup".to_string(), name: "m".to_string(), context: "act 'a'".to_string() };
    assert_eq!(e.message(), "Name conflict: ManeuverGroup 'm' already exists in act 'a'");
    let e = ScenarioError::EntityConflict { name: "n".to_string(), existing_location: Some("line 3".to_string()) };
    assert_eq!(e.message(), "Entity 'n' already exists (defined at line 3)");
    let e = ScenarioError::InvalidValue { field: "f".to_string(), reason: "r".to_string() };
    assert_eq!(e.message(), "Invalid value for f: r");
}

#[test]
fn vehicle_category_names() {
    assert_eq!(VehicleCategory::from_name("TRUCK"), Some(VehicleCategory::Truck));
    assert_eq!(VehicleCategory::from_name("Semitrailer"), Some(VehicleCategory::Semitrailer));
    assert_eq!(VehicleCategory::from_name("plane"), None);
    assert_eq!(VehicleCategory::Motorbike.label(), "motorbike");
}

#[test]
fn versions() {
    assert_eq!(OpenScenarioVersion::from_rev(1, 2), Some(OpenScenarioVersion::V1_2));
    assert_eq!(OpenScenarioVersion::from_rev(1, 3), Some(OpenScenarioVersion::V1_3));
    assert_eq!(OpenScenarioVersion::from_rev(2, 0), None);
    assert_eq!(OpenScenarioVersion::V1_1.major(), 1);
    assert_eq!(OpenScenarioVersion::V1_1.minor(), 1);
    assert_eq!(OpenScenarioVersion::V1_0.label(), "1.0");
    assert_eq!(openscenario::version::version_from_label("1.3"), Some(OpenScenarioVersion::V1_3));
    assert_eq!(openscenario::version::version_from_label("v1.2"), None);
}

#[test]
fn road_network_is_kept() {
    let mut s = Scenario::new(OpenScenarioVersion::V1_2);
    s.set_road_network("roads/highway.xodr");
    assert_eq!(s.road_network(), Some("roads/highway.xodr"));
}

#[test]
fn parameter_condition_name() {
    let c = openscenario::Condition::parameter("Speed", "50", Rule::GreaterThan);
    assert_eq!(c.name, "Param_Speed");
    let c = openscenario::Condition::storyboard_element_state("act", "a1", "endTransition");
    assert_eq!(c.name, "act_a1_endTransition");
}

#[test]
fn zero_headway_and_standstill_are_accepted_by_the_full_forms() {
    let mut s = built();
    s.add_event_with_time_headway_condition_advanced(
        "s1", "a1", "mg1", "m1", "h", "ego".to_string(), "lead".to_string(), quantity(0.0), Rule::LessThan, false,
        ConditionEdge::Rising, quantity(0.0),
    )
    .unwrap();
    assert_eq!(
        invalid_field(s.add_event_with_time_headway_condition_advanced(
            "s1", "a1", "mg1", "m1", "h", "ego".to_string(), "lead".to_string(), quantity(-0.5), Rule::LessThan, false,
            ConditionEdge::Rising, quantity(0.0),
        )),
        "time_headway_value"
    );
    s.add_event_with_standstill_condition_advanced("s1", "a1", "mg1", "m1", "st", "ego".to_string(), quantity(0.0),
        ConditionEdge::NoEdge, quantity(0.0)).unwrap();
    s.add_event_with_standstill_condition("s1", "a1", "mg1", "m1", "st2", "ego".to_string(), quantity(0.0)).unwrap();
    assert_eq!(
        invalid_field(s.add_event_with_standstill_condition("s1", "a1", "mg1", "m1", "st3", "ego".to_string(), quantity(-1.0))),
        "duration"
    );
}

#[test]
fn collision_with_unknown_entity_is_not_found() {
    let mut s = built();
    match s.add_event_with_collision_condition("s1", "a1", "mg1", "m1", "c", "ego".to_string(), "wall".to_string()) {
        Err(ScenarioError::EntityNotFound { entity, context }) => {
            assert_eq!(entity, "wall");
            assert_eq!(context, "entity condition");
        }
        other => panic!("unexpected {:?}", other),
    }
    assert!(s.stories()[0].acts[0].maneuver_groups[0].maneuvers[0].events.is_empty());
    match s.add_event_with_collision_condition_advanced(
        "s1", "a1", "mg1", "m1", "c", "ego".to_string(), "wall".to_string(), ConditionEdge::NoEdge, quantity(0.0),
    ) {
        Err(ScenarioError::InvalidEntityRef { entity, .. }) => assert_eq!(entity, "wall"),
        other => panic!("unexpected {:?}", other),
    }
}

#[test]
fn maneuver_names_are_unique_in_a_group() {
    let mut s = built();
    match s.add_maneuver("s1", "a1", "mg1", "m1") {
        Err(ScenarioError::EntityNotFound { entity, context }) => {
            assert_eq!(entity, "m1");
            assert_eq!(context, "Maneuver already exists in maneuver group 'mg1'");
        }
        other => panic!("unexpected {:?}", other),
    }
    assert_eq!(s.stories()[0].acts[0].maneuver_groups[0].maneuvers.len(), 1);
    s.add_maneuver("s1", "a1", "mg1", "m2").unwrap();
    assert_eq!(s.stories()[0].acts[0].maneuver_groups[0].maneuvers.len(), 2);
}

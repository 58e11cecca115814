use openscenario::entities::{Entity, VehicleCategory, VehicleParams};
use openscenario::opendrive_validator::OpenDriveValidator;
use openscenario::inspection::format_condition_description;
use openscenario::service::{
    create_scenario_with_suffix, handle_add_lane_change_action, handle_add_misc_object, handle_add_pedestrian,
    handle_add_speed_action, handle_add_vehicle, handle_create_scenario, handle_set_lane_position, handle_set_position,
    handle_set_stop_on_element, handle_set_stop_time, handle_set_trigger_time, handle_validate_position,
    handle_validate_scenario_structure, OpenScenarioServer, PositionRefusal, ServerState,
};
use openscenario::opendrive_validator::ValidationError;
use openscenario::storyboard::{
    Action, ByEntityCondition, CollisionCondition, Condition, ConditionEdge, ConditionKind, DynamicsDimension, DynamicsShape,
    EntityCondition, TransitionDynamics, TriggeringEntities, TriggeringEntitiesRule,
};
use openscenario::{Position, Real};

// Minimal OpenDRIVE XML for testing
const MINIMAL_XODR: &str = r###"<?xml version="1.0" encoding="UTF-8"?>
<OpenDRIVE>
    <header revMajor="1" revMinor="6" name="test_road" version="1.0" date="2026-05-31T00:00:00"/>
    <road name="test_road" length="1000.0" id="1" junction="-1">
        <link/>
        <planView>
            <geometry s="0.0" x="0.0" y="0.0" hdg="0.0" length="1000.0">
                <line/>
            </geometry>
        </planView>
        <lanes>
            <laneSection s="0.0">
                <center>
                    <lane id="0" type="none" level="false">
                        <link/>
                    </lane>
                </center>
                <right>
                    <lane id="-1" type="driving" level="false">
                        <link/>
                        <width sOffset="0.0" a="3.5" b="0.0" c="0.0" d="0.0"/>
                    </lane>
                </right>
            </laneSection>
        </lanes>
    </road>
</OpenDRIVE>
"###;

fn quantity(x: f64) -> Real {
    Real::from_bits(x.to_bits())
}

fn setup_state() -> ServerState {
    let mut state = ServerState::new();
    let validator = OpenDriveValidator::from_xodr_str(MINIMAL_XODR).expect("test road network loads");
    state.attach_road_network("/tmp/test_handlers_road.xodr", validator);
    state
}

fn create_scenario(state: &mut ServerState) -> String {
    handle_create_scenario(state, "test_scenario", "1.2").unwrap()
}

fn car() -> VehicleParams {
    VehicleParams { catalog: None, vehicle_category: VehicleCategory::Car, properties: None }
}

fn linear_dynamics() -> TransitionDynamics {
    TransitionDynamics { shape: DynamicsShape::Linear, dimension: DynamicsDimension::Time, value: quantity(5.0) }
}

#[test]
fn test_create_scenario_handler() {
    let mut state = setup_state();

    let result = handle_create_scenario(&mut state, "test_scenario", "1.2");

    assert!(result.is_ok());
    let scenario_id = result.unwrap();

    assert!(state.scenario(&scenario_id).is_some());

    let scenario = state.scenario(&scenario_id).unwrap();
    assert_eq!(scenario.version().label(), "1.2");
}

#[test]
fn test_create_scenario_handler_v1_3() {
    let mut state = setup_state();

    let scenario_id = handle_create_scenario(&mut state, "test_scenario_v13", "1.3").unwrap();

    let scenario = state.scenario(&scenario_id).unwrap();
    assert_eq!(scenario.version().label(), "1.3");
}

#[test]
fn test_create_scenario_handler_rejects_unknown_version() {
    let mut state = setup_state();

    let result = handle_create_scenario(&mut state, "bad", "1.4");

    assert!(result.is_err());
    assert!(result.unwrap_err().contains("Invalid version"));
}

#[test]
fn test_add_vehicle_handler() {
    let mut state = setup_state();

    let scenario_id = handle_create_scenario(&mut state, "test_scenario", "1.2").unwrap();

    let result = handle_add_vehicle(&mut state, &scenario_id, "ego_vehicle", "Car", None);

    assert!(result.is_ok());
    let vehicle_id = result.unwrap();
    assert_eq!(vehicle_id, "ego_vehicle");

    let scenario = state.scenario(&scenario_id).unwrap();
    assert!(scenario.get_entity("ego_vehicle").is_some());
}

#[test]
fn test_set_position_handler() {
    let mut state = setup_state();

    let scenario_id = handle_create_scenario(&mut state, "test_scenario", "1.2").unwrap();

    handle_add_vehicle(&mut state, &scenario_id, "ego_vehicle", "Car", None).unwrap();

    let result = handle_set_position(&mut state, &scenario_id, "ego_vehicle", quantity(10.0), quantity(20.0), quantity(0.5), quantity(1.57));

    assert!(result.is_ok());

    let scenario = state.scenario(&scenario_id).unwrap();
    let position = scenario.get_initial_position("ego_vehicle");
    assert!(position.is_some());

    if let Some(Position::World { x, y, z, h, .. }) = position {
        assert_eq!(x.to_bits(), 10.0f64.to_bits());
        assert_eq!(y.to_bits(), 20.0f64.to_bits());
        assert_eq!(z.to_bits(), 0.5f64.to_bits());
        assert_eq!(h.to_bits(), 1.57f64.to_bits());
    } else {
        panic!("Expected World position");
    }
}

#[test]
fn test_nonexistent_scenario_id() {
    let mut state = ServerState::new();

    let result = handle_add_vehicle(&mut state, "nonexistent_scenario_id", "car1", "Car", None);

    assert!(result.is_err());
    let err = result.unwrap_err();
    assert!(err.contains("Scenario not found"));
}

#[test]
fn test_validate_structure_scenario_not_found() {
    let state = setup_state();
    let result = handle_validate_scenario_structure(&state, "nonexistent", false);
    assert!(result.is_err());
    assert!(result.unwrap_err().contains("not found"));
}

#[test]
fn test_validate_structure_empty_scenario_passes() {
    let mut state = setup_state();
    let scenario_id = create_scenario(&mut state);

    let report = handle_validate_scenario_structure(&state, &scenario_id, false).unwrap();
    assert!(report.contains("No issues found"));
}

#[test]
fn test_validate_structure_fully_built_scenario_passes() {
    let mut state = setup_state();
    let scenario_id = create_scenario(&mut state);

    {
        let scenario = state.scenario_mut(&scenario_id).unwrap();
        scenario.add_vehicle("ego", car()).unwrap();
        scenario.set_initial_position("ego", Position::world(quantity(0.0), quantity(0.0), quantity(0.0), quantity(0.0))).unwrap();
        scenario.add_story("story1").unwrap();
        scenario.add_act("story1", "act1").unwrap();
        scenario.add_maneuver_group("story1", "act1", "mg1").unwrap();
        scenario.add_actor("story1", "act1", "mg1", "ego").unwrap();
        scenario.add_maneuver("story1", "act1", "mg1", "maneuver1").unwrap();
        scenario
            .add_speed_action("story1", "act1", "mg1", "maneuver1", "event1", quantity(10.0), linear_dynamics())
            .unwrap();
    }

    let report = handle_validate_scenario_structure(&state, &scenario_id, false).unwrap();
    assert!(report.contains("No issues found"), "well-formed scenario should report clean: {report}");
}

#[test]
fn test_validate_structure_story_with_no_acts_is_error() {
    let mut state = setup_state();
    let scenario_id = create_scenario(&mut state);

    {
        let scenario = state.scenario_mut(&scenario_id).unwrap();
        scenario.add_story("empty_story").unwrap();
    }

    let report = handle_validate_scenario_structure(&state, &scenario_id, false).unwrap();
    assert!(report.contains("Errors"), "report: {report}");
    assert!(report.contains("empty_story"), "report: {report}");
    assert!(report.contains("no Acts") || report.contains("no acts"), "report: {report}");
}

#[test]
fn test_validate_structure_act_with_no_maneuver_groups_is_error() {
    let mut state = setup_state();
    let scenario_id = create_scenario(&mut state);

    {
        let scenario = state.scenario_mut(&scenario_id).unwrap();
        scenario.add_story("story1").unwrap();
        scenario.add_act("story1", "empty_act").unwrap();
    }

    let report = handle_validate_scenario_structure(&state, &scenario_id, false).unwrap();
    assert!(report.contains("Errors"), "report: {report}");
    assert!(report.contains("empty_act"), "report: {report}");
}

#[test]
fn test_validate_structure_maneuver_with_no_events_is_error() {
    let mut state = setup_state();
    let scenario_id = create_scenario(&mut state);

    {
        let scenario = state.scenario_mut(&scenario_id).unwrap();
        scenario.add_story("story1").unwrap();
        scenario.add_act("story1", "act1").unwrap();
        scenario.add_maneuver_group("story1", "act1", "mg1").unwrap();
        scenario.add_maneuver("story1", "act1", "mg1", "empty_maneuver").unwrap();
    }

    let report = handle_validate_scenario_structure(&state, &scenario_id, false).unwrap();
    assert!(report.contains("Errors"), "report: {report}");
    assert!(report.contains("empty_maneuver"), "report: {report}");
}

#[test]
fn test_validate_structure_entity_without_initial_state_is_warning() {
    let mut state = setup_state();
    let scenario_id = create_scenario(&mut state);

    {
        let scenario = state.scenario_mut(&scenario_id).unwrap();
        scenario.add_vehicle("ghost", car()).unwrap();
    }

    let report = handle_validate_scenario_structure(&state, &scenario_id, false).unwrap();
    assert!(report.contains("Warnings"), "report: {report}");
    assert!(report.contains("ghost"), "report: {report}");
}

#[test]
fn test_validate_structure_maneuver_group_with_no_actors_is_warning() {
    let mut state = setup_state();
    let scenario_id = create_scenario(&mut state);

    {
        let scenario = state.scenario_mut(&scenario_id).unwrap();
        scenario.add_story("story1").unwrap();
        scenario.add_act("story1", "act1").unwrap();
        scenario.add_maneuver_group("story1", "act1", "actorless_mg").unwrap();
        scenario.add_maneuver("story1", "act1", "actorless_mg", "maneuver1").unwrap();
        scenario
            .add_speed_action("story1", "act1", "actorless_mg", "maneuver1", "event1", quantity(10.0), linear_dynamics())
            .unwrap();
    }

    let report = handle_validate_scenario_structure(&state, &scenario_id, false).unwrap();
    assert!(report.contains("Warnings"), "report: {report}");
    assert!(report.contains("actorless_mg"), "report: {report}");
}

#[test]
fn test_validate_structure_multiple_issues_all_reported() {
    let mut state = setup_state();
    let scenario_id = create_scenario(&mut state);

    {
        let scenario = state.scenario_mut(&scenario_id).unwrap();
        scenario.add_vehicle("ghost", car()).unwrap();
        scenario.add_story("empty_story").unwrap();
        scenario.add_story("story2").unwrap();
        scenario.add_act("story2", "empty_act").unwrap();
    }

    let report = handle_validate_scenario_structure(&state, &scenario_id, false).unwrap();
    assert!(report.contains("empty_story"), "report: {report}");
    assert!(report.contains("empty_act"), "report: {report}");
    assert!(report.contains("ghost"), "report: {report}");
}

#[test]
fn test_validate_structure_auto_fix_does_not_hide_non_fixable_issues() {
    let mut state = setup_state();
    let scenario_id = create_scenario(&mut state);

    {
        let scenario = state.scenario_mut(&scenario_id).unwrap();
        scenario.add_story("empty_story").unwrap();
    }

    let report = handle_validate_scenario_structure(&state, &scenario_id, true).unwrap();
    assert!(report.contains("empty_story"), "report: {report}");
    assert!(report.contains("Errors"), "report: {report}");
}

#[test]
fn structure_report_is_exact() {
    let mut state = setup_state();
    let id = create_scenario_with_suffix(&mut state, "s", "1.2", "fixed").unwrap();
    assert_eq!(id, "s_fixed");
    {
        let scenario = state.scenario_mut(&id).unwrap();
        scenario.add_vehicle("ghost", car()).unwrap();
        scenario.add_story("empty_story").unwrap();
    }
    let report = handle_validate_scenario_structure(&state, &id, false).unwrap();
    assert_eq!(
        report,
        "📋 Scenario Validation Report\n\n❌ Errors (1):\n  • Story 'empty_story' has no Acts (the XSD requires at least one; export will fail validation)\n\n⚠️  Warnings (1):\n  • Entity 'ghost' has no initial position or speed (it won't be placed in the simulation)\n\n"
    );
}

#[test]
fn create_without_road_network() {
    let mut state = ServerState::new();
    let id = handle_create_scenario(&mut state, "test", "1.2").unwrap();
    assert!(state.scenario(&id).unwrap().road_network().is_none());
    let mut state = setup_state();
    let id = handle_create_scenario(&mut state, "test", "1.2").unwrap();
    assert_eq!(state.scenario(&id).unwrap().road_network(), Some("/tmp/test_handlers_road.xodr"));
    let r = create_scenario_with_suffix(&mut state, "test", "2.0", "x");
    assert_eq!(r.unwrap_err(), "Invalid version: 2.0. Must be 1.0, 1.1, or 1.2");
}

#[test]
fn created_ids_carry_a_uuid() {
    let mut state = setup_state();
    let id = handle_create_scenario(&mut state, "name", "1.0").unwrap();
    assert!(id.starts_with("name_"));
    assert_eq!(id.len(), "name_".len() + 36);
    let scenario = state.scenario(&id).unwrap();
    assert_eq!(scenario.road_network(), Some("/tmp/test_handlers_road.xodr"));
}

#[test]
fn add_vehicle_tool_checks() {
    let mut state = setup_state();
    let id = create_scenario(&mut state);
    let r = handle_add_vehicle(&mut state, &id, "vehicle1", "Airplane", None);
    assert_eq!(r.unwrap_err(), "Invalid vehicle category: Airplane");
    let r = handle_add_vehicle(&mut state, &id, "vehicle1", "tram", None);
    assert!(r.is_err());
    handle_add_vehicle(&mut state, &id, "car1", "Car", Some("catalogs/cars.xosc:sedan")).unwrap();
    handle_add_vehicle(&mut state, &id, "car2", "car", Some("a:b:c")).unwrap();
    let r = handle_add_vehicle(&mut state, &id, "car1", "Car", None);
    assert_eq!(r.unwrap_err(), "Entity 'car1' already exists");
    let scenario = state.scenario(&id).unwrap();
    match scenario.get_entity("car1").unwrap() {
        Entity::Vehicle(v) => {
            let c = v.params.catalog.as_ref().unwrap();
            assert_eq!(c.path, "catalogs/cars.xosc");
            assert_eq!(c.entry_name, "sedan");
        }
        other => panic!("unexpected {:?}", other),
    }
    match scenario.get_entity("car2").unwrap() {
        Entity::Vehicle(v) => {
            let c = v.params.catalog.as_ref().unwrap();
            assert_eq!(c.path, "a:b:c");
            assert_eq!(c.entry_name, "car2");
        }
        other => panic!("unexpected {:?}", other),
    }
}

#[test]
fn pedestrian_and_object_tool_checks() {
    let mut state = setup_state();
    let id = create_scenario(&mut state);
    let r = handle_add_pedestrian(&mut state, &id, "p1", Some("nocolon"), None, "");
    assert_eq!(r.unwrap_err(), "Invalid catalog format: 'nocolon'. Expected 'path:entry_name'");
    let r = handle_add_pedestrian(&mut state, &id, "p1", None, Some(quantity(0.0)), "0");
    assert_eq!(r.unwrap_err(), "Mass must be positive, got: 0");
    let r = handle_add_pedestrian(&mut state, &id, "p1", None, Some(quantity(600.0)), "600");
    assert_eq!(r.unwrap_err(), "Mass 600 kg seems unrealistic for a pedestrian. Max: 500 kg");
    handle_add_pedestrian(&mut state, &id, "p1", None, None, "").unwrap();
    match state.scenario(&id).unwrap().get_entity("p1").unwrap() {
        Entity::Pedestrian(p) => assert_eq!(p.params.mass.unwrap().to_bits(), 70.0f64.to_bits()),
        other => panic!("unexpected {:?}", other),
    }
    let r = handle_add_misc_object(&mut state, &id, "o1", "rock", quantity(10.0), "10");
    assert_eq!(
        r.unwrap_err(),
        "Invalid category 'rock'. Valid categories: barrier, obstacle, pole, tree, vegetation, building, vehicle, none"
    );
    let r = handle_add_misc_object(&mut state, &id, "o1", "pole", quantity(200000.0), "200000");
    assert_eq!(r.unwrap_err(), "Mass 200000 kg seems unrealistic. Max: 100000 kg (100 tons)");
    assert_eq!(handle_add_misc_object(&mut state, &id, "o1", "pole", quantity(20.0), "20").unwrap(), "o1");
}

#[test]
fn lane_position_tool_checks() {
    let mut state = setup_state();
    let id = create_scenario(&mut state);
    handle_add_vehicle(&mut state, &id, "ego", "Car", None).unwrap();
    let r = handle_set_lane_position(&mut state, &id, "ego", "1", -1, quantity(-5.0), quantity(0.0), "-5", "0");
    assert_eq!(r.unwrap_err(), "Position 's' cannot be negative, got: -5");
    let r = handle_set_lane_position(&mut state, &id, "ego", "1", 0, quantity(5.0), quantity(0.0), "5", "0");
    assert_eq!(r.unwrap_err(), "Lane ID cannot be 0 (center lane is invalid)");
    let r = handle_set_lane_position(&mut state, &id, "ego", "1", -1, quantity(5.0), quantity(-12.0), "5", "-12");
    assert_eq!(r.unwrap_err(), "Lateral offset -12 m seems excessive. Typical range: ±10m");
    let r = handle_set_lane_position(&mut state, &id, "ego", "1", -1, quantity(5.0), quantity(0.5), "5", "0.5");
    assert_eq!(r.unwrap(), "Lane position set for entity: ego");
    match state.scenario(&id).unwrap().get_initial_position("ego") {
        Some(Position::Lane { road_id, lane_id, .. }) => {
            assert_eq!(road_id, "1");
            assert_eq!(*lane_id, -1);
        }
        other => panic!("unexpected {:?}", other),
    }
}

#[test]
fn stop_tools() {
    let mut state = setup_state();
    let id = create_scenario(&mut state);
    assert_eq!(handle_set_stop_time(&mut state, &id, quantity(30.0), "30").unwrap(), "Set stop time to 30 seconds");
    assert_eq!(
        handle_set_stop_on_element(&mut state, &id, "story", "main", "completeState", quantity(0.0)).unwrap(),
        "Set stop trigger on story element 'main' reaching state 'completeState'"
    );
    assert_eq!(handle_set_stop_time(&mut state, "nope", quantity(30.0), "30").unwrap_err(), "Scenario not found: nope");
}

#[test]
fn condition_descriptions() {
    let collision = Condition {
        name: "c".to_string(),
        delay: quantity(1.5),
        condition_edge: ConditionEdge::RisingOrFalling,
        kind: ConditionKind::ByEntity(ByEntityCondition {
            triggering_entities: TriggeringEntities {
                rule: TriggeringEntitiesRule::All,
                entity_refs: vec!["ego".to_string(), "car2".to_string()],
            },
            entity_condition: EntityCondition::Collision(CollisionCondition { target_entity_ref: "wall".to_string() }),
        }),
    };
    assert_eq!(
        format_condition_description(&collision, "1.5", ""),
        "- Collision: All of [ego, car2] with 'wall' (edge: risingorfalling) (delay: 1.5s)"
    );
    let param = Condition::parameter("Speed", "50", openscenario::storyboard::Rule::LessThan);
    assert_eq!(format_condition_description(&param, "0", ""), "- Parameter: Speed LessThan '50' (edge: none)");
}

#[test]
fn server_can_be_made() {
    let _server = OpenScenarioServer::new();
}

#[test]
fn test_add_speed_action_handler() {
    let mut state = setup_state();
    let scenario_id = handle_create_scenario(&mut state, "test_scenario", "1.2").unwrap();
    handle_add_vehicle(&mut state, &scenario_id, "ego_vehicle", "Car", None).unwrap();

    let result = handle_add_speed_action(
        &mut state, &scenario_id, "ego_vehicle", "test_story", quantity(50.0), quantity(5.0), None, "50", "5", "",
    );

    assert!(result.is_ok());
    assert!(result.unwrap().contains("Speed action added"));
}

#[test]
fn test_add_lane_change_action_handler() {
    let mut state = setup_state();
    let scenario_id = handle_create_scenario(&mut state, "test_scenario", "1.2").unwrap();
    handle_add_vehicle(&mut state, &scenario_id, "ego_vehicle", "Car", None).unwrap();

    let result = handle_add_lane_change_action(
        &mut state, &scenario_id, "ego_vehicle", "test_story", quantity(-3.5), quantity(4.0), None, "-3.5", "4", "",
    );

    assert!(result.is_ok());
    assert!(result.unwrap().contains("Lane change action added"));
}

#[test]
fn speed_tool_reply_and_hierarchy() {
    let mut state = setup_state();
    let id = create_scenario(&mut state);
    handle_add_vehicle(&mut state, &id, "ego", "Car", None).unwrap();
    let reply = handle_add_speed_action(&mut state, &id, "ego", "main", quantity(20.0), quantity(3.0), None, "20", "3", "")
        .unwrap();
    assert_eq!(
        reply,
        "Speed action added: 20 m/s over 3 seconds\nCreated hierarchy: story='main', act='main_act', \
         maneuver_group='ego_mg', maneuver='ego_maneuver', event='speed_event'\n⚠️  Warning: No start trigger set. \
         Act will not execute unless you call set_trigger_time or set_collision_trigger."
    );
    let scenario = state.scenario(&id).unwrap();
    let story = &scenario.stories()[0];
    assert_eq!(story.name, "main");
    let act = &story.acts[0];
    assert_eq!(act.name, "main_act");
    assert!(act.start_trigger.is_none());
    let group = &act.maneuver_groups[0];
    assert_eq!(group.name, "ego_mg");
    assert_eq!(group.actors, vec!["ego".to_string()]);
    let maneuver = &group.maneuvers[0];
    assert_eq!(maneuver.name, "ego_maneuver");
    assert_eq!(maneuver.events[0].name, "speed_event");
    assert_eq!(maneuver.events[0].actions.len(), 1);

    // A second call reuses the story, act, group and event; the second action follows the first.
    handle_add_speed_action(&mut state, &id, "ego", "main", quantity(10.0), quantity(2.0), None, "10", "2", "").unwrap();
    let scenario = state.scenario(&id).unwrap();
    assert_eq!(scenario.stories().len(), 1);
    assert_eq!(scenario.stories()[0].acts.len(), 1);
    assert_eq!(scenario.stories()[0].acts[0].maneuver_groups.len(), 1);
    assert_eq!(scenario.stories()[0].acts[0].maneuver_groups[0].actors.len(), 1);
    assert_eq!(scenario.stories()[0].acts[0].maneuver_groups[0].maneuvers.len(), 1);
    let actions = &scenario.stories()[0].acts[0].maneuver_groups[0].maneuvers[0].events[0].actions;
    assert_eq!(actions.len(), 2);
    assert!(matches!(&actions[0], Action::Speed(a) if a.target_speed.to_bits() == 20.0f64.to_bits()));
    assert!(matches!(&actions[1], Action::Speed(a) if a.target_speed.to_bits() == 10.0f64.to_bits()));
}

#[test]
fn speed_tool_with_start_time_sets_act_trigger() {
    let mut state = setup_state();
    let id = create_scenario(&mut state);
    handle_add_vehicle(&mut state, &id, "ego", "Car", None).unwrap();
    let reply = handle_add_lane_change_action(
        &mut state, &id, "ego", "main", quantity(3.5), quantity(4.0), Some(quantity(2.5)), "3.5", "4", "2.5",
    )
    .unwrap();
    assert!(reply.starts_with("Lane change action added: target lane offset 3.5 over 4 seconds\n"));
    assert!(reply.ends_with("event='lane_change_event'\nAuto-set start trigger: Act starts at t=2.5s"));
    let scenario = state.scenario(&id).unwrap();
    let trigger = scenario.stories()[0].acts[0].start_trigger.as_ref().unwrap();
    assert_eq!(trigger.condition_groups.len(), 1);
    let condition = &trigger.condition_groups[0].conditions[0];
    assert_eq!(condition.name, "SimTime_2.5");
    assert_eq!(condition.condition_edge, ConditionEdge::Rising);
    assert_eq!(condition.delay.to_bits(), 0);
}

#[test]
fn speed_tool_refusals() {
    let mut state = setup_state();
    let id = create_scenario(&mut state);
    handle_add_vehicle(&mut state, &id, "ego", "Car", None).unwrap();
    let err = handle_add_speed_action(&mut state, "nope", "ego", "main", quantity(1.0), quantity(1.0), None, "1", "1", "")
        .unwrap_err();
    assert_eq!(err, "Scenario not found: nope");
    let err = handle_add_speed_action(&mut state, &id, "ego", "main", quantity(-1.0), quantity(1.0), None, "-1", "1", "")
        .unwrap_err();
    assert_eq!(err, "Invalid value for target_speed: speed cannot be negative");
    // The layout steps stay even though the action was refused.
    assert_eq!(state.scenario(&id).unwrap().stories().len(), 1);
    let err = handle_add_lane_change_action(&mut state, &id, "ego", "main", quantity(1.0), quantity(0.0), None, "1", "0", "")
        .unwrap_err();
    assert_eq!(err, "Invalid value for duration: duration must be positive");
    // An unknown entity is not made an actor, but the action still goes in.
    handle_add_speed_action(&mut state, &id, "ghost", "main", quantity(1.0), quantity(1.0), None, "1", "1", "").unwrap();
    let act = &state.scenario(&id).unwrap().stories()[0].acts[0];
    let group = act.maneuver_groups.iter().find(|g| g.name == "ghost_mg").unwrap();
    assert!(group.actors.is_empty());
}

#[test]
fn trigger_time_tool() {
    let mut state = setup_state();
    let id = create_scenario(&mut state);
    handle_add_vehicle(&mut state, &id, "ego", "Car", None).unwrap();
    handle_add_speed_action(&mut state, &id, "ego", "main", quantity(20.0), quantity(3.0), None, "20", "3", "").unwrap();

    let reply = handle_set_trigger_time(
        &mut state, &id, "Act", "main", "main_act", None, None, None, quantity(5.0), None, "5", "0",
    )
    .unwrap();
    assert_eq!(reply, "Set time-based trigger at t=5s (delay: 0s) for Act 'main_act' in story 'main'");
    let act = &state.scenario(&id).unwrap().stories()[0].acts[0];
    assert_eq!(act.start_trigger.as_ref().unwrap().condition_groups[0].conditions[0].name, "SimTime_5");

    let reply = handle_set_trigger_time(
        &mut state, &id, "Event", "main", "main_act", Some("ego_mg"), Some("ego_maneuver"), Some("speed_event"),
        quantity(1.0), Some(quantity(0.5)), "1", "0.5",
    )
    .unwrap();
    assert_eq!(reply, "Set time-based trigger at t=1s (delay: 0.5s) for Event 'speed_event' (in maneuver 'ego_maneuver')");
    let event = &state.scenario(&id).unwrap().stories()[0].acts[0].maneuver_groups[0].maneuvers[0].events[0];
    let condition = &event.start_trigger.as_ref().unwrap().condition_groups[0].conditions[0];
    assert_eq!(condition.delay.to_bits(), 0.5f64.to_bits());
    assert_eq!(condition.condition_edge, ConditionEdge::Rising);
}

#[test]
fn trigger_time_tool_refusals() {
    let mut state = setup_state();
    let id = create_scenario(&mut state);
    let err = handle_set_trigger_time(&mut state, &id, "Act", "s", "a", None, None, None, quantity(-1.0), None, "-1", "0")
        .unwrap_err();
    assert!(err.starts_with("time_seconds must be non-negative (got -1)"));
    let err = handle_set_trigger_time(
        &mut state, &id, "Act", "s", "a", None, None, None, quantity(1.0), Some(quantity(-2.0)), "1", "-2",
    )
    .unwrap_err();
    assert!(err.starts_with("delay_seconds must be non-negative (got -2)"));
    let err = handle_set_trigger_time(&mut state, &id, "Story", "s", "a", None, None, None, quantity(1.0), None, "1", "0")
        .unwrap_err();
    assert!(err.starts_with("element_type must be 'Act' or 'Event' (got 'Story')"));
    let err = handle_set_trigger_time(&mut state, &id, "Event", "s", "a", None, None, None, quantity(1.0), None, "1", "0")
        .unwrap_err();
    assert!(err.starts_with("Missing 'maneuver_group' parameter."));
    assert!(err.contains("'{entity}_mg'"));
    let err = handle_set_trigger_time(
        &mut state, &id, "Event", "s", "a", Some("g"), None, None, quantity(1.0), None, "1", "0",
    )
    .unwrap_err();
    assert!(err.starts_with("Missing 'maneuver' parameter."));
    let err = handle_set_trigger_time(
        &mut state, &id, "Event", "s", "a", Some("g"), Some("m"), None, quantity(1.0), None, "1", "0",
    )
    .unwrap_err();
    assert!(err.starts_with("Missing 'event_name' parameter."));
    let err = handle_set_trigger_time(&mut state, "nope", "Act", "s", "a", None, None, None, quantity(1.0), None, "1", "0")
        .unwrap_err();
    assert_eq!(err, "Scenario 'nope' not found");
    let err = handle_set_trigger_time(&mut state, &id, "Act", "s", "a", None, None, None, quantity(1.0), None, "1", "0")
        .unwrap_err();
    assert!(err.starts_with("Failed to set Act trigger: "));
}

#[test]
fn validate_position_tool() {
    let empty = ServerState::new();
    assert!(matches!(handle_validate_position(&empty, "1", -1, quantity(10.0)), Err(PositionRefusal::NoNetwork)));
    let state = setup_state();
    assert!(handle_validate_position(&state, "1", -1, quantity(10.0)).is_ok());
    assert!(matches!(
        handle_validate_position(&state, "1", -1, quantity(2000.0)),
        Err(PositionRefusal::Position(ValidationError::PositionOutOfBounds(..)))
    ));
    assert!(matches!(
        handle_validate_position(&state, "9", -1, quantity(10.0)),
        Err(PositionRefusal::Position(ValidationError::RoadNotFound(..)))
    ));
    assert!(matches!(
        handle_validate_position(&state, "1", 2, quantity(10.0)),
        Err(PositionRefusal::Lane(ValidationError::LaneNotFound(..)))
    ));
}

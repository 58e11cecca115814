use openscenario::service::{
    handle_create_scenario, handle_list_triggers, handle_set_collision_trigger, handle_set_trigger_time, ServerState,
};
use openscenario::storyboard::{EntityCondition, TriggeringEntitiesRule};
use openscenario::{ConditionEdge, ConditionKind, Real};

fn quantity(x: f64) -> Real {
    Real::from_bits(x.to_bits())
}

fn state_with_act() -> (ServerState, String) {
    let mut state = ServerState::new();
    let id = handle_create_scenario(&mut state, "triggers", "1.2").unwrap();
    let sc = state.scenario_mut(&id).unwrap();
    sc.add_story("main").unwrap();
    sc.add_act("main", "main_act").unwrap();
    (state, id)
}

fn refs(names: &[&str]) -> Vec<String> {
    names.iter().map(|n| n.to_string()).collect()
}

#[test]
fn collision_trigger_rejects_unknown_rule() {
    let (mut state, id) = state_with_act();
    let r = handle_set_collision_trigger(
        &mut state, &id, "Act", "main", "main_act", None, None, None, refs(&["ego"]), "obstacle", "some", None, "0",
    );
    assert_eq!(
        r.unwrap_err(),
        "trigger_rule must be 'any' or 'all' (got 'some'). Expected: Use 'any' if at least one entity should trigger, or 'all' if all entities must trigger."
    );
}

#[test]
fn collision_trigger_rejects_empty_entity_list() {
    let (mut state, id) = state_with_act();
    let r = handle_set_collision_trigger(
        &mut state, &id, "Act", "main", "main_act", None, None, None, Vec::new(), "obstacle", "any", None, "0",
    );
    assert!(r.unwrap_err().starts_with("entity_refs must contain at least one entity."));
}

#[test]
fn collision_trigger_rejects_repeated_entities() {
    let (mut state, id) = state_with_act();
    let r = handle_set_collision_trigger(
        &mut state, &id, "Act", "main", "main_act", None, None, None, refs(&["ego", "ego"]), "obstacle", "ALL", None,
        "0",
    );
    assert_eq!(
        r.unwrap_err(),
        "entity_refs contains duplicate entities. Expected: Each entity should appear only once in the array."
    );
}

#[test]
fn collision_trigger_rejects_negative_delay() {
    let (mut state, id) = state_with_act();
    let r = handle_set_collision_trigger(
        &mut state, &id, "Act", "main", "main_act", None, None, None, refs(&["ego"]), "obstacle", "any",
        Some(quantity(-1.5)), "-1.5",
    );
    assert_eq!(
        r.unwrap_err(),
        "delay_seconds must be non-negative (got -1.5). Expected: Use a positive delay value or omit for immediate trigger."
    );
    let act = &state.scenario(&id).unwrap().stories()[0].acts[0];
    assert!(act.start_trigger.is_none());
}

#[test]
fn collision_trigger_is_set_on_the_act() {
    let (mut state, id) = state_with_act();
    let r = handle_set_collision_trigger(
        &mut state, &id, "Act", "main", "main_act", None, None, None, refs(&["ego", "vehicle2"]), "obstacle", "Any",
        Some(quantity(0.5)), "0.5",
    )
    .unwrap();
    assert_eq!(
        r,
        "Set collision trigger: Any of [ego, vehicle2] collide with 'obstacle' (delay: 0.5s) for Act 'main_act' in story 'main'"
    );
    let act = &state.scenario(&id).unwrap().stories()[0].acts[0];
    let trigger = act.start_trigger.as_ref().unwrap();
    assert_eq!(trigger.condition_groups.len(), 1);
    let c = &trigger.condition_groups[0].conditions[0];
    assert_eq!(c.name, "Collision_obstacle");
    assert_eq!(c.delay, quantity(0.5));
    assert_eq!(c.condition_edge, ConditionEdge::NoEdge);
    match &c.kind {
        ConditionKind::ByEntity(b) => {
            assert_eq!(b.triggering_entities.rule, TriggeringEntitiesRule::Any);
            assert_eq!(b.triggering_entities.entity_refs, refs(&["ego", "vehicle2"]));
            match &b.entity_condition {
                EntityCondition::Collision(x) => assert_eq!(x.target_entity_ref, "obstacle"),
                _ => panic!("expected a collision condition"),
            }
        }
        _ => panic!("expected an entity condition"),
    }
}

#[test]
fn collision_trigger_on_an_event_needs_its_path() {
    let (mut state, id) = state_with_act();
    let r = handle_set_collision_trigger(
        &mut state, &id, "Event", "main", "main_act", None, None, None, refs(&["ego"]), "obstacle", "all", None, "0",
    );
    assert!(r.unwrap_err().starts_with("Missing 'maneuver_group' parameter."));
}

#[test]
fn list_triggers_rejects_unknown_element_type() {
    let (state, id) = state_with_act();
    let r = handle_list_triggers(&state, &id, "Story", "main_act", None, None, None, None, &Vec::new());
    assert_eq!(r.unwrap_err(), "element_type must be 'Act' or 'Event' (got 'Story')");
}

#[test]
fn list_triggers_reports_unknown_scenario() {
    let state = ServerState::new();
    let r = handle_list_triggers(&state, "nope", "Act", "main_act", None, None, None, None, &Vec::new());
    assert_eq!(r.unwrap_err(), "Scenario 'nope' not found");
}

#[test]
fn list_triggers_without_trigger() {
    let (state, id) = state_with_act();
    let r = handle_list_triggers(&state, &id, "Act", "main_act", None, None, None, None, &Vec::new());
    assert_eq!(r.unwrap(), "No trigger set for Act 'main_act'");
}

#[test]
fn list_triggers_for_missing_act() {
    let (state, id) = state_with_act();
    let r = handle_list_triggers(&state, &id, "Act", "other_act", None, None, None, None, &Vec::new());
    assert_eq!(r.unwrap_err(), "Entity 'other_act' not found (referenced by Act in any story)");
}

#[test]
fn list_triggers_for_event_needs_story() {
    let (state, id) = state_with_act();
    let r = handle_list_triggers(&state, &id, "Event", "main_act", None, Some("mg"), Some("m"), Some("e"), &Vec::new());
    assert_eq!(r.unwrap_err(), "story_name required for Event triggers");
}

#[test]
fn list_triggers_describes_each_condition() {
    let (mut state, id) = state_with_act();
    handle_set_trigger_time(
        &mut state, &id, "Act", "main", "main_act", None, None, None, quantity(5.0), None, "5", "0",
    )
    .unwrap();
    let texts = vec![("0".to_string(), "5".to_string())];
    let r = handle_list_triggers(&state, &id, "Act", "main_act", None, None, None, None, &texts);
    assert_eq!(r.unwrap(), "Triggers for Act 'main_act':\n- SimulationTime: GreaterThan 5 (edge: rising)");
}

#[test]
fn list_triggers_after_collision_trigger() {
    let (mut state, id) = state_with_act();
    handle_set_collision_trigger(
        &mut state, &id, "Act", "main", "main_act", None, None, None, refs(&["ego"]), "wall", "all",
        Some(quantity(2.0)), "2",
    )
    .unwrap();
    let texts = vec![("2".to_string(), String::new())];
    let r = handle_list_triggers(&state, &id, "Act", "main_act", Some("main"), None, None, None, &texts);
    assert_eq!(r.unwrap(), "Triggers for Act 'main_act':\n- Collision: All of [ego] with 'wall' (edge: none) (delay: 2s)");
}

#[test]
fn act_trigger_set_is_found_again() {
    let (mut state, id) = state_with_act();
    handle_set_trigger_time(&mut state, &id, "Act", "main", "main_act", None, None, None, quantity(3.0), None, "3", "0")
        .unwrap();
    let sb = state.scenario(&id).unwrap().storyboard();
    let found = sb.act_start_trigger("main_act").unwrap().as_ref().unwrap();
    let set = state.scenario(&id).unwrap().stories()[0].acts[0].start_trigger.as_ref().unwrap();
    assert_eq!(found, set);
    assert_eq!(found.condition_groups[0].conditions[0].name, "SimTime_3");
}

#[test]
fn event_trigger_lookup_reports_missing_maneuver() {
    let (state, id) = state_with_act();
    let r = handle_list_triggers(&state, &id, "Event", "main_act", Some("main"), Some("mg"), Some("m"), Some("e"), &Vec::new());
    assert!(r.unwrap_err().starts_with("Entity 'mg' not found"));
}

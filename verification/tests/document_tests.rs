use openscenario::decoding::parse_i32;
use openscenario::document::{read_document_events, DocEvent};
use openscenario::entities::{Entity, VehicleCategory};
use openscenario::{Action, OpenScenarioVersion, Position, Real, Scenario, ScenarioError};

fn quantity(x: f64) -> Real {
    Real::from_bits(x.to_bits())
}

/// Every attribute text of the document that reads as a number, with its value.
fn numbers(xml: &str) -> Vec<(String, Real)> {
    let mut table = Vec::new();
    for e in read_document_events(xml) {
        let attributes = match e {
            DocEvent::Start((_, attributes)) | DocEvent::Empty((_, attributes)) => attributes,
            _ => continue,
        };
        for (_, value) in attributes.unwrap_or_default() {
            if let Ok(x) = value.parse::<f64>() {
                table.push((value.clone(), quantity(x)));
            }
        }
    }
    table
}

fn read(xml: &str) -> Result<Scenario, ScenarioError> {
    Scenario::from_xml(xml, &numbers(xml))
}

const DOCUMENT: &str = r#"<?xml version="1.0" encoding="UTF-8"?>
<OpenSCENARIO>
  <FileHeader revMajor="1" revMinor="1" date="2024-01-01T00:00:00" description="test" author="me"/>
  <ParameterDeclarations>
    <ParameterDeclaration name="speed" parameterType="double" value="10"/>
  </ParameterDeclarations>
  <CatalogLocations/>
  <RoadNetwork>
    <LogicFile filepath="road.xodr"/>
  </RoadNetwork>
  <Entities>
    <ScenarioObject name="ego">
      <Vehicle name="car" vehicleCategory="Truck">
        <BoundingBox><Center x="1" y="0" z="1"/><Dimensions width="2" length="5" height="2"/></BoundingBox>
      </Vehicle>
    </ScenarioObject>
    <ScenarioObject name="walker">
      <CatalogReference catalogName="PedestrianCatalog" entryName="adult"/>
    </ScenarioObject>
  </Entities>
  <Storyboard>
    <Init>
      <Actions>
        <Private entityRef="ego">
          <PrivateAction>
            <TeleportAction><Position><LanePosition roadId="1" laneId="-1" s="20.5" offset="0"/></Position></TeleportAction>
          </PrivateAction>
          <PrivateAction>
            <LongitudinalAction><SpeedAction><SpeedActionDynamics dynamicsShape="step" value="0" dynamicsDimension="time"/>
              <SpeedActionTarget><AbsoluteTargetSpeed value="13.9"/></SpeedActionTarget></SpeedAction></LongitudinalAction>
          </PrivateAction>
        </Private>
      </Actions>
    </Init>
    <Story name="main">
      <Act name="main_act">
        <ManeuverGroup name="ego_mg" maximumExecutionCount="1">
          <Actors selectTriggeringEntities="false"><EntityRef entityRef="ego"/></Actors>
          <Maneuver name="ego_maneuver">
            <Event name="brake" priority="override">
              <Action name="slow">
                <PrivateAction>
                  <LongitudinalAction><SpeedAction>
                    <SpeedActionDynamics dynamicsShape="linear" value="3" dynamicsDimension="time"/>
                    <SpeedActionTarget><AbsoluteTargetSpeed value="5"/></SpeedActionTarget>
                  </SpeedAction></LongitudinalAction>
                </PrivateAction>
              </Action>
              <StartTrigger>
                <ConditionGroup>
                  <Condition name="t" delay="0" conditionEdge="rising">
                    <ByValueCondition><SimulationTimeCondition value="4" rule="greaterThan"/></ByValueCondition>
                  </Condition>
                </ConditionGroup>
              </StartTrigger>
            </Event>
          </Maneuver>
        </ManeuverGroup>
        <StartTrigger/>
      </Act>
    </Story>
  </Storyboard>
</OpenSCENARIO>
"#;

#[test]
fn reads_a_whole_document() {
    let sc = read(DOCUMENT).unwrap();
    assert_eq!(sc.version(), OpenScenarioVersion::V1_1);
    assert_eq!(sc.parameters().len(), 1);
    assert_eq!(sc.parameters()[0].name, "speed");
    assert_eq!(sc.parameters()[0].value, "10");
    assert_eq!(sc.road_network(), Some("road.xodr"));
    assert_eq!(sc.entities().len(), 2);
    match sc.get_entity("ego").unwrap() {
        Entity::Vehicle(v) => assert_eq!(v.params.vehicle_category, VehicleCategory::Truck),
        _ => panic!("ego is a vehicle"),
    }
    match sc.get_entity("walker").unwrap() {
        Entity::Pedestrian(p) => assert_eq!(p.params.catalog.as_ref().unwrap().entry_name, "adult"),
        _ => panic!("walker is a pedestrian"),
    }
    match sc.get_initial_position("ego").unwrap() {
        Position::Lane { road_id, lane_id, s, .. } => {
            assert_eq!(road_id, "1");
            assert_eq!(*lane_id, -1);
            assert_eq!(*s, quantity(20.5));
        }
        _ => panic!("lane position expected"),
    }
    assert_eq!(sc.get_initial_speed("ego"), Some(quantity(13.9)));
    let story = &sc.stories()[0];
    assert_eq!(story.name, "main");
    let act = &story.acts[0];
    assert!(act.start_trigger.is_none());
    let group = &act.maneuver_groups[0];
    assert_eq!(group.actors, vec!["ego".to_string()]);
    let event = &group.maneuvers[0].events[0];
    assert_eq!(event.name, "brake");
    match &event.actions[0] {
        Action::Speed(s) => {
            assert_eq!(s.target_speed, quantity(5.0));
            assert_eq!(s.dynamics.value, quantity(3.0));
        }
        _ => panic!("speed action expected"),
    }
    let trigger = event.start_trigger.as_ref().unwrap();
    assert_eq!(trigger.condition_groups[0].conditions[0].name, "t");
}

#[test]
fn refuses_a_blank_document() {
    match read("  \n\t ") {
        Err(ScenarioError::Parse(m)) => assert_eq!(m, "XML file is empty or contains only whitespace"),
        _ => panic!("expected a parse error"),
    }
}

#[test]
fn refuses_a_document_without_root() {
    match read("<Other><Thing/></Other>") {
        Err(ScenarioError::Parse(m)) => assert_eq!(m, "No OpenSCENARIO root element found"),
        _ => panic!("expected a parse error"),
    }
}

#[test]
fn refuses_an_oversized_document() {
    let xml = " ".repeat(104857601);
    match read(&xml) {
        Err(ScenarioError::InvalidValue { field, reason }) => {
            assert_eq!(field, "xml_size");
            assert_eq!(reason, "XML file too large (104857601 bytes). Maximum size is 104857600 bytes (100MB)");
        }
        _ => panic!("expected an invalid value"),
    }
}

#[test]
fn refuses_an_unsupported_version() {
    let xml = r#"<OpenSCENARIO><FileHeader revMajor="2" revMinor="0"/></OpenSCENARIO>"#;
    match read(xml) {
        Err(ScenarioError::Parse(m)) => assert!(m.starts_with("Unsupported OpenSCENARIO version 2.0")),
        _ => panic!("expected a parse error"),
    }
}

#[test]
fn refuses_a_bad_world_coordinate() {
    let xml = r#"<OpenSCENARIO><Storyboard><Init><Actions><Private entityRef="a"><PrivateAction><TeleportAction>
      <Position><WorldPosition x="abc" y="0"/></Position></TeleportAction></PrivateAction></Private></Actions></Init>
      </Storyboard></OpenSCENARIO>"#;
    match read(xml) {
        Err(ScenarioError::Parse(m)) => assert_eq!(m, "invalid float for WorldPosition attribute 'x': 'abc'"),
        _ => panic!("expected a parse error"),
    }
}

#[test]
fn refuses_a_story_cut_short() {
    let xml = r#"<OpenSCENARIO><Storyboard><Story name="s"><Act name="a">"#;
    assert!(read(xml).is_err());
}

#[test]
fn a_scenario_object_needs_an_entity() {
    let xml = r#"<OpenSCENARIO><Entities><ScenarioObject name="x"></ScenarioObject></Entities></OpenSCENARIO>"#;
    match read(xml) {
        Err(ScenarioError::Parse(m)) => assert_eq!(m, "No entity definition found in ScenarioObject 'x'"),
        _ => panic!("expected a parse error"),
    }
}

#[test]
fn default_version_without_header() {
    let sc = read("<OpenSCENARIO></OpenSCENARIO>").unwrap();
    assert_eq!(sc.version(), OpenScenarioVersion::V1_2);
    assert_eq!(sc.entities().len(), 0);
}

#[test]
fn reads_signed_lane_numbers() {
    assert_eq!(parse_i32("-1"), Some(-1));
    assert_eq!(parse_i32("+7"), Some(7));
    assert_eq!(parse_i32("2147483647"), Some(2147483647));
    assert_eq!(parse_i32("-2147483648"), Some(-2147483648));
    assert_eq!(parse_i32("2147483648"), None);
    assert_eq!(parse_i32("-"), None);
    assert_eq!(parse_i32(""), None);
    assert_eq!(parse_i32("1.5"), None);
}

#[test]
fn a_bad_lane_number_is_refused() {
    let xml = r#"<OpenSCENARIO><Storyboard><Init><Actions><Private entityRef="a"><PrivateAction><TeleportAction>
      <Position><LanePosition roadId="1" laneId="x" s="1"/></Position></TeleportAction></PrivateAction></Private></Actions></Init>
      </Storyboard></OpenSCENARIO>"#;
    match read(xml) {
        Err(ScenarioError::Parse(m)) => assert_eq!(m, "invalid integer for LanePosition laneId: 'x'"),
        _ => panic!("expected a parse error"),
    }
}

#[test]
fn a_later_object_of_the_same_name_replaces_the_earlier() {
    let xml = r#"<OpenSCENARIO><Entities>
      <ScenarioObject name="a"><Vehicle name="v" vehicleCategory="bus"></Vehicle></ScenarioObject>
      <ScenarioObject name="a"><MiscObject name="m" miscObjectCategory="barrier"></MiscObject></ScenarioObject>
      </Entities></OpenSCENARIO>"#;
    let sc = read(xml).unwrap();
    assert_eq!(sc.entities().len(), 1);
    match sc.get_entity("a").unwrap() {
        Entity::MiscObject(m) => assert_eq!(m.params.category.as_deref(), Some("barrier")),
        _ => panic!("expected the object"),
    }
}

#[test]
fn names_are_read_with_references_replaced() {
    let xml = r#"<OpenSCENARIO><Entities><ScenarioObject name="a&amp;b"><Vehicle name="v"></Vehicle></ScenarioObject>
      </Entities></OpenSCENARIO>"#;
    let sc = read(xml).unwrap();
    assert!(sc.get_entity("a&b").is_some());
}

#[test]
fn a_malformed_document_is_an_xml_error() {
    let xml = r#"<OpenSCENARIO><Entities></Storyboard></OpenSCENARIO>"#;
    assert!(matches!(read(xml), Err(ScenarioError::Xml(_))));
}

#[test]
fn a_story_cut_short_names_the_element() {
    let xml = r#"<OpenSCENARIO><Storyboard><Story name="s"><Act name="a">"#;
    match read(xml) {
        Err(ScenarioError::Parse(m)) => assert_eq!(m, "Unexpected EOF in Act"),
        _ => panic!("expected a parse error"),
    }
}

#[test]
fn a_condition_needs_a_value_condition() {
    let xml = r#"<OpenSCENARIO><Storyboard><Story name="s"><Act name="a"><StartTrigger><ConditionGroup>
      <Condition name="c"><ByEntityCondition></ByEntityCondition></Condition></ConditionGroup></StartTrigger></Act></Story>
      </Storyboard></OpenSCENARIO>"#;
    match read(xml) {
        Err(ScenarioError::Parse(m)) => assert_eq!(m, "Condition has no recognized kind"),
        _ => panic!("expected a parse error"),
    }
}

#[test]
fn numbers_missing_from_the_table_read_as_zero_in_actions() {
    let xml = r#"<OpenSCENARIO><Storyboard><Story name="s"><Act name="a"><ManeuverGroup name="g"><Maneuver name="m">
      <Event name="e"><Action name="x"><PrivateAction><LateralAction><LaneChangeAction>
      <LaneChangeActionDynamics dynamicsShape="cubic" value="fast"/><LaneChangeTarget><RelativeTargetLane entityRef="ego" value="1"/></LaneChangeTarget>
      </LaneChangeAction></LateralAction></PrivateAction></Action></Event></Maneuver></ManeuverGroup></Act></Story>
      </Storyboard></OpenSCENARIO>"#;
    let sc = read(xml).unwrap();
    let event = &sc.stories()[0].acts[0].maneuver_groups[0].maneuvers[0].events[0];
    match &event.actions[0] {
        Action::LaneChange(l) => {
            assert_eq!(l.target_lane_offset, quantity(1.0));
            assert_eq!(l.transition_duration, quantity(0.0));
            assert_eq!(l.shape, openscenario::TransitionShape::Cubic);
        }
        _ => panic!("lane change expected"),
    }
}

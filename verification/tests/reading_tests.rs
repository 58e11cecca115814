use openscenario::catalog::{Catalog, CatalogType, XmlAttribute, XmlEvent};
use openscenario::decoding::{
    header_version, parse_condition_edge, parse_dynamics_dimension, parse_dynamics_shape, parse_parameter_type,
    parse_rule, parse_transition_shape, parse_u8,
};
use openscenario::entities::Entity;
use openscenario::opendrive_validator::{OpenDriveValidator, ValidationError};
use openscenario::storyboard::{ConditionEdge, DynamicsDimension, DynamicsShape, Rule, TransitionShape};
use openscenario::validation::{
    report_from_errors, schema_path_for_version, supported_schema_dirs, SchemaRegistry, SchemaSource, XsdValidator,
};
use openscenario::{OpenScenarioVersion, ParameterType, Real, ScenarioError};

fn quantity(x: f64) -> Real {
    Real::from_bits(x.to_bits())
}

fn pair(key: &str, value: &str) -> (String, String) {
    (key.to_string(), value.to_string())
}

fn attr(key: &str, value: &str) -> XmlAttribute {
    XmlAttribute { key: key.to_string(), value: value.to_string() }
}

const ROADS: &str = r###"<?xml version="1.0" encoding="UTF-8"?>
<OpenDRIVE>
    <header revMajor="1" revMinor="6" name="two" version="1.0"/>
    <road name="a" length="100.0" id="1" junction="-1">
        <link/>
        <planView><geometry s="0.0" x="0.0" y="0.0" hdg="0.0" length="100.0"><line/></geometry></planView>
        <lanes>
            <laneSection s="0.0">
                <left><lane id="1" type="driving" level="false"><link/></lane></left>
                <center><lane id="0" type="none" level="false"><link/></lane></center>
                <right><lane id="-1" type="driving" level="false"><link/></lane></right>
            </laneSection>
        </lanes>
    </road>
</OpenDRIVE>
"###;

#[test]
fn rules_and_edges() {
    assert_eq!(parse_rule("lessThan"), Rule::LessThan);
    assert_eq!(parse_rule("greaterOrEqual"), Rule::GreaterOrEqual);
    assert_eq!(parse_rule("bogus"), Rule::GreaterThan);
    assert_eq!(parse_condition_edge("risingOrFalling"), ConditionEdge::RisingOrFalling);
    assert_eq!(parse_condition_edge("none"), ConditionEdge::NoEdge);
    assert_eq!(parse_parameter_type("unsignedShort"), ParameterType::UnsignedShort);
    assert_eq!(parse_parameter_type("whatever"), ParameterType::String);
    assert_eq!(parse_dynamics_shape("cubic"), DynamicsShape::Cubic);
    assert_eq!(parse_dynamics_shape("step"), DynamicsShape::Linear);
    assert_eq!(parse_dynamics_dimension("rate"), DynamicsDimension::Rate);
    assert_eq!(parse_transition_shape("sinusoidal"), TransitionShape::Sinusoidal);
}

#[test]
fn u8_numbers() {
    assert_eq!(parse_u8("0"), Some(0));
    assert_eq!(parse_u8("+12"), Some(12));
    assert_eq!(parse_u8("007"), Some(7));
    assert_eq!(parse_u8("255"), Some(255));
    assert_eq!(parse_u8("256"), None);
    assert_eq!(parse_u8(""), None);
    assert_eq!(parse_u8("+"), None);
    assert_eq!(parse_u8("-1"), None);
    assert_eq!(parse_u8("1a"), None);
}

#[test]
fn file_header_versions() {
    let v = header_version(&vec![pair("revMajor", "1"), pair("revMinor", "2")]).unwrap();
    assert_eq!(v, OpenScenarioVersion::V1_2);
    match header_version(&vec![pair("revMinor", "x"), pair("revMajor", "1")]) {
        Err(ScenarioError::Parse(m)) => assert_eq!(m, "Invalid revMinor attribute: 'x'. Expected integer."),
        other => panic!("unexpected {:?}", other),
    }
    match header_version(&vec![pair("revMinor", "2")]) {
        Err(ScenarioError::Parse(m)) => assert_eq!(m, "Missing revMajor attribute in FileHeader"),
        other => panic!("unexpected {:?}", other),
    }
    match header_version(&vec![pair("revMajor", "2"), pair("revMinor", "07")]) {
        Err(ScenarioError::Parse(m)) => {
            assert_eq!(m, "Unsupported OpenSCENARIO version 2.7. Supported versions: 1.0, 1.1, 1.2, 1.3.")
        }
        other => panic!("unexpected {:?}", other),
    }
}

#[test]
fn catalog_of_pedestrians_from_events() {
    let events = vec![
        XmlEvent::Open { name: "PedestrianCatalog".to_string(), attributes: Ok(vec![]) },
        XmlEvent::Open { name: "Pedestrian".to_string(), attributes: Ok(vec![attr("name", "p")]) },
        XmlEvent::Open { name: "Properties".to_string(), attributes: Ok(vec![]) },
        XmlEvent::Open {
            name: "Property".to_string(),
            attributes: Ok(vec![attr("name", "name"), attr("value", "walker")]),
        },
        XmlEvent::Close { name: "Properties".to_string() },
        XmlEvent::Close { name: "Pedestrian".to_string() },
        XmlEvent::Open { name: "Pedestrian".to_string(), attributes: Ok(vec![]) },
        XmlEvent::Close { name: "Pedestrian".to_string() },
        XmlEvent::End,
    ];
    let c = Catalog::from_events(&events).unwrap();
    assert_eq!(c.catalog_type(), CatalogType::Pedestrian);
    assert_eq!(c.entries().len(), 1);
    match c.find("walker").unwrap().clone_entity() {
        Entity::Pedestrian(p) => assert_eq!(p.params.mass.unwrap().to_bits(), 80.0f64.to_bits()),
        other => panic!("unexpected {:?}", other),
    }
}

#[test]
fn catalog_errors() {
    match Catalog::from_xml("<OpenSCENARIO></OpenSCENARIO>") {
        Err(ScenarioError::InvalidCatalog(m)) => assert_eq!(m, "No catalog type found"),
        other => panic!("unexpected {:?}", other),
    }
    let events = vec![XmlEvent::Open { name: "MiscObjectCatalog".to_string(), attributes: Ok(vec![]) }, XmlEvent::Failed("bad".to_string())];
    match Catalog::from_events(&events) {
        Err(ScenarioError::Xml(m)) => assert_eq!(m, "bad"),
        other => panic!("unexpected {:?}", other),
    }
    assert!(Catalog::from_xml("<VehicleCatalog><Vehicle></Other></VehicleCatalog>").is_err());
}

#[test]
fn validation_reports() {
    let r = report_from_errors(vec![]);
    assert!(r.valid);
    let r = report_from_errors(vec!["x".to_string()]);
    assert!(!r.valid);
    assert_eq!(r.errors, vec!["x".to_string()]);
    assert_eq!(schema_path_for_version("/base", "v1.2.0"), "/base/schemas/v1.2.0/OpenSCENARIO.xsd");
    assert_eq!(supported_schema_dirs()[3], ("1.3".to_string(), "v1.3.1".to_string()));

    let registry = SchemaRegistry::without_schemas();
    let report = XsdValidator::new("9.9").validate(&registry, "<a/>");
    assert_eq!(report.errors, vec!["Unsupported OpenSCENARIO version: 9.9. Supported versions: 1.0, 1.1, 1.2, 1.3".to_string()]);
}

#[test]
fn compiled_schema_checks_documents() {
    let schema = r#"<?xml version="1.0"?>
<xs:schema xmlns:xs="http://www.w3.org/2001/XMLSchema">
  <xs:element name="Root"><xs:complexType><xs:sequence/></xs:complexType></xs:element>
</xs:schema>"#;
    let registry = SchemaRegistry::load(vec![
        SchemaSource { version: "1.2".to_string(), text: Some(schema.to_string()) },
        SchemaSource { version: "1.1".to_string(), text: None },
    ]);
    let v = XsdValidator::new("1.2");
    assert!(v.validate(&registry, "<Root/>").valid);
    let bad = v.validate(&registry, "<Other/>");
    assert!(!bad.valid);
    assert!(!bad.errors.is_empty());
    let missing = XsdValidator::new("1.1").validate(&registry, "<Root/>");
    assert!(missing.errors[0].contains("XSD schema not available for OpenSCENARIO v1.1"));
}

#[test]
fn road_network_positions() {
    let v = OpenDriveValidator::from_xodr_str(ROADS).unwrap();
    assert!(v.road_exists("1"));
    assert!(!v.road_exists("2"));
    assert!(v.validate_lane_position("1", 1).is_ok());
    assert!(v.validate_lane_position("1", -1).is_ok());
    assert!(matches!(v.validate_lane_position("1", 2), Err(ValidationError::LaneNotFound(_, 2))));
    assert!(matches!(v.validate_lane_position("2", 1), Err(ValidationError::RoadNotFound(_))));
    assert!(v.validate_road_position("1", quantity(50.0)).is_ok());
    assert!(v.validate_position("1", quantity(100.0)).is_ok());
    assert!(matches!(v.validate_road_position("1", quantity(100.5)), Err(ValidationError::PositionOutOfBounds(..))));
    assert!(matches!(v.validate_road_position("1", quantity(-0.5)), Err(ValidationError::PositionOutOfBounds(..))));
    assert!(matches!(v.validate_road_position("1", quantity(f64::NAN)), Err(ValidationError::PositionOutOfBounds(..))));
    assert!(matches!(OpenDriveValidator::from_xodr_str("<nope"), Err(ValidationError::LoadError(_))));
}

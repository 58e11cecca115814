use openscenario::validation::{SchemaRegistry, SchemaSource, XsdValidator};

#[test]
fn validation_test_validator_creation() {
    let validator = XsdValidator::new("1.0");
    assert_eq!(validator.version(), "1.0");
}

#[test]
fn test_well_formed_xml() {
    let registry = SchemaRegistry::without_schemas();
    let validator = XsdValidator::new("1.0");
    let xml = r#"<?xml version="1.0"?>
<OpenSCENARIO>
    <FileHeader revMajor="1" revMinor="0"/>
</OpenSCENARIO>"#;
    let report = validator.validate(&registry, xml);
    // Strict mode: without XSD, this will fail
    if report
        .errors
        .iter()
        .any(|e| e.contains("XSD schema not available"))
    {
        // Expected behavior without XSD
        assert!(!report.valid);
    } else {
        // With XSD, should validate successfully
        assert!(report.valid);
    }
}

#[test]
fn test_malformed_xml() {
    let registry = SchemaRegistry::without_schemas();
    let validator = XsdValidator::new("1.0");
    let xml = r#"<?xml version="1.0"?>
<OpenSCENARIO>
    <FileHeader revMajor="1" revMinor="0"
</OpenSCENARIO>"#;
    let report = validator.validate(&registry, xml);
    assert!(!report.valid);
    assert!(!report.errors.is_empty());
    assert!(report.errors[0].contains("XML parsing error"));
}

#[test]
fn test_missing_xsd_fails() {
    let registry = SchemaRegistry::without_schemas();
    let validator = XsdValidator::new("1.0");
    let xml = r#"<?xml version="1.0"?>
<OpenSCENARIO>
    <FileHeader revMajor="1" revMinor="0"/>
</OpenSCENARIO>"#;
    let report = validator.validate(&registry, xml);
    // Without XSD, validation should FAIL (strict mode)
    if report.valid {
        // If it passed, XSD must be present - skip test
        return;
    }
    assert!(!report.valid);
    assert!(report
        .errors
        .iter()
        .any(|e| e.contains("XSD schema not available")));
}

const TINY_SCHEMA: &str = r#"<?xml version="1.0"?>
<xs:schema xmlns:xs="http://www.w3.org/2001/XMLSchema">
  <xs:element name="OpenSCENARIO">
    <xs:complexType>
      <xs:sequence>
        <xs:element name="FileHeader" minOccurs="1" maxOccurs="1">
          <xs:complexType>
            <xs:attribute name="revMajor" type="xs:unsignedShort" use="required"/>
          </xs:complexType>
        </xs:element>
      </xs:sequence>
    </xs:complexType>
  </xs:element>
</xs:schema>"#;

fn tiny_registry() -> SchemaRegistry {
    SchemaRegistry::load(vec![SchemaSource { version: "1.2".to_string(), text: Some(TINY_SCHEMA.to_string()) }])
}

#[test]
fn compiled_schema_accepts_a_valid_document() {
    let report = XsdValidator::new("1.2").validate(&tiny_registry(), r#"<OpenSCENARIO><FileHeader revMajor="1"/></OpenSCENARIO>"#);
    assert!(report.valid, "{:?}", report.errors);
    assert!(report.errors.is_empty());
}

#[test]
fn compiled_schema_reports_schema_errors() {
    let report = XsdValidator::new("1.2").validate(&tiny_registry(), r#"<OpenSCENARIO><Other/></OpenSCENARIO>"#);
    assert!(!report.valid);
    assert!(!report.errors.is_empty());
    let report = XsdValidator::new("1.1").validate(&tiny_registry(), r#"<OpenSCENARIO/>"#);
    assert_eq!(report.errors, vec!["Unsupported OpenSCENARIO version: 1.1. Supported versions: 1.0, 1.1, 1.2, 1.3".to_string()]);
}

#[test]
fn supported_registry_knows_the_four_versions() {
    let registry = SchemaRegistry::supported(vec![None, None, Some(TINY_SCHEMA.to_string())]);
    let report = XsdValidator::new("1.2").validate(&registry, r#"<OpenSCENARIO><FileHeader revMajor="1"/></OpenSCENARIO>"#);
    assert!(report.valid, "{:?}", report.errors);
    let report = XsdValidator::new("1.3").validate(&registry, r#"<OpenSCENARIO/>"#);
    assert!(report.errors[0].starts_with("XSD schema not available for OpenSCENARIO v1.3"));
    let report = XsdValidator::new("2.0").validate(&registry, r#"<OpenSCENARIO/>"#);
    assert!(report.errors[0].starts_with("Unsupported OpenSCENARIO version: 2.0"));
}

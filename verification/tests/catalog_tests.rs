use openscenario::catalog::{Catalog, CatalogType};
use openscenario::entities::Entity;

#[test]
fn test_catalog_type_enum() {
    assert_eq!(CatalogType::Vehicle, CatalogType::Vehicle);
    assert_ne!(CatalogType::Vehicle, CatalogType::Pedestrian);
}

#[test]
fn test_parse_vehicle_catalog() {
    let xml = r#"<?xml version="1.0" encoding="UTF-8"?>
<OpenSCENARIO>
  <VehicleCatalog>
    <Vehicle name="car1">
      <Properties>
        <Property name="name" value="sedan"/>
      </Properties>
      <BoundingBox>
        <Dimensions length="4.5" width="1.8" height="1.5"/>
      </BoundingBox>
    </Vehicle>
  </VehicleCatalog>
</OpenSCENARIO>"#;

    let catalog = Catalog::from_xml(xml).unwrap();
    assert_eq!(catalog.catalog_type(), CatalogType::Vehicle);
    assert_eq!(catalog.entries().len(), 1);

    let entry = catalog.find("sedan").unwrap();
    assert_eq!(entry.name(), "sedan");
    match entry.entity() {
        Entity::Vehicle(vehicle) => {
            assert_eq!(vehicle.name, "sedan");
        }
        _ => panic!("Expected Vehicle entity"),
    }
}

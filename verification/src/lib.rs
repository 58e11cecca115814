//! Building, checking and reading OpenSCENARIO driving scenarios.
pub mod quantity;
pub mod version;

pub mod text;
pub mod error;
pub mod entities;
pub mod opendrive_validator;
pub mod position;
pub mod storyboard;
pub mod editing;
pub mod scenario;
pub mod validation;
pub mod catalog;
pub mod decoding;
pub mod document;
pub mod inspection;
pub mod service;
pub mod laws;
pub mod reading_laws;

pub use catalog::{Catalog, CatalogEntry, CatalogType};
pub use entities::{Entity, MiscObjectParams, PedestrianParams, VehicleParams};
pub use error::ScenarioError;
pub use position::Position;
pub use quantity::Real;
pub use scenario::{ParameterDeclaration, ParameterType, Scenario};
pub use storyboard::{
    Act, Action, ByValueCondition, Condition, ConditionEdge, ConditionGroup, ConditionKind, Event, LaneChangeAction,
    SpeedAction, Storyboard, TransitionShape, Trigger,
};
pub use validation::{ValidationReport, XsdValidator};
pub use version::OpenScenarioVersion;

//! Errors of scenario construction, checking and reading.
use vstd::prelude::*;
use crate::text::{concat2, concat3, views};

verus! {

/// What can go wrong when building, checking or reading a scenario.
#[derive(Debug)]
#[non_exhaustive]
pub enum ScenarioError {
    /// An entity with this name already exists.
    EntityConflict { name: String, existing_location: Option<String> },
    /// A story is missing (also reported for a story added twice).
    StoryNotFound { name: String, available: Vec<String> },
    /// A referenced entity or storyboard element is missing.
    EntityNotFound { entity: String, context: String },
    /// A feature needs a newer standard than the scenario's.
    VersionMismatch { feature: String, required_version: String, current_version: String },
    /// The document breaks the XSD schema.
    XsdViolation { message: String },
    /// A road is missing from the loaded road network.
    RoadNotFound { road_id: String },
    /// A catalog could not be loaded.
    CatalogLoadError { path: String, reason: String },
    /// A catalog has no entry of this name.
    CatalogEntryNotFound { catalog: String, entry: String },
    /// A catalog document is malformed.
    InvalidCatalog(String),
    /// A parameter with this name already exists.
    ParameterConflict { name: String },
    /// A parameter reference is invalid.
    InvalidParameterRef(String),
    /// An entity named by a condition does not exist.
    InvalidEntityRef { entity: String, available: Vec<String> },
    /// A field holds a value outside its range.
    InvalidValue { field: String, reason: String },
    /// A name is already used within its scope.
    NameConflict { item_type: String, name: String, context: String },
    /// Reading or writing a file failed (the message of the I/O error).
    Io(String),
    /// The XML tokenizer failed (its message).
    Xml(String),
    /// The document does not have the expected structure.
    Parse(String),
}

/// The mathematical content of a [`ScenarioError`].
pub enum ScenarioErrorView {
    EntityConflict { name: Seq<char>, existing_location: Option<Seq<char>> },
    StoryNotFound { name: Seq<char>, available: Seq<Seq<char>> },
    EntityNotFound { entity: Seq<char>, context: Seq<char> },
    VersionMismatch { feature: Seq<char>, required_version: Seq<char>, current_version: Seq<char> },
    XsdViolation { message: Seq<char> },
    RoadNotFound { road_id: Seq<char> },
    CatalogLoadError { path: Seq<char>, reason: Seq<char> },
    CatalogEntryNotFound { catalog: Seq<char>, entry: Seq<char> },
    InvalidCatalog(Seq<char>),
    ParameterConflict { name: Seq<char> },
    InvalidParameterRef(Seq<char>),
    InvalidEntityRef { entity: Seq<char>, available: Seq<Seq<char>> },
    InvalidValue { field: Seq<char>, reason: Seq<char> },
    NameConflict { item_type: Seq<char>, name: Seq<char>, context: Seq<char> },
    Io(Seq<char>),
    Xml(Seq<char>),
    Parse(Seq<char>),
}

/// The reason given for an empty or blank name.
pub open spec fn blank_name_reason() -> Seq<char> {
    "name cannot be empty or whitespace-only"@
}

/// The reason given for an empty or blank entity reference.
pub open spec fn blank_reference_reason() -> Seq<char> {
    "entity name cannot be empty or whitespace-only"@
}

impl View for ScenarioError {
    type V = ScenarioErrorView;

    open spec fn view(&self) -> ScenarioErrorView {
        match self {
            ScenarioError::EntityConflict { name, existing_location } => ScenarioErrorView::EntityConflict {
                name: name@,
                existing_location: match existing_location {
                    Some(l) => Some(l@),
                    None => None,
                },
            },
            ScenarioError::StoryNotFound { name, available } => ScenarioErrorView::StoryNotFound {
                name: name@,
                available: views(available@),
            },
            ScenarioError::EntityNotFound { entity, context } => ScenarioErrorView::EntityNotFound {
                entity: entity@,
                context: context@,
            },
            ScenarioError::VersionMismatch { feature, required_version, current_version } =>
                ScenarioErrorView::VersionMismatch {
                feature: feature@,
                required_version: required_version@,
                current_version: current_version@,
            },
            ScenarioError::XsdViolation { message } => ScenarioErrorView::XsdViolation {
                message: message@,
            },
            ScenarioError::RoadNotFound { road_id } => ScenarioErrorView::RoadNotFound {
                road_id: road_id@,
            },
            ScenarioError::CatalogLoadError { path, reason } => ScenarioErrorView::CatalogLoadError {
                path: path@,
                reason: reason@,
            },
            ScenarioError::CatalogEntryNotFound { catalog, entry } =>
                ScenarioErrorView::CatalogEntryNotFound { catalog: catalog@, entry: entry@ },
            ScenarioError::InvalidCatalog(m) => ScenarioErrorView::InvalidCatalog(m@),
            ScenarioError::ParameterConflict { name } => ScenarioErrorView::ParameterConflict {
                name: name@,
            },
            ScenarioError::InvalidParameterRef(m) => ScenarioErrorView::InvalidParameterRef(m@),
            ScenarioError::InvalidEntityRef { entity, available } =>
                ScenarioErrorView::InvalidEntityRef { entity: entity@, available: views(available@) },
            ScenarioError::InvalidValue { field, reason } => ScenarioErrorView::InvalidValue {
                field: field@,
                reason: reason@,
            },
            ScenarioError::NameConflict { item_type, name, context } =>
                ScenarioErrorView::NameConflict {
                item_type: item_type@,
                name: name@,
                context: context@,
            },
            ScenarioError::Io(m) => ScenarioErrorView::Io(m@),
            ScenarioError::Xml(m) => ScenarioErrorView::Xml(m@),
            ScenarioError::Parse(m) => ScenarioErrorView::Parse(m@),
        }
    }
}

/// What `{:?}` prints for a list of texts, such as `["a", "b"]`.
pub uninterp spec fn debug_list(items: Seq<Seq<char>>) -> Seq<char>;

/// Formats a list of texts with `{:?}`; the result is what std's `Debug`
/// prints for the list (each text quoted and escaped, in brackets).
#[verifier::external_body]
fn debug_text_list(items: &Vec<String>) -> (r: String)
    ensures
        r@ == debug_list(views(items@)),
{
    format!("{:?}", items)
}

/// The message of an error, as it is shown to users.
pub open spec fn error_message(e: ScenarioErrorView) -> Seq<char> {
    match e {
        ScenarioErrorView::EntityConflict { name, existing_location } => "Entity '"@ + name + "' already exists"@ + match existing_location {
            Some(l) => " (defined at "@ + l + ")"@,
            None => Seq::empty(),
        },
        ScenarioErrorView::StoryNotFound { name, available } => "Story '"@ + name + "' not found. Available stories: "@
            + debug_list(available),
        ScenarioErrorView::EntityNotFound { entity, context } => "Entity '"@ + entity + "' not found (referenced by "@
            + context + ")"@,
        ScenarioErrorView::VersionMismatch { feature, required_version, current_version } => "Feature '"@ + feature
            + "' requires OpenSCENARIO "@ + required_version + "+, but scenario is version "@ + current_version,
        ScenarioErrorView::XsdViolation { message } => "XSD validation failed: "@ + message,
        ScenarioErrorView::RoadNotFound { road_id } => "Road '"@ + road_id
            + "' not found in loaded OpenDRIVE network. Load road network first with load_road_network()"@,
        ScenarioErrorView::CatalogLoadError { path, reason } => "Catalog '"@ + path + "' not found or could not be loaded: "@
            + reason,
        ScenarioErrorView::CatalogEntryNotFound { catalog, entry } => "Invalid catalog reference: catalog '"@ + catalog
            + "' entry '"@ + entry + "' not found"@,
        ScenarioErrorView::InvalidCatalog(m) => "Invalid catalog: "@ + m,
        ScenarioErrorView::ParameterConflict { name } => "Parameter '"@ + name + "' already exists"@,
        ScenarioErrorView::InvalidParameterRef(m) => "Invalid parameter reference: "@ + m,
        ScenarioErrorView::InvalidEntityRef { entity, available } => "Invalid entity reference '"@ + entity
            + "': entity not found in scenario. Available entities: "@ + debug_list(available),
        ScenarioErrorView::InvalidValue { field, reason } => "Invalid value for "@ + field + ": "@ + reason,
        ScenarioErrorView::NameConflict { item_type, name, context } => "Name conflict: "@ + item_type + " '"@ + name
            + "' already exists in "@ + context,
        ScenarioErrorView::Io(m) => "IO error: "@ + m,
        ScenarioErrorView::Xml(m) => "XML error: "@ + m,
        ScenarioErrorView::Parse(m) => "Parse error: "@ + m,
    }
}

impl ScenarioError {
    /// The message of the error, as it is shown to users.
    pub fn message(&self) -> (r: String)
        ensures
            r@ == error_message(self@),
    {
        match self {
            ScenarioError::EntityConflict { name, existing_location } => {
                let mut r = concat3("Entity '", name.as_str(), "' already exists");
                match existing_location {
                    Some(l) => {
                        r.append(" (defined at ");
                        r.append(l.as_str());
                        r.append(")");
                    },
                    None => {},
                }
                r
            },
            ScenarioError::StoryNotFound { name, available } => {
                let mut r = concat3("Story '", name.as_str(), "' not found. Available stories: ");
                r.append(debug_text_list(available).as_str());
                r
            },
            ScenarioError::EntityNotFound { entity, context } => {
                let mut r = concat3("Entity '", entity.as_str(), "' not found (referenced by ");
                r.append(context.as_str());
                r.append(")");
                r
            },
            ScenarioError::VersionMismatch { feature, required_version, current_version } => {
                let mut r = concat3("Feature '", feature.as_str(), "' requires OpenSCENARIO ");
                r.append(required_version.as_str());
                r.append("+, but scenario is version ");
                r.append(current_version.as_str());
                r
            },
            ScenarioError::XsdViolation { message } => concat2("XSD validation failed: ", message.as_str()),
            ScenarioError::RoadNotFound { road_id } => concat3(
                "Road '",
                road_id.as_str(),
                "' not found in loaded OpenDRIVE network. Load road network first with load_road_network()",
            ),
            ScenarioError::CatalogLoadError { path, reason } => {
                let mut r = concat3("Catalog '", path.as_str(), "' not found or could not be loaded: ");
                r.append(reason.as_str());
                r
            },
            ScenarioError::CatalogEntryNotFound { catalog, entry } => {
                let mut r = concat3("Invalid catalog reference: catalog '", catalog.as_str(), "' entry '");
                r.append(entry.as_str());
                r.append("' not found");
                r
            },
            ScenarioError::InvalidCatalog(m) => concat2("Invalid catalog: ", m.as_str()),
            ScenarioError::ParameterConflict { name } => concat3("Parameter '", name.as_str(), "' already exists"),
            ScenarioError::InvalidParameterRef(m) => concat2("Invalid parameter reference: ", m.as_str()),
            ScenarioError::InvalidEntityRef { entity, available } => {
                let mut r = concat3(
                    "Invalid entity reference '",
                    entity.as_str(),
                    "': entity not found in scenario. Available entities: ",
                );
                r.append(debug_text_list(available).as_str());
                r
            },
            ScenarioError::InvalidValue { field, reason } => {
                let mut r = concat3("Invalid value for ", field.as_str(), ": ");
                r.append(reason.as_str());
                r
            },
            ScenarioError::NameConflict { item_type, name, context } => {
                let mut r = concat3("Name conflict: ", item_type.as_str(), " '");
                r.append(name.as_str());
                r.append("' already exists in ");
                r.append(context.as_str());
                r
            },
            ScenarioError::Io(m) => concat2("IO error: ", m.as_str()),
            ScenarioError::Xml(m) => concat2("XML error: ", m.as_str()),
            ScenarioError::Parse(m) => concat2("Parse error: ", m.as_str()),
        }
    }
}

} // verus!

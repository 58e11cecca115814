//! Checking OpenSCENARIO documents against the ASAM XSD schemas, with uppsala.
//!
//! The schema files are read by the caller; a [`SchemaRegistry`] compiles the
//! ones that exist, once, and an [`XsdValidator`] checks a document against the
//! schema of its version.
use vstd::prelude::*;
use crate::text::{concat3, first_index, lemma_first_index, owned, str_eq, views};
use uppsala::XsdValidator as CompiledSchema;

verus! {

#[verifier::external_type_specification]
#[verifier::external_body]
pub struct ExDocument<'a>(uppsala::Document<'a>);

#[verifier::external_type_specification]
#[verifier::external_body]
pub struct ExCompiledSchema(CompiledSchema);

/// A document uppsala parsed, with the text it was parsed from.
pub struct ParsedXml<'a> {
    text: &'a str,
    doc: uppsala::Document<'a>,
}

impl<'a> ParsedXml<'a> {
    /// The text the document was parsed from.
    pub closed spec fn text(&self) -> Seq<char> {
        self.text@
    }
}

/// A schema uppsala compiled.
pub struct CompiledXsd {
    schema: CompiledSchema,
}

/// The text of the error that `uppsala::parse` reports for `xml`, or none when
/// `xml` is well-formed.
pub uninterp spec fn xml_parse_error(xml: Seq<char>) -> Option<Seq<char>>;

/// Whether `uppsala::XsdValidator::from_schema` accepts the schema document
/// whose text is `schema`.
pub uninterp spec fn schema_compiles(schema: Seq<char>) -> bool;

/// Calls `uppsala::parse`. It fails exactly when the text is not well-formed
/// XML, and then with the text of uppsala's error; the document keeps its text.
#[verifier::external_body]
fn parse_document<'a>(xml: &'a str) -> (r: Result<ParsedXml<'a>, String>)
    ensures
        match r {
            Ok(p) => xml_parse_error(xml@) is None && p.text() == xml@,
            Err(m) => xml_parse_error(xml@) == Some(m@),
        },
{
    match uppsala::parse(xml) {
        Ok(doc) => Ok(ParsedXml { text: xml, doc }),
        Err(e) => Err(e.to_string()),
    }
}

/// Calls `uppsala::XsdValidator::from_schema` on a parsed schema document;
/// `None` when uppsala refuses the schema.
#[verifier::external_body]
fn compile_schema(doc: &ParsedXml) -> (r: Option<CompiledXsd>)
    ensures
        r is Some == schema_compiles(doc.text()),
{
    match CompiledSchema::from_schema(&doc.doc) {
        Ok(v) => Some(CompiledXsd { schema: v }),
        Err(_) => None,
    }
}

/// Calls `uppsala::XsdValidator::validate` and gives the text of each error,
/// in uppsala's order. Which errors come back is not stated: uppsala marks
/// list-derived types in a pass over a `HashMap` whose order is seeded per
/// process, so one schema text can compile to validators that judge a
/// document differently.
#[verifier::external_body]
fn schema_errors(schema: &CompiledXsd, doc: &ParsedXml) -> (r: Vec<String>)
{
    schema.schema.validate(&doc.doc).iter().map(|e| e.to_string()).collect()
}

/// The outcome of checking a document.
#[derive(Debug, Clone)]
pub struct ValidationReport {
    /// Whether the document is valid.
    pub valid: bool,
    /// What is wrong with it, in order.
    pub errors: Vec<String>,
    /// Non-fatal remarks (none are produced yet).
    pub warnings: Vec<String>,
}

/// The versions whose schemas are known, with the directory each schema is in.
pub open spec fn spec_supported_schema_dirs() -> Seq<(Seq<char>, Seq<char>)> {
    seq![("1.0"@, "v1.0"@), ("1.1"@, "v1.1.1"@), ("1.2"@, "v1.2.0"@), ("1.3"@, "v1.3.1"@)]
}

/// The versions whose schemas are known, with the directory each schema is in
/// (`v1.0` holds no schema file, so 1.0 documents cannot be checked).
pub fn supported_schema_dirs() -> (r: Vec<(String, String)>)
    ensures
        r@.len() == spec_supported_schema_dirs().len(),
        forall|i: int| 0 <= i < r@.len() ==> (#[trigger] r@[i]).0@ == spec_supported_schema_dirs()[i].0
            && r@[i].1@ == spec_supported_schema_dirs()[i].1,
{
    let mut r: Vec<(String, String)> = Vec::new();
    r.push((owned("1.0"), owned("v1.0")));
    r.push((owned("1.1"), owned("v1.1.1")));
    r.push((owned("1.2"), owned("v1.2.0")));
    r.push((owned("1.3"), owned("v1.3.1")));
    r
}

/// Where the schema of a version lies, below the directory `base`.
pub fn schema_path_for_version(base: &str, schema_dir: &str) -> (r: String)
    ensures
        r@ == base@ + "/schemas/"@ + schema_dir@ + "/OpenSCENARIO.xsd"@,
{
    let mut r = concat3(base, "/schemas/", schema_dir);
    r.append("/OpenSCENARIO.xsd");
    r
}

/// The text of a schema file, if it could be read.
pub struct SchemaSource {
    pub version: String,
    pub text: Option<String>,
}

struct SchemaSlot {
    version: String,
    validator: Option<CompiledXsd>,
}

/// The compiled schema of each known version, or none where its file was
/// missing, unreadable or refused.
pub struct SchemaRegistry {
    slots: Vec<SchemaSlot>,
}

/// The schema text was read, is well-formed XML and compiles.
pub open spec fn compilable_text(text: Option<String>) -> bool {
    match text {
        Some(t) => xml_parse_error(t@) is None && schema_compiles(t@),
        None => false,
    }
}

/// The source's schema text was read, is well-formed XML and compiles.
pub open spec fn compilable_source(s: SchemaSource) -> bool {
    compilable_text(s.text)
}

/// The versions of a list of schema sources.
pub open spec fn source_versions(s: Seq<SchemaSource>) -> Seq<Seq<char>> {
    s.map_values(|x: SchemaSource| x.version@)
}

impl SchemaRegistry {
    /// The versions it knows, in order.
    pub closed spec fn versions(&self) -> Seq<Seq<char>> {
        self.slots@.map_values(|x: SchemaSlot| x.version@)
    }

    /// For each version, whether its schema is compiled.
    pub closed spec fn compiled(&self) -> Seq<bool> {
        self.slots@.map_values(|x: SchemaSlot| x.validator is Some)
    }

    /// Compiles each schema that was read: exactly those whose text was read,
    /// is well-formed and compiles are compiled.
    pub fn load(sources: Vec<SchemaSource>) -> (r: Self)
        ensures
            r.versions() == source_versions(sources@),
            r.compiled().len() == sources@.len(),
            forall|i: int| 0 <= i < sources@.len() ==> #[trigger] r.compiled()[i] == compilable_source(sources@[i]),
    {
        let mut slots: Vec<SchemaSlot> = Vec::new();
        let mut i: usize = 0;
        while i < sources.len()
            invariant
                i <= sources@.len(),
                slots@.len() == i,
                forall|j: int| 0 <= j < i ==> (#[trigger] slots@[j]).version@ == sources@[j].version@,
                forall|j: int| 0 <= j < i ==> ((#[trigger] slots@[j]).validator is Some) == compilable_source(sources@[j]),
            decreases sources@.len() - i,
        {
            let validator = match &sources[i].text {
                Some(text) => match parse_document(text.as_str()) {
                    Ok(doc) => compile_schema(&doc),
                    Err(_) => None,
                },
                None => None,
            };
            slots.push(SchemaSlot { version: sources[i].version.clone(), validator });
            i = i + 1;
        }
        let r = SchemaRegistry { slots };
        assert(r.versions() =~= source_versions(sources@));
        assert forall|i: int| 0 <= i < sources@.len() implies #[trigger] r.compiled()[i] == compilable_source(sources@[i]) by {
            assert(r.compiled()[i] == (r.slots@[i].validator is Some));
        }
        r
    }

    /// A registry for the supported versions (1.0, 1.1, 1.2, 1.3, in that
    /// order): the version at place `i` gets the schema text `texts[i]`, if
    /// there is one, and it is compiled exactly when that text was read, is
    /// well-formed and compiles.
    pub fn supported(texts: Vec<Option<String>>) -> (r: Self)
        ensures
            r.versions() == spec_supported_schema_dirs().map_values(|p: (Seq<char>, Seq<char>)| p.0),
            r.compiled().len() == spec_supported_schema_dirs().len(),
            forall|i: int| 0 <= i < r.compiled().len() ==> #[trigger] r.compiled()[i] == (i < texts@.len()
                && compilable_text(texts@[i])),
    {
        let dirs = supported_schema_dirs();
        let mut sources: Vec<SchemaSource> = Vec::new();
        let ghost given = texts@;
        let mut i: usize = 0;
        while i < dirs.len()
            invariant
                i <= dirs@.len(),
                dirs@.len() == spec_supported_schema_dirs().len(),
                forall|k: int| 0 <= k < dirs@.len() ==> (#[trigger] dirs@[k]).0@ == spec_supported_schema_dirs()[k].0,
                sources@.len() == i,
                texts@.len() == given.len(),
                forall|k: int| i <= k < given.len() ==> texts@[k] == given[k],
                forall|j: int| 0 <= j < i ==> (#[trigger] sources@[j]).version@ == spec_supported_schema_dirs()[j].0
                    && (compilable_source(sources@[j]) == (j < given.len() && compilable_text(given[j]))),
            decreases dirs@.len() - i,
        {
            let text = if i < texts.len() {
                let t = texts[i].clone();
                t
            } else {
                None
            };
            sources.push(SchemaSource { version: dirs[i].0.clone(), text });
            i = i + 1;
        }
        SchemaRegistry::load(sources)
    }

    /// A registry that knows every supported version and holds no schema.
    pub fn without_schemas() -> (r: Self)
        ensures
            r.versions() == spec_supported_schema_dirs().map_values(|p: (Seq<char>, Seq<char>)| p.0),
            forall|i: int| 0 <= i < r.compiled().len() ==> !#[trigger] r.compiled()[i],
    {
        let dirs = supported_schema_dirs();
        let mut slots: Vec<SchemaSlot> = Vec::new();
        let mut i: usize = 0;
        while i < dirs.len()
            invariant
                i <= dirs@.len(),
                dirs@.len() == spec_supported_schema_dirs().len(),
                forall|k: int| 0 <= k < dirs@.len() ==> (#[trigger] dirs@[k]).0@ == spec_supported_schema_dirs()[k].0,
                slots@.len() == i,
                forall|j: int| 0 <= j < i ==> (#[trigger] slots@[j]).version@ == spec_supported_schema_dirs()[j].0
                    && slots@[j].validator is None,
            decreases dirs@.len() - i,
        {
            slots.push(SchemaSlot { version: dirs[i].0.clone(), validator: None });
            i = i + 1;
        }
        let r = SchemaRegistry { slots };
        assert(r.versions() =~= spec_supported_schema_dirs().map_values(|p: (Seq<char>, Seq<char>)| p.0));
        r
    }

    fn find(&self, version: &str) -> (r: Option<usize>)
        ensures
            match r {
                Some(i) => first_index(self.versions(), version@) == i && i < self.compiled().len(),
                None => first_index(self.versions(), version@) == -1,
            },
    {
        let ghost names = self.versions();
        let mut i: usize = 0;
        while i < self.slots.len()
            invariant
                i <= self.slots@.len(),
                names == self.versions(),
                forall|j: int| 0 <= j < i ==> names[j] != version@,
            decreases self.slots@.len() - i,
        {
            if str_eq(self.slots[i].version.as_str(), version) {
                proof { lemma_first_index(names, version@, i as int); }
                return Some(i);
            }
            i = i + 1;
        }
        proof { lemma_first_index(names, version@, i as int); }
        None
    }
}

/// The report for a schema's list of errors: valid exactly when there are none.
pub fn report_from_errors(errors: Vec<String>) -> (r: ValidationReport)
    ensures
        r.valid == (errors@.len() == 0),
        r.errors == errors,
        r.warnings@.len() == 0,
{
    let valid = errors.len() == 0;
    ValidationReport { valid, errors, warnings: Vec::new() }
}

/// A report that fails with one message.
fn failure(message: String) -> (r: ValidationReport)
    ensures
        !r.valid,
        views(r.errors@) == seq![message@],
        r.warnings@.len() == 0,
{
    let mut errors: Vec<String> = Vec::new();
    errors.push(message);
    proof { assert(views(errors@) =~= seq![message@]); }
    ValidationReport { valid: false, errors, warnings: Vec::new() }
}

/// Checks documents of one OpenSCENARIO version ("1.0", "1.1", ...).
#[derive(Debug, Clone)]
pub struct XsdValidator {
    version: String,
}

/// What a report is for a document of `version` that uppsala parses, when
/// the registry has no compiled schema for the version.
pub open spec fn missing_schema_message(version: Seq<char>) -> Seq<char> {
    "XSD schema not available for OpenSCENARIO v"@ + version
        + ". Full validation requires official ASAM XSD files. Run ./check-schemas.sh to set up XSD files."@
}

/// The message for a version the registry does not know.
pub open spec fn unsupported_version_message(version: Seq<char>) -> Seq<char> {
    "Unsupported OpenSCENARIO version: "@ + version + ". Supported versions: 1.0, 1.1, 1.2, 1.3"@
}

impl XsdValidator {
    /// The version it checks.
    pub closed spec fn spec_version(&self) -> Seq<char> {
        self.version@
    }

    /// A validator for documents of `version`.
    pub fn new(version: &str) -> (r: Self)
        ensures
            r.spec_version() == version@,
    {
        XsdValidator { version: owned(version) }
    }

    /// The version it checks.
    pub fn version(&self) -> (r: &str)
        ensures
            r@ == self.spec_version(),
    {
        self.version.as_str()
    }

    /// Checks `xml`: first that it is well-formed, then against the schema of
    /// the validator's version, if the registry has it compiled.
    pub fn validate(&self, registry: &SchemaRegistry, xml: &str) -> (r: ValidationReport)
        ensures
            r.warnings@.len() == 0,
            match xml_parse_error(xml@) {
                Some(m) => !r.valid && views(r.errors@) == seq!["XML parsing error: "@ + m],
                None => {
                    let k = first_index(registry.versions(), self.spec_version());
                    if k < 0 {
                        !r.valid && views(r.errors@) == seq![unsupported_version_message(self.spec_version())]
                    } else if !registry.compiled()[k] {
                        !r.valid && views(r.errors@) == seq![missing_schema_message(self.spec_version())]
                    } else {
                        r.valid == (r.errors@.len() == 0)
                    }
                },
            },
    {
        let doc = match parse_document(xml) {
            Ok(doc) => doc,
            Err(m) => {
                let mut message = owned("XML parsing error: ");
                message.append(m.as_str());
                return failure(message);
            },
        };
        match registry.find(self.version.as_str()) {
            None => {
                let message = concat3(
                    "Unsupported OpenSCENARIO version: ",
                    self.version.as_str(),
                    ". Supported versions: 1.0, 1.1, 1.2, 1.3",
                );
                failure(message)
            },
            Some(k) => {
                assert(registry.compiled()[k as int] == (registry.slots@[k as int].validator is Some));
                match &registry.slots[k].validator {
                    Some(v) => report_from_errors(schema_errors(v, &doc)),
                    None => {
                        let message = concat3(
                            "XSD schema not available for OpenSCENARIO v",
                            self.version.as_str(),
                            ". Full validation requires official ASAM XSD files. Run ./check-schemas.sh to set up XSD files.",
                        );
                        failure(message)
                    },
                }
            },
        }
    }
}

} // verus!

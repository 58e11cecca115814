//! Catalogs of reusable entities (vehicles, pedestrians, miscellaneous
//! objects), read from OpenSCENARIO catalog documents.
//!
//! quick_xml splits the document into events; the catalog is built from the
//! event sequence by a small state machine, [`scan_catalog`].
use vstd::prelude::*;
use crate::entities::{
    Entity, MiscObject, MiscObjectParams, Pedestrian, PedestrianParams, Vehicle, VehicleCategory, VehicleParams,
};
use crate::error::{ScenarioError, ScenarioErrorView};
use crate::quantity::Real;
use crate::text::{owned, str_eq};
use quick_xml::events::Event as XmlTag;
use quick_xml::Error::InvalidAttr as AttributeFault;

verus! {

#[verifier::external_type_specification]
#[verifier::external_body]
#[verifier::reject_recursive_types(R)]
pub struct ExXmlReader<R>(quick_xml::Reader<R>);

/// An attribute of a tag, as text.
#[derive(Clone, Debug)]
pub struct XmlAttribute {
    pub key: String,
    pub value: String,
}

/// What the reader meets next in a document.
#[derive(Debug)]
pub enum XmlEvent {
    /// A start tag or an empty-element tag, with its attributes, or the text of
    /// the error met while reading them.
    Open { name: String, attributes: Result<Vec<XmlAttribute>, String> },
    /// An end tag.
    Close { name: String },
    /// The end of the document.
    End,
    /// Text, comments, declarations and the like.
    Other,
    /// The document is malformed here (the reader's message).
    Failed(String),
}

/// The content of an [`XmlEvent`] as text.
pub enum XmlEventView {
    Open { name: Seq<char>, attributes: Result<Seq<(Seq<char>, Seq<char>)>, Seq<char>> },
    Close { name: Seq<char> },
    End,
    Other,
    Failed(Seq<char>),
}

/// The key and value of each attribute.
pub open spec fn attr_views(attrs: Seq<XmlAttribute>) -> Seq<(Seq<char>, Seq<char>)> {
    attrs.map_values(|a: XmlAttribute| (a.key@, a.value@))
}

impl View for XmlEvent {
    type V = XmlEventView;

    open spec fn view(&self) -> XmlEventView {
        match self {
            XmlEvent::Open { name, attributes } => XmlEventView::Open {
                name: name@,
                attributes: match attributes {
                    Ok(a) => Ok(attr_views(a@)),
                    Err(m) => Err(m@),
                },
            },
            XmlEvent::Close { name } => XmlEventView::Close { name: name@ },
            XmlEvent::End => XmlEventView::End,
            XmlEvent::Other => XmlEventView::Other,
            XmlEvent::Failed(m) => XmlEventView::Failed(m@),
        }
    }
}

/// The content of each event.
pub open spec fn event_views(ev: Seq<XmlEvent>) -> Seq<XmlEventView> {
    ev.map_values(|e: XmlEvent| e@)
}

/// The event that a quick_xml reader over `xml`, trimming white space around
/// text, gives on its read number `k` (counting from 0).
pub uninterp spec fn xml_event(xml: Seq<char>, k: nat) -> XmlEventView;

/// A quick_xml reader over a text, with the text and the number of events
/// read so far.
pub struct XmlReader<'a> {
    reader: quick_xml::Reader<&'a [u8]>,
    text: Ghost<Seq<char>>,
    read: Ghost<nat>,
}

impl<'a> XmlReader<'a> {
    /// The text being read.
    pub closed spec fn text(&self) -> Seq<char> {
        self.text@
    }

    /// How many events were read.
    pub closed spec fn read(&self) -> nat {
        self.read@
    }
}

/// Calls `quick_xml::Reader::from_str` and sets `trim_text(true)`: a reader
/// over `xml` that has read nothing yet.
#[verifier::external_body]
fn xml_reader(xml: &str) -> (r: XmlReader<'_>)
    ensures
        r.text() == xml@,
        r.read() == 0,
{
    let mut reader = quick_xml::Reader::from_str(xml);
    reader.config_mut().trim_text(true);
    XmlReader { reader, text: Ghost(xml@), read: Ghost(0) }
}

/// Calls `quick_xml::Reader::read_event` and gives the event as text: the
/// event of the reader's next read number.
#[verifier::external_body]
fn next_event(r: &mut XmlReader) -> (e: XmlEvent)
    ensures
        e@ == xml_event(old(r).text(), old(r).read()),
        final(r).text() == old(r).text(),
        final(r).read() == old(r).read() + 1,
{
    match r.reader.read_event() {
        Ok(XmlTag::Start(e)) | Ok(XmlTag::Empty(e)) => XmlEvent::Open {
            name: e.name().0.into(),
            attributes: e.attributes().map(|a| a.map(|a| XmlAttribute { key: a.key.0.into(), value: a.value.into() })
                .map_err(|x| AttributeFault(x).to_string())).collect(),
        },
        Ok(XmlTag::End(e)) => XmlEvent::Close { name: e.name().0.into() },
        Ok(XmlTag::Eof) => XmlEvent::End,
        Ok(_) => XmlEvent::Other,
        Err(e) => XmlEvent::Failed(e.to_string()),
    }
}

/// The first `n` events of `xml`.
pub open spec fn first_events(xml: Seq<char>, n: nat) -> Seq<XmlEventView> {
    Seq::new(n, |k: int| xml_event(xml, k as nat))
}

/// The event ends the reading: the end of the document or an error.
pub open spec fn is_last(e: XmlEventView) -> bool {
    e is End || e is Failed
}

/// How many events are read from read number `k` on: up to and including
/// the first end or error, and no more than `limit + 1` in all.
pub open spec fn events_read(xml: Seq<char>, k: nat, limit: nat) -> nat
    decreases limit - k,
{
    if k >= limit || is_last(xml_event(xml, k)) {
        k + 1
    } else {
        events_read(xml, k + 1, limit)
    }
}

/// The events a catalog is read from: those of the text, up to the end or
/// the first error, and at most one more than the text has characters.
pub open spec fn catalog_events(xml: Seq<char>) -> Seq<XmlEventView> {
    first_events(xml, events_read(xml, 0, xml.len()))
}

/// The kind of entities a catalog holds.
#[derive(Clone, Copy, Debug, PartialEq, Eq, Structural)]
pub enum CatalogType {
    Vehicle,
    Pedestrian,
    MiscObject,
}

/// A named entity of a catalog.
#[derive(Clone, Debug)]
pub struct CatalogEntry {
    name: String,
    entity: Entity,
}

/// A catalog: its kind and its entries, in document order.
#[derive(Clone, Debug)]
pub struct Catalog {
    catalog_type: CatalogType,
    entries: Vec<CatalogEntry>,
}

/// Where the reader is: between entries, inside an entry of a kind (with the
/// name found so far), or inside the properties of such an entry (with the
/// name its properties give so far).
pub enum ScanMode {
    Top,
    Entry { kind: CatalogType, name: Option<Seq<char>> },
    Properties { kind: CatalogType, name: Option<Seq<char>>, found: Option<Seq<char>> },
}

/// What has been read: the catalog's kind, the entries (name and kind), and the mode.
pub struct ScanState {
    pub catalog_type: Option<CatalogType>,
    pub entries: Seq<(Seq<char>, CatalogType)>,
    pub mode: ScanMode,
}

/// The kind of catalog a tag opens.
pub open spec fn catalog_tag(name: Seq<char>) -> Option<CatalogType> {
    if name == "VehicleCatalog"@ {
        Some(CatalogType::Vehicle)
    } else if name == "PedestrianCatalog"@ {
        Some(CatalogType::Pedestrian)
    } else if name == "MiscObjectCatalog"@ {
        Some(CatalogType::MiscObject)
    } else {
        None
    }
}

/// The kind of entry a tag opens.
pub open spec fn entry_tag(name: Seq<char>) -> Option<CatalogType> {
    if name == "Vehicle"@ {
        Some(CatalogType::Vehicle)
    } else if name == "Pedestrian"@ {
        Some(CatalogType::Pedestrian)
    } else if name == "MiscObject"@ {
        Some(CatalogType::MiscObject)
    } else {
        None
    }
}

/// The tag name of an entry kind.
pub open spec fn kind_tag(kind: CatalogType) -> Seq<char> {
    match kind {
        CatalogType::Vehicle => "Vehicle"@,
        CatalogType::Pedestrian => "Pedestrian"@,
        CatalogType::MiscObject => "MiscObject"@,
    }
}

/// The value of the last attribute with this key.
pub open spec fn last_attribute(attrs: Seq<(Seq<char>, Seq<char>)>, key: Seq<char>) -> Option<Seq<char>>
    decreases attrs.len(),
{
    if attrs.len() == 0 {
        None
    } else if attrs.last().0 == key {
        Some(attrs.last().1)
    } else {
        last_attribute(attrs.drop_last(), key)
    }
}

/// The name a `Property` tag gives: its value when the property is called
/// "name"; otherwise the name found before.
pub open spec fn property_update(attrs: Seq<(Seq<char>, Seq<char>)>, found: Option<Seq<char>>) -> Option<Seq<char>> {
    if last_attribute(attrs, "name"@) == Some("name"@) {
        last_attribute(attrs, "value"@)
    } else {
        found
    }
}

/// The entries after finishing an entry: it counts only if it has a name.
pub open spec fn close_entry(entries: Seq<(Seq<char>, CatalogType)>, kind: CatalogType, name: Option<Seq<char>>) -> Seq<(Seq<char>, CatalogType)> {
    match name {
        Some(n) => entries.push((n, kind)),
        None => entries,
    }
}

/// The state at the end of the document.
pub open spec fn finish(s: ScanState) -> ScanState {
    match s.mode {
        ScanMode::Top => s,
        ScanMode::Entry { kind, name } => ScanState {
            catalog_type: s.catalog_type,
            entries: close_entry(s.entries, kind, name),
            mode: ScanMode::Top,
        },
        ScanMode::Properties { kind, name, found } => ScanState {
            catalog_type: s.catalog_type,
            entries: close_entry(s.entries, kind, if found is Some { found } else { name }),
            mode: ScanMode::Top,
        },
    }
}

/// One step of the reader on an event that is neither the end nor an error.
pub open spec fn step(s: ScanState, e: XmlEventView) -> Result<ScanState, Seq<char>> {
    match s.mode {
        ScanMode::Top => match e {
            XmlEventView::Open { name, .. } => if catalog_tag(name) is Some {
                Ok(ScanState { catalog_type: catalog_tag(name), ..s })
            } else if entry_tag(name) is Some {
                Ok(ScanState { mode: ScanMode::Entry { kind: entry_tag(name)->0, name: None }, ..s })
            } else {
                Ok(s)
            },
            _ => Ok(s),
        },
        ScanMode::Entry { kind, name } => match e {
            XmlEventView::Open { name: tag, attributes } => if tag == "Properties"@ {
                Ok(ScanState { mode: ScanMode::Properties { kind, name, found: None }, ..s })
            } else if tag == "Dimensions"@ {
                match attributes {
                    Err(m) => Err(m),
                    Ok(_) => Ok(s),
                }
            } else {
                Ok(s)
            },
            XmlEventView::Close { name: tag } => if tag == kind_tag(kind) {
                Ok(ScanState { catalog_type: s.catalog_type, entries: close_entry(s.entries, kind, name), mode: ScanMode::Top })
            } else {
                Ok(s)
            },
            _ => Ok(s),
        },
        ScanMode::Properties { kind, name, found } => match e {
            XmlEventView::Open { name: tag, attributes } => if tag == "Property"@ {
                match attributes {
                    Err(m) => Err(m),
                    Ok(attrs) => Ok(ScanState {
                        mode: ScanMode::Properties { kind, name, found: property_update(attrs, found) },
                        ..s
                    }),
                }
            } else {
                Ok(s)
            },
            XmlEventView::Close { name: tag } => if tag == "Properties"@ {
                Ok(ScanState { mode: ScanMode::Entry { kind, name: if found is Some { found } else { name } }, ..s })
            } else {
                Ok(s)
            },
            _ => Ok(s),
        },
    }
}

/// Reads the events from position `i` on in state `s`: the final state, or
/// the message of the first error. Running out of events ends the document.
pub open spec fn scan_catalog(ev: Seq<XmlEventView>, i: int, s: ScanState) -> Result<ScanState, Seq<char>>
    decreases ev.len() - i,
{
    if i < 0 || i >= ev.len() {
        Ok(finish(s))
    } else {
        match ev[i] {
            XmlEventView::End => Ok(finish(s)),
            XmlEventView::Failed(m) => Err(m),
            _ => match step(s, ev[i]) {
                Err(m) => Err(m),
                Ok(t) => scan_catalog(ev, i + 1, t),
            },
        }
    }
}

/// The state before the first event.
pub open spec fn start_state() -> ScanState {
    ScanState { catalog_type: None, entries: Seq::empty(), mode: ScanMode::Top }
}

/// The catalog a sequence of events gives: its kind and its entries, or the error.
pub open spec fn catalog_outcome(ev: Seq<XmlEventView>) -> Result<(CatalogType, Seq<(Seq<char>, CatalogType)>), ScenarioErrorView> {
    match scan_catalog(ev, 0, start_state()) {
        Err(m) => Err(ScenarioErrorView::Xml(m)),
        Ok(s) => match s.catalog_type {
            None => Err(ScenarioErrorView::InvalidCatalog("No catalog type found"@)),
            Some(t) => Ok((t, s.entries)),
        },
    }
}

/// The entity an entry of a kind stands for: a car; a pedestrian of 80 kg;
/// an object of 100 kg.
pub open spec fn catalog_entity(e: Entity, name: Seq<char>, kind: CatalogType) -> bool {
    &&& e.spec_name() == name
    &&& match kind {
        CatalogType::Vehicle => e matches Entity::Vehicle(v) && v.params.catalog is None
            && v.params.vehicle_category == VehicleCategory::Car && v.params.properties is None,
        CatalogType::Pedestrian => e matches Entity::Pedestrian(p) && p.params.catalog is None
            && p.params.model is None && p.params.mass == Some(Real { bits: 0x4054_0000_0000_0000 }),
        CatalogType::MiscObject => e matches Entity::MiscObject(m) && m.params.catalog is None
            && m.params.category is None && m.params.mass == Some(Real { bits: 0x4059_0000_0000_0000 }),
    }
}

impl CatalogEntry {
    /// The entry is the entity `(name, kind)` stands for.
    pub open spec fn stands_for(&self, p: (Seq<char>, CatalogType)) -> bool {
        self.spec_name() == p.0 && catalog_entity(self.spec_entity(), p.0, p.1)
    }

    pub closed spec fn spec_name(&self) -> Seq<char> {
        self.name@
    }

    pub closed spec fn spec_entity(&self) -> Entity {
        self.entity
    }

    /// The entry's name.
    pub fn name(&self) -> (r: &str)
        ensures
            r@ == self.spec_name(),
    {
        self.name.as_str()
    }

    /// The entry's entity.
    pub fn entity(&self) -> (r: &Entity)
        ensures
            *r == self.spec_entity(),
    {
        &self.entity
    }

    /// A copy of the entry's entity.
    pub fn clone_entity(&self) -> (r: Entity)
        ensures
            r == self.spec_entity(),
    {
        self.entity.duplicate()
    }
}

/// The entry that `(name, kind)` stands for.
fn make_entry(name: String, kind: CatalogType) -> (r: CatalogEntry)
    ensures
        r.stands_for((name@, kind)),
{
    let entity = match kind {
        CatalogType::Vehicle => Entity::Vehicle(Vehicle {
            name: name.clone(),
            params: VehicleParams { catalog: None, vehicle_category: VehicleCategory::Car, properties: None },
        }),
        CatalogType::Pedestrian => Entity::Pedestrian(Pedestrian {
            name: name.clone(),
            params: PedestrianParams { catalog: None, model: None, mass: Some(Real::from_bits(0x4054_0000_0000_0000)) },
        }),
        CatalogType::MiscObject => Entity::MiscObject(MiscObject {
            name: name.clone(),
            params: MiscObjectParams { catalog: None, category: None, mass: Some(Real::from_bits(0x4059_0000_0000_0000)) },
        }),
    };
    CatalogEntry { name, entity }
}

/// The reader's mode, with its texts.
enum Mode {
    Top,
    Entry { kind: CatalogType, name: Option<String> },
    Properties { kind: CatalogType, name: Option<String>, found: Option<String> },
}

spec fn text_view(t: Option<String>) -> Option<Seq<char>> {
    match t {
        Some(s) => Some(s@),
        None => None,
    }
}

spec fn mode_view(m: Mode) -> ScanMode {
    match m {
        Mode::Top => ScanMode::Top,
        Mode::Entry { kind, name } => ScanMode::Entry { kind, name: text_view(name) },
        Mode::Properties { kind, name, found } => ScanMode::Properties {
            kind,
            name: text_view(name),
            found: text_view(found),
        },
    }
}

/// The entries stand for the pairs, in order.
pub open spec fn entries_stand_for(entries: Seq<CatalogEntry>, pairs: Seq<(Seq<char>, CatalogType)>) -> bool {
    entries.len() == pairs.len() && forall|i: int| 0 <= i < entries.len() ==> (#[trigger] entries[i]).stands_for(pairs[i])
}

fn attribute_value(attrs: &Vec<XmlAttribute>, key: &str) -> (r: Option<String>)
    ensures
        text_view(r) == last_attribute(attr_views(attrs@), key@),
{
    let mut r: Option<String> = None;
    let mut i: usize = 0;
    while i < attrs.len()
        invariant
            i <= attrs@.len(),
            text_view(r) == last_attribute(attr_views(attrs@).subrange(0, i as int), key@),
        decreases attrs@.len() - i,
    {
        assert(attr_views(attrs@).subrange(0, i + 1).drop_last() =~= attr_views(attrs@).subrange(0, i as int));
        if str_eq(attrs[i].key.as_str(), key) {
            r = Some(attrs[i].value.clone());
        }
        i = i + 1;
    }
    assert(attr_views(attrs@).subrange(0, attrs@.len() as int) =~= attr_views(attrs@));
    r
}

impl Catalog {
    pub closed spec fn spec_type(&self) -> CatalogType {
        self.catalog_type
    }

    pub closed spec fn spec_entries(&self) -> Seq<CatalogEntry> {
        self.entries@
    }

    /// The kind of the catalog.
    pub fn catalog_type(&self) -> (r: CatalogType)
        ensures
            r == self.spec_type(),
    {
        self.catalog_type
    }

    /// The entries, in document order.
    pub fn entries(&self) -> (r: &[CatalogEntry])
        ensures
            r@ == self.spec_entries(),
    {
        self.entries.as_slice()
    }

    /// The first entry of this name.
    pub fn find(&self, name: &str) -> (r: Option<&CatalogEntry>)
        ensures
            match r {
                Some(e) => e.spec_name() == name@ && exists|i: int| 0 <= i < self.spec_entries().len()
                    && self.spec_entries()[i] == *e && forall|j: int| 0 <= j < i ==> self.spec_entries()[j].spec_name() != name@,
                None => forall|j: int| 0 <= j < self.spec_entries().len() ==> self.spec_entries()[j].spec_name() != name@,
            },
    {
        let mut i: usize = 0;
        while i < self.entries.len()
            invariant
                i <= self.entries@.len(),
                forall|j: int| 0 <= j < i ==> self.entries@[j].spec_name() != name@,
            decreases self.entries@.len() - i,
        {
            if str_eq(self.entries[i].name.as_str(), name) {
                proof { assert(self.spec_entries()[i as int] == self.entries@[i as int]); }
                return Some(&self.entries[i]);
            }
            i = i + 1;
        }
        None
    }
}


fn catalog_kind(name: &str) -> (r: Option<CatalogType>)
    ensures
        r == catalog_tag(name@),
{
    if str_eq(name, "VehicleCatalog") {
        Some(CatalogType::Vehicle)
    } else if str_eq(name, "PedestrianCatalog") {
        Some(CatalogType::Pedestrian)
    } else if str_eq(name, "MiscObjectCatalog") {
        Some(CatalogType::MiscObject)
    } else {
        None
    }
}

fn entry_kind(name: &str) -> (r: Option<CatalogType>)
    ensures
        r == entry_tag(name@),
{
    if str_eq(name, "Vehicle") {
        Some(CatalogType::Vehicle)
    } else if str_eq(name, "Pedestrian") {
        Some(CatalogType::Pedestrian)
    } else if str_eq(name, "MiscObject") {
        Some(CatalogType::MiscObject)
    } else {
        None
    }
}

fn kind_text(kind: CatalogType) -> (r: &'static str)
    ensures
        r@ == kind_tag(kind),
{
    match kind {
        CatalogType::Vehicle => "Vehicle",
        CatalogType::Pedestrian => "Pedestrian",
        CatalogType::MiscObject => "MiscObject",
    }
}

fn push_named(entries: &mut Vec<CatalogEntry>, kind: CatalogType, name: Option<String>, Ghost(pairs): Ghost<Seq<(Seq<char>, CatalogType)>>)
    requires
        entries_stand_for(old(entries)@, pairs),
    ensures
        entries_stand_for(final(entries)@, close_entry(pairs, kind, text_view(name))),
{
    match name {
        Some(n) => {
            entries.push(make_entry(n, kind));
        },
        None => {},
    }
}

fn choose_name(found: Option<String>, name: Option<String>) -> (r: Option<String>)
    ensures
        text_view(r) == (if text_view(found) is Some { text_view(found) } else { text_view(name) }),
{
    if found.is_some() {
        found
    } else {
        name
    }
}

impl Catalog {
    /// Builds a catalog from the events of its document, as [`catalog_outcome`] says.
    pub fn from_events(events: &Vec<XmlEvent>) -> (r: Result<Catalog, ScenarioError>)
        ensures
            match catalog_outcome(event_views(events@)) {
                Err(e) => r matches Err(x) && x@ == e,
                Ok((t, pairs)) => r matches Ok(c) && c.spec_type() == t && entries_stand_for(c.spec_entries(), pairs),
            },
    {
        let mut catalog_type: Option<CatalogType> = None;
        let mut entries: Vec<CatalogEntry> = Vec::new();
        let mut mode = Mode::Top;
        let ghost mut pairs: Seq<(Seq<char>, CatalogType)> = Seq::empty();
        let mut i: usize = 0;
        while i < events.len()
            invariant
                i <= events@.len(),
                entries_stand_for(entries@, pairs),
                scan_catalog(event_views(events@), 0, start_state()) == scan_catalog(event_views(events@), i as int,
                    ScanState { catalog_type, entries: pairs, mode: mode_view(mode) }),
            decreases events@.len() - i,
        {
            let ev = &events[i];
            match ev {
                XmlEvent::End => {
                    i = events.len();
                    continue;
                },
                XmlEvent::Failed(m) => {
                    return Err(ScenarioError::Xml(m.clone()));
                },
                _ => {},
            }
            let next: Mode = match mode {
                Mode::Top => match ev {
                    XmlEvent::Open { name, .. } => {
                        let t = catalog_kind(name.as_str());
                        if t.is_some() {
                            catalog_type = t;
                            Mode::Top
                        } else {
                            match entry_kind(name.as_str()) {
                                Some(kind) => Mode::Entry { kind, name: None },
                                None => Mode::Top,
                            }
                        }
                    },
                    _ => Mode::Top,
                },
                Mode::Entry { kind, name } => match ev {
                    XmlEvent::Open { name: tag, attributes } => {
                        if str_eq(tag.as_str(), "Properties") {
                            Mode::Properties { kind, name, found: None }
                        } else if str_eq(tag.as_str(), "Dimensions") {
                            match attributes {
                                Err(m) => {
                                    return Err(ScenarioError::Xml(m.clone()));
                                },
                                Ok(_) => Mode::Entry { kind, name },
                            }
                        } else {
                            Mode::Entry { kind, name }
                        }
                    },
                    XmlEvent::Close { name: tag } => {
                        if str_eq(tag.as_str(), kind_text(kind)) {
                            let ghost before = pairs;
                            proof { pairs = close_entry(pairs, kind, text_view(name)); }
                            push_named(&mut entries, kind, name, Ghost(before));
                            Mode::Top
                        } else {
                            Mode::Entry { kind, name }
                        }
                    },
                    _ => Mode::Entry { kind, name },
                },
                Mode::Properties { kind, name, found } => match ev {
                    XmlEvent::Open { name: tag, attributes } => {
                        if str_eq(tag.as_str(), "Property") {
                            match attributes {
                                Err(m) => {
                                    return Err(ScenarioError::Xml(m.clone()));
                                },
                                Ok(attrs) => {
                                    let key = attribute_value(attrs, "name");
                                    let is_name = match &key {
                                        Some(k) => str_eq(k.as_str(), "name"),
                                        None => false,
                                    };
                                    proof { reveal_strlit("name"); }
                                    let found2 = if is_name {
                                        attribute_value(attrs, "value")
                                    } else {
                                        found
                                    };
                                    Mode::Properties { kind, name, found: found2 }
                                },
                            }
                        } else {
                            Mode::Properties { kind, name, found }
                        }
                    },
                    XmlEvent::Close { name: tag } => {
                        if str_eq(tag.as_str(), "Properties") {
                            Mode::Entry { kind, name: choose_name(found, name) }
                        } else {
                            Mode::Properties { kind, name, found }
                        }
                    },
                    _ => Mode::Properties { kind, name, found },
                },
            };
            mode = next;
            i = i + 1;
        }
        let ghost before = pairs;
        match mode {
            Mode::Top => {},
            Mode::Entry { kind, name } => {
                proof { pairs = close_entry(pairs, kind, text_view(name)); }
                push_named(&mut entries, kind, name, Ghost(before));
            },
            Mode::Properties { kind, name, found } => {
                let chosen = choose_name(found, name);
                proof { pairs = close_entry(pairs, kind, text_view(chosen)); }
                push_named(&mut entries, kind, chosen, Ghost(before));
            },
        }
        match catalog_type {
            None => Err(ScenarioError::InvalidCatalog(owned("No catalog type found"))),
            Some(t) => Ok(Catalog { catalog_type: t, entries }),
        }
    }

    /// Reads a catalog document: quick_xml gives its events (see
    /// [`catalog_events`]), and [`Catalog::from_events`] builds the catalog from them.
    pub fn from_xml(xml: &str) -> (r: Result<Catalog, ScenarioError>)
        ensures
            match catalog_outcome(catalog_events(xml@)) {
                Err(e) => r matches Err(x) && x@ == e,
                Ok((t, pairs)) => r matches Ok(c) && c.spec_type() == t && entries_stand_for(c.spec_entries(), pairs),
            },
    {
        let mut reader = xml_reader(xml);
        let mut events: Vec<XmlEvent> = Vec::new();
        // Every event but the last takes up at least one character of the
        // text, so there are at most one more events than characters.
        let limit = xml.unicode_len();
        let mut n: usize = 0;
        loop
            invariant_except_break
                n <= limit,
                limit == xml@.len(),
                reader.text() == xml@,
                reader.read() == n,
                event_views(events@) == first_events(xml@, n as nat),
                events_read(xml@, 0, limit as nat) == events_read(xml@, n as nat, limit as nat),
            ensures
                event_views(events@) == catalog_events(xml@),
            decreases limit - n,
        {
            let ev = next_event(&mut reader);
            let last = match &ev {
                XmlEvent::End => true,
                XmlEvent::Failed(_) => true,
                _ => false,
            };
            let ghost before = events@;
            events.push(ev);
            proof {
                let nv = event_views(events@);
                let want = first_events(xml@, (n + 1) as nat);
                assert(event_views(before).len() == before.len());
                assert(first_events(xml@, n as nat).len() == n);
                assert(nv.len() == events@.len());
                assert(nv.len() == want.len());
                assert forall|k: int| 0 <= k < n + 1 implies nv[k] == want[k] by {
                    if k < n {
                        assert(events@[k] == before[k]);
                        assert(event_views(before)[k] == first_events(xml@, n as nat)[k]);
                    } else {
                        assert(events@[k] == ev);
                    }
                }
                assert(nv =~= want);
                assert(last == is_last(xml_event(xml@, n as nat)));
            }
            if last || n == limit {
                break;
            }
            n = n + 1;
        }
        Catalog::from_events(&events)
    }
}

} // verus!

//! Reading OpenSCENARIO documents into scenarios.
//!
//! quick_xml splits the document into events (start tags, empty-element tags,
//! end tags, the end of the text, errors); the scenario is read from that
//! sequence by descending through the elements it knows and skipping the
//! others. Numbers are read from attribute texts through a table of the
//! texts that denote numbers, which the caller supplies.
use vstd::prelude::*;
use vstd::string::StringSliceAdditionalSpecFns;
use crate::decoding::{
    header_version, pair_views, parse_condition_edge, parse_dynamics_dimension, parse_dynamics_shape, parse_i32,
    parse_parameter_type, parse_rule, parse_transition_shape, spec_header_version, spec_parse_condition_edge,
    spec_parse_dynamics_dimension, spec_parse_dynamics_shape, spec_parse_i32, spec_parse_parameter_type, spec_parse_rule,
    spec_parse_transition_shape,
};
use crate::entities::{
    CatalogReference, Entity, MiscObject, MiscObjectParams, Pedestrian, PedestrianParams, Vehicle, VehicleCategory,
    VehicleParams, category_of_label, entity_names, lowercase, to_lowercase,
};
use crate::editing::{storyboard_wf, story_wf};
use crate::error::{ScenarioError, ScenarioErrorView};
use crate::position::Position;
use crate::quantity::Real;
use crate::scenario::{
    InitialPosition, InitialSpeed, ParameterDeclaration, ParameterType, Scenario, position_keys, speed_keys,
};
use crate::storyboard::{
    Act, Action, ByValueCondition, Condition, ConditionEdge, ConditionGroup, ConditionKind, DynamicsDimension, DynamicsShape,
    Event, LaneChangeAction, Maneuver, ManeuverGroup, ParameterCondition, Rule, SpeedAction, Story, Storyboard,
    TransitionDynamics, TransitionShape, Trigger, act_names, group_names, story_names,
};
use crate::text::{
    blank, concat2, concat3, decimal_string, distinct, first_index, is_blank, lemma_first_index, lemma_first_index_bounds,
    owned, str_eq, views,
};
use crate::version::OpenScenarioVersion;
use quick_xml::events::Event as XmlTag;
use quick_xml::events::BytesStart;
use quick_xml::name::QName;
use std::borrow::Cow;

verus! {

/// What the reader meets next in a scenario document.
#[derive(Debug)]
pub enum DocEvent {
    /// A start tag: its name, and its attributes (key and value) or the
    /// message of a malformed one.
    Start((String, Result<Vec<(String, String)>, String>)),
    /// An empty-element tag, as a start tag.
    Empty((String, Result<Vec<(String, String)>, String>)),
    /// An end tag, with its name.
    Close(String),
    /// The end of the document.
    End,
    /// Text, comments, declarations and the like.
    Other,
    /// The document is malformed here (the reader's message).
    Failed(String),
}

/// The content of a [`DocEvent`].
pub enum DocEventView {
    Start { name: Seq<char>, attributes: Result<Seq<(Seq<char>, Seq<char>)>, Seq<char>> },
    Empty { name: Seq<char>, attributes: Result<Seq<(Seq<char>, Seq<char>)>, Seq<char>> },
    Close { name: Seq<char> },
    End,
    Other,
    Failed(Seq<char>),
}

/// The key and value of each attribute, or the message of a malformed one.
pub open spec fn attrs_view(a: Result<Vec<(String, String)>, String>) -> Result<Seq<(Seq<char>, Seq<char>)>, Seq<char>> {
    match a {
        Ok(v) => Ok(pair_views(v@)),
        Err(m) => Err(m@),
    }
}

impl View for DocEvent {
    type V = DocEventView;

    open spec fn view(&self) -> DocEventView {
        match self {
            DocEvent::Start((name, attributes)) => DocEventView::Start { name: name@, attributes: attrs_view(*attributes) },
            DocEvent::Empty((name, attributes)) => DocEventView::Empty { name: name@, attributes: attrs_view(*attributes) },
            DocEvent::Close(name) => DocEventView::Close { name: name@ },
            DocEvent::End => DocEventView::End,
            DocEvent::Other => DocEventView::Other,
            DocEvent::Failed(m) => DocEventView::Failed(m@),
        }
    }
}

/// The content of each event.
pub open spec fn doc_event_views(ev: Seq<DocEvent>) -> Seq<DocEventView> {
    ev.map_values(|e: DocEvent| e@)
}

/// The event that a quick_xml reader over `xml`, trimming white space around
/// text and checking that end tags match their start tags, gives on its read
/// number `k` (counting from 0).
pub uninterp spec fn document_event(xml: Seq<char>, k: nat) -> DocEventView;

/// A quick_xml reader over a scenario document, with the text and the number
/// of events read so far.
pub struct DocumentReader<'a> {
    reader: quick_xml::Reader<&'a [u8]>,
    text: Ghost<Seq<char>>,
    read: Ghost<nat>,
}

impl<'a> DocumentReader<'a> {
    /// The text being read.
    pub closed spec fn text(&self) -> Seq<char> {
        self.text@
    }

    /// How many events were read.
    pub closed spec fn read(&self) -> nat {
        self.read@
    }
}

/// Calls `quick_xml::Reader::from_str` and sets `trim_text(true)` and
/// `check_end_names = true`: a reader over `xml` that has read nothing yet.
#[verifier::external_body]
fn document_reader(xml: &str) -> (r: DocumentReader<'_>)
    ensures
        r.text() == xml@,
        r.read() == 0,
{
    let mut reader = quick_xml::Reader::from_str(xml);
    reader.config_mut().trim_text(true);
    reader.config_mut().check_end_names = true;
    DocumentReader { reader, text: Ghost(xml@), read: Ghost(0) }
}

/// Calls `quick_xml::Reader::read_event` and gives the event as text: the
/// event of the reader's next read number.
#[verifier::external_body]
fn next_document_event(r: &mut DocumentReader) -> (e: DocEvent)
    ensures
        e@ == document_event(old(r).text(), old(r).read()),
        final(r).text() == old(r).text(),
        final(r).read() == old(r).read() + 1,
{
    let at = |e: &BytesStart| (e.name().0.into(), e.attributes().map(|a| a.map(|a| (a.key.0.into(), a.value.into()))
        .map_err(|x| x.to_string())).collect());
    match r.reader.read_event() {
        Ok(XmlTag::Start(e)) => DocEvent::Start(at(&e)),
        Ok(XmlTag::Empty(e)) => DocEvent::Empty(at(&e)),
        Ok(XmlTag::End(e)) => DocEvent::Close(e.name().0.into()),
        Ok(XmlTag::Eof) => DocEvent::End,
        Ok(_) => DocEvent::Other,
        Err(e) => DocEvent::Failed(e.to_string()),
    }
}

/// The first `n` events of `xml`.
pub open spec fn first_doc_events(xml: Seq<char>, n: nat) -> Seq<DocEventView> {
    Seq::new(n, |k: int| document_event(xml, k as nat))
}

/// The event ends the reading: the end of the document or an error.
pub open spec fn ends_reading(e: DocEventView) -> bool {
    e is End || e is Failed
}

/// How many events are read from read number `k` on: up to and including
/// the first end or error, and no more than `limit + 1` in all.
pub open spec fn doc_events_read(xml: Seq<char>, k: nat, limit: nat) -> nat
    decreases limit - k,
{
    if k >= limit || ends_reading(document_event(xml, k)) {
        k + 1
    } else {
        doc_events_read(xml, k + 1, limit)
    }
}

/// The events a scenario is read from: those of the text, up to the end or
/// the first error, and at most one more than the text has characters.
pub open spec fn document_events(xml: Seq<char>) -> Seq<DocEventView> {
    first_doc_events(xml, doc_events_read(xml, 0, xml.len()))
}

/// Reads the events of a scenario document (see [`document_events`]).
pub fn read_document_events(xml: &str) -> (r: Vec<DocEvent>)
    ensures
        doc_event_views(r@) == document_events(xml@),
{
    let mut reader = document_reader(xml);
    let mut events: Vec<DocEvent> = Vec::new();
    // Every event but the last takes up at least one character of the text.
    let limit = xml.unicode_len();
    let mut n: usize = 0;
    loop
        invariant_except_break
            n <= limit,
            limit == xml@.len(),
            reader.text() == xml@,
            reader.read() == n,
            doc_event_views(events@) == first_doc_events(xml@, n as nat),
            doc_events_read(xml@, 0, limit as nat) == doc_events_read(xml@, n as nat, limit as nat),
        ensures
            doc_event_views(events@) == document_events(xml@),
        decreases limit - n,
    {
        let ev = next_document_event(&mut reader);
        let last = match &ev {
            DocEvent::End => true,
            DocEvent::Failed(_) => true,
            _ => false,
        };
        let ghost before = events@;
        events.push(ev);
        proof {
            let nv = doc_event_views(events@);
            let want = first_doc_events(xml@, (n + 1) as nat);
            assert(doc_event_views(before).len() == before.len());
            assert(nv.len() == want.len());
            assert forall|k: int| 0 <= k < n + 1 implies nv[k] == want[k] by {
                if k < n {
                    assert(nv[k] == doc_event_views(before)[k]);
                }
            }
            assert(nv =~= want);
        }
        if last || n >= limit {
            break;
        }
        n = n + 1;
    }
    events
}

// ---------------------------------------------------------------------------
// Attributes, numbers and events.

/// The value of the first attribute named `key` from the `i`-th on.
pub open spec fn first_of(v: Seq<(Seq<char>, Seq<char>)>, key: Seq<char>, i: int) -> Option<Seq<char>>
    decreases v.len() - i,
{
    if i < 0 || i >= v.len() {
        None
    } else if v[i].0 == key {
        Some(v[i].1)
    } else {
        first_of(v, key, i + 1)
    }
}

/// The value of the last attribute named `key` from the `i`-th on.
pub open spec fn last_of(v: Seq<(Seq<char>, Seq<char>)>, key: Seq<char>, i: int) -> Option<Seq<char>>
    decreases v.len() - i,
{
    if i < 0 || i >= v.len() {
        None
    } else {
        match last_of(v, key, i + 1) {
            Some(x) => Some(x),
            None => if v[i].0 == key {
                Some(v[i].1)
            } else {
                None
            },
        }
    }
}

/// The value as written of the first attribute named `key`; none when the
/// attributes are malformed.
pub open spec fn first_value_of(a: Result<Seq<(Seq<char>, Seq<char>)>, Seq<char>>, key: Seq<char>) -> Option<Seq<char>> {
    match a {
        Ok(v) => first_of(v, key, 0),
        Err(_) => None,
    }
}

/// The value as written of the last attribute named `key`; none when the
/// attributes are malformed.
pub open spec fn last_value_of(a: Result<Seq<(Seq<char>, Seq<char>)>, Seq<char>>, key: Seq<char>) -> Option<Seq<char>> {
    match a {
        Ok(v) => last_of(v, key, 0),
        Err(_) => None,
    }
}

/// The text behind an optional string.
pub open spec fn opt_text(o: Option<&String>) -> Option<Seq<char>> {
    match o {
        Some(s) => Some(s@),
        None => None,
    }
}

/// The value as written of the first attribute named `key`.
fn first_value<'a>(attrs: &'a Result<Vec<(String, String)>, String>, key: &str) -> (r: Option<&'a String>)
    ensures
        opt_text(r) == first_value_of(attrs_view(*attrs), key@),
{
    let v = match attrs {
        Ok(v) => v,
        Err(_) => {
            return None;
        },
    };
    let ghost w = pair_views(v@);
    let mut i: usize = 0;
    while i < v.len()
        invariant
            i <= v@.len(),
            w == pair_views(v@),
            attrs_view(*attrs) == Ok::<Seq<(Seq<char>, Seq<char>)>, Seq<char>>(w),
            first_of(w, key@, 0) == first_of(w, key@, i as int),
        decreases v@.len() - i,
    {
        assert(w[i as int] == (v@[i as int].0@, v@[i as int].1@));
        if str_eq(v[i].0.as_str(), key) {
            assert(first_of(w, key@, i as int) == Some(w[i as int].1));
            return Some(&v[i].1);
        }
        i = i + 1;
    }
    None
}

/// The value as written of the last attribute named `key`.
fn last_value<'a>(attrs: &'a Result<Vec<(String, String)>, String>, key: &str) -> (r: Option<&'a String>)
    ensures
        opt_text(r) == last_value_of(attrs_view(*attrs), key@),
{
    let v = match attrs {
        Ok(v) => v,
        Err(_) => {
            return None;
        },
    };
    let ghost w = pair_views(v@);
    let mut i: usize = v.len();
    let mut found: Option<&String> = None;
    while i > 0
        invariant
            i <= v@.len(),
            w == pair_views(v@),
            attrs_view(*attrs) == Ok::<Seq<(Seq<char>, Seq<char>)>, Seq<char>>(w),
            opt_text(found) == last_of(w, key@, i as int),
        decreases i,
    {
        i = i - 1;
        assert(w[i as int] == (v@[i as int].0@, v@[i as int].1@));
        if found.is_none() && str_eq(v[i].0.as_str(), key) {
            found = Some(&v[i].1);
        }
    }
    found
}

/// The text of an attribute value as quick_xml reads it
/// (`Attribute::unescape_value`): references replaced and white space
/// normalised, or the message of a malformed reference.
pub uninterp spec fn attribute_text(raw: Seq<char>) -> Result<Seq<char>, Seq<char>>;

/// The texts a result holds.
pub open spec fn text_result(r: Result<String, String>) -> Result<Seq<char>, Seq<char>> {
    match r {
        Ok(t) => Ok(t@),
        Err(m) => Err(m@),
    }
}

/// Calls `Attribute::unescape_value` on an attribute whose value is written
/// `raw`; the result is the text of that value.
#[verifier::external_body]
fn read_attribute_text(raw: &str) -> (r: Result<String, String>)
    ensures
        text_result(r) == attribute_text(raw@),
{
    let a = quick_xml::events::attributes::Attribute { key: QName(""), value: Cow::Borrowed(raw) };
    a.unescape_value().map(Cow::into_owned).map_err(|x| x.to_string())
}

/// The read text of the first attribute named `key`, empty when there is
/// none; a malformed reference is an XML error.
pub open spec fn first_text_of(a: Result<Seq<(Seq<char>, Seq<char>)>, Seq<char>>, key: Seq<char>) -> Result<Seq<char>, ScenarioErrorView> {
    match first_value_of(a, key) {
        Some(raw) => match attribute_text(raw) {
            Ok(t) => Ok(t),
            Err(m) => Err(ScenarioErrorView::Xml(m)),
        },
        None => Ok(Seq::empty()),
    }
}

/// The result of a reading step as texts.
pub open spec fn read_text(r: Result<String, ScenarioError>) -> Result<Seq<char>, ScenarioErrorView> {
    match r {
        Ok(t) => Ok(t@),
        Err(e) => Err(e@),
    }
}

/// Reads the text of the first attribute named `key` (see [`first_text_of`]).
fn first_text(attrs: &Result<Vec<(String, String)>, String>, key: &str) -> (r: Result<String, ScenarioError>)
    ensures
        read_text(r) == first_text_of(attrs_view(*attrs), key@),
{
    match first_value(attrs, key) {
        Some(raw) => match read_attribute_text(raw.as_str()) {
            Ok(t) => Ok(t),
            Err(m) => Err(ScenarioError::Xml(m)),
        },
        None => Ok(String::new()),
    }
}

/// The number a text denotes, by the first entry of the table for that text.
pub open spec fn number_of(reals: Seq<(String, Real)>, text: Seq<char>) -> Option<Real>
    decreases reals.len(),
{
    if reals.len() == 0 {
        None
    } else if reals[0].0@ == text {
        Some(reals[0].1)
    } else {
        number_of(reals.drop_first(), text)
    }
}

/// Looks a text up in the table of number texts.
pub fn lookup_number(reals: &Vec<(String, Real)>, text: &str) -> (r: Option<Real>)
    ensures
        r == number_of(reals@, text@),
{
    let mut i: usize = 0;
    assert(reals@.subrange(0, reals@.len() as int) =~= reals@);
    while i < reals.len()
        invariant
            i <= reals@.len(),
            number_of(reals@, text@) == number_of(reals@.subrange(i as int, reals@.len() as int), text@),
        decreases reals@.len() - i,
    {
        assert(reals@.subrange(i as int, reals@.len() as int).drop_first() =~= reals@.subrange(i + 1, reals@.len() as int));
        if str_eq(reals[i].0.as_str(), text) {
            return Some(reals[i].1);
        }
        i = i + 1;
    }
    None
}

/// The number a text denotes, or zero.
pub open spec fn number_or_zero_of(reals: Seq<(String, Real)>, text: Seq<char>) -> Real {
    match number_of(reals, text) {
        Some(x) => x,
        None => Real { bits: 0 },
    }
}

/// Looks a text up in the table of number texts; zero when it denotes none.
fn number_or_zero(reals: &Vec<(String, Real)>, text: &str) -> (r: Real)
    ensures
        r == number_or_zero_of(reals@, text@),
{
    match lookup_number(reals, text) {
        Some(x) => x,
        None => Real::zero(),
    }
}

/// `text` occurs in `s` at position `i`.
pub open spec fn occurs_at(s: Seq<char>, text: Seq<char>, i: int) -> bool {
    0 <= i && i + text.len() <= s.len() && s.subrange(i, i + text.len()) == text
}

/// Whether `text` occurs in `s`.
fn has_part(s: &str, text: &str) -> (r: bool)
    ensures
        r == exists|i: int| occurs_at(s@, text@, i),
{
    let n = s.unicode_len();
    let m = text.unicode_len();
    if m == 0 {
        assert(s@.subrange(0, 0) =~= text@);
        assert(occurs_at(s@, text@, 0));
        return true;
    }
    if m > n {
        return false;
    }
    let mut i: usize = 0;
    while i <= n - m
        invariant
            n == s@.len(),
            m == text@.len(),
            0 < m <= n,
            i <= n - m + 1,
            forall|k: int| 0 <= k < i ==> !occurs_at(s@, text@, k),
        decreases n + 1 - i,
    {
        let mut j: usize = 0;
        let mut same = true;
        while j < m && same
            invariant
                j <= m,
                i + m <= n,
                n == s@.len(),
                m == text@.len(),
                same ==> forall|k: int| 0 <= k < j ==> s@[i + k] == text@[k],
                !same ==> !occurs_at(s@, text@, i as int),
            decreases m - j + (if same { 1int } else { 0int }),
        {
            assert(i + j < n);
            if s.get_char(i + j) != text.get_char(j) {
                same = false;
                assert(s@.subrange(i as int, i + m)[j as int] == s@[i + j]);
            } else {
                j = j + 1;
            }
        }
        if same {
            assert(j == m);
            assert forall|k: int| 0 <= k < m implies s@.subrange(i as int, i + m)[k] == text@[k] by {
                assert(s@.subrange(i as int, i + m)[k] == s@[i + k]);
            }
            assert(s@.subrange(i as int, i + m) =~= text@);
            assert(occurs_at(s@, text@, i as int));
            return true;
        }
        i = i + 1;
    }
    proof {
        assert forall|k: int| !occurs_at(s@, text@, k) by {
            if 0 <= k && k + m <= n {
                assert(k < i);
            }
        }
    }
    false
}

/// A start tag named `tag`.
fn opens(e: &DocEvent, tag: &str) -> (r: bool)
    ensures
        r == (e@ matches DocEventView::Start { name, .. } && name == tag@),
{
    match e {
        DocEvent::Start((name, _)) => str_eq(name.as_str(), tag),
        _ => false,
    }
}

/// Where skipping the rest of an element named `tag` ends, from event `p`
/// on at nesting `depth`: after its end tag, or at the end of the document;
/// more than 100 levels, or a reading error, is an error.
pub open spec fn skip_scan(e: Seq<DocEventView>, p: int, depth: int, tag: Seq<char>) -> Result<int, ScenarioErrorView>
    decreases e.len() - p,
{
    if p < 0 || p >= e.len() {
        Ok(p)
    } else if depth > 100 {
        Err(ScenarioErrorView::Parse(
            "XML nesting too deep (>100 levels). Possible XML bomb attack or malformed file."@,
        ))
    } else {
        match e[p] {
            DocEventView::Start { name, .. } => skip_scan(e, p + 1, if name == tag { depth + 1 } else { depth }, tag),
            DocEventView::Close { name } => if name == tag && depth == 1 {
                Ok(p + 1)
            } else if name == tag {
                skip_scan(e, p + 1, depth - 1, tag)
            } else {
                skip_scan(e, p + 1, depth, tag)
            },
            DocEventView::End => Ok(p),
            DocEventView::Failed(m) => Err(ScenarioErrorView::Xml(m)),
            _ => skip_scan(e, p + 1, depth, tag),
        }
    }
}

/// Skips the rest of an element whose start tag `tag` was read (see [`skip_scan`]).
fn skip_element(evs: &Vec<DocEvent>, pos: usize, tag: &str) -> (r: Result<usize, ScenarioError>)
    requires
        pos <= evs@.len(),
    ensures
        r matches Ok(q) ==> pos <= q <= evs@.len(),
        match skip_scan(doc_event_views(evs@), pos as int, 1, tag@) {
            Ok(q) => r matches Ok(k) && k == q,
            Err(e) => r matches Err(x) && x@ == e,
        },
{
    let ghost ev = doc_event_views(evs@);
    let ghost whole = skip_scan(ev, pos as int, 1, tag@);
    let mut depth: usize = 1;
    let mut p = pos;
    while p < evs.len()
        invariant
            pos <= p <= evs@.len(),
            1 <= depth <= 101,
            ev == doc_event_views(evs@),
            whole == skip_scan(ev, pos as int, 1, tag@),
            whole == skip_scan(ev, p as int, depth as int, tag@),
        decreases evs@.len() - p,
    {
        assert(ev[p as int] == evs@[p as int]@);
        if depth > 100 {
            return Err(ScenarioError::Parse(owned(
                "XML nesting too deep (>100 levels). Possible XML bomb attack or malformed file.",
            )));
        }
        match &evs[p] {
            DocEvent::Start((name, _)) => {
                if str_eq(name.as_str(), tag) {
                    depth = depth + 1;
                }
                p = p + 1;
            },
            DocEvent::Close(name) => {
                if str_eq(name.as_str(), tag) {
                    if depth == 1 {
                        return Ok(p + 1);
                    }
                    depth = depth - 1;
                }
                p = p + 1;
            },
            DocEvent::End => {
                return Ok(p);
            },
            DocEvent::Failed(m) => {
                return Err(ScenarioError::Xml(m.clone()));
            },
            _ => {
                p = p + 1;
            },
        }
    }
    Ok(p)
}

// ---------------------------------------------------------------------------
// Positions and entities.

/// The coordinates `x`, `y`, `z`, `h`, `p`, `r` of a world position.
pub type WorldCoordinates = (Real, Real, Real, Real, Real, Real);

/// The coordinates after setting the one named `key` to `val`.
pub open spec fn set_coordinate(c: WorldCoordinates, key: Seq<char>, val: Real) -> WorldCoordinates {
    if key == "x"@ {
        (val, c.1, c.2, c.3, c.4, c.5)
    } else if key == "y"@ {
        (c.0, val, c.2, c.3, c.4, c.5)
    } else if key == "z"@ {
        (c.0, c.1, val, c.3, c.4, c.5)
    } else if key == "h"@ {
        (c.0, c.1, c.2, val, c.4, c.5)
    } else if key == "p"@ {
        (c.0, c.1, c.2, c.3, val, c.5)
    } else if key == "r"@ {
        (c.0, c.1, c.2, c.3, c.4, val)
    } else {
        c
    }
}

/// Reads the attributes of a `WorldPosition` from the `i`-th on: each must
/// denote a number, and the named coordinates take their values.
pub open spec fn world_scan(v: Seq<(Seq<char>, Seq<char>)>, reals: Seq<(String, Real)>, i: int, c: WorldCoordinates) -> Result<
    WorldCoordinates,
    ScenarioErrorView,
>
    decreases v.len() - i,
{
    if i < 0 || i >= v.len() {
        Ok(c)
    } else {
        match number_of(reals, v[i].1) {
            None => Err(ScenarioErrorView::Parse(
                "invalid float for WorldPosition attribute '"@ + v[i].0 + "': '"@ + v[i].1 + "'"@,
            )),
            Some(val) => world_scan(v, reals, i + 1, set_coordinate(c, v[i].0, val)),
        }
    }
}

/// What a `WorldPosition` tag reads to: every coordinate zero but those given.
pub open spec fn world_coords_of(a: Result<Seq<(Seq<char>, Seq<char>)>, Seq<char>>, reals: Seq<(String, Real)>) -> Result<
    WorldCoordinates,
    ScenarioErrorView,
> {
    let zero = Real { bits: 0 };
    match a {
        Err(_) => Ok((zero, zero, zero, zero, zero, zero)),
        Ok(v) => world_scan(v, reals, 0, (zero, zero, zero, zero, zero, zero)),
    }
}

/// The position is the world position `c`.
pub open spec fn is_world_position(p: Position, c: WorldCoordinates) -> bool {
    p == Position::World { x: c.0, y: c.1, z: c.2, h: c.3, p: c.4, r: c.5 }
}

/// Reads a `WorldPosition` (see [`world_coords_of`]).
fn read_world_position(attrs: &Result<Vec<(String, String)>, String>, reals: &Vec<(String, Real)>) -> (r: Result<Position, ScenarioError>)
    ensures
        match world_coords_of(attrs_view(*attrs), reals@) {
            Ok(c) => r matches Ok(p) && is_world_position(p, c),
            Err(e) => r matches Err(x) && x@ == e,
        },
{
    let mut x = Real::zero();
    let mut y = Real::zero();
    let mut z = Real::zero();
    let mut h = Real::zero();
    let mut pitch = Real::zero();
    let mut roll = Real::zero();
    if let Ok(v) = attrs {
        let ghost w = pair_views(v@);
        let ghost zero = Real { bits: 0 };
        let mut i: usize = 0;
        while i < v.len()
            invariant
                i <= v@.len(),
                w == pair_views(v@),
                attrs_view(*attrs) == Ok::<Seq<(Seq<char>, Seq<char>)>, Seq<char>>(w),
                world_scan(w, reals@, 0, (zero, zero, zero, zero, zero, zero)) == world_scan(w, reals@, i as int,
                    (x, y, z, h, pitch, roll)),
                zero == (Real { bits: 0 }),
            decreases v@.len() - i,
        {
            assert(w[i as int] == (v@[i as int].0@, v@[i as int].1@));
            let key = v[i].0.as_str();
            let raw = v[i].1.as_str();
            let val = match lookup_number(reals, raw) {
                Some(val) => val,
                None => {
                    let mut m = concat3("invalid float for WorldPosition attribute '", key, "': '");
                    m.append(raw);
                    m.append("'");
                    return Err(ScenarioError::Parse(m));
                },
            };
            let ghost before = (x, y, z, h, pitch, roll);
            if str_eq(key, "x") {
                x = val;
            } else if str_eq(key, "y") {
                y = val;
            } else if str_eq(key, "z") {
                z = val;
            } else if str_eq(key, "h") {
                h = val;
            } else if str_eq(key, "p") {
                pitch = val;
            } else if str_eq(key, "r") {
                roll = val;
            }
            assert((x, y, z, h, pitch, roll) == set_coordinate(before, w[i as int].0, val));
            i = i + 1;
        }
    }
    Ok(Position::World { x, y, z, h, p: pitch, r: roll })
}

/// The error for an attribute that does not denote a number.
fn bad_number(what: &str, raw: &str) -> (r: ScenarioError)
    ensures
        r@ == ScenarioErrorView::Parse(what@ + raw@ + "'"@),
{
    ScenarioError::Parse(concat3(what, raw, "'"))
}

/// The road, lane, `s` and offset of a lane position.
pub type LaneCoordinates = (Seq<char>, i32, Real, Real);

/// Reads the attributes of a `LanePosition` from the `i`-th on: the lane
/// must be an integer and `s` and the offset numbers.
pub open spec fn lane_scan(v: Seq<(Seq<char>, Seq<char>)>, reals: Seq<(String, Real)>, i: int, c: LaneCoordinates) -> Result<
    LaneCoordinates,
    ScenarioErrorView,
>
    decreases v.len() - i,
{
    if i < 0 || i >= v.len() {
        Ok(c)
    } else {
        let key = v[i].0;
        let raw = v[i].1;
        if key == "roadId"@ {
            lane_scan(v, reals, i + 1, (raw, c.1, c.2, c.3))
        } else if key == "laneId"@ {
            match spec_parse_i32(raw) {
                None => Err(ScenarioErrorView::Parse("invalid integer for LanePosition laneId: '"@ + raw + "'"@)),
                Some(n) => lane_scan(v, reals, i + 1, (c.0, n, c.2, c.3)),
            }
        } else if key == "s"@ {
            match number_of(reals, raw) {
                None => Err(ScenarioErrorView::Parse("invalid float for LanePosition s: '"@ + raw + "'"@)),
                Some(n) => lane_scan(v, reals, i + 1, (c.0, c.1, n, c.3)),
            }
        } else if key == "offset"@ {
            match number_of(reals, raw) {
                None => Err(ScenarioErrorView::Parse("invalid float for LanePosition offset: '"@ + raw + "'"@)),
                Some(n) => lane_scan(v, reals, i + 1, (c.0, c.1, c.2, n)),
            }
        } else {
            lane_scan(v, reals, i + 1, c)
        }
    }
}

/// What a `LanePosition` tag reads to: an empty road, lane 0 and zero
/// distances but for those given; no orientation.
pub open spec fn lane_position_of(a: Result<Seq<(Seq<char>, Seq<char>)>, Seq<char>>, reals: Seq<(String, Real)>) -> Result<
    LaneCoordinates,
    ScenarioErrorView,
> {
    let zero = Real { bits: 0 };
    match a {
        Err(_) => Ok((Seq::empty(), 0i32, zero, zero)),
        Ok(v) => lane_scan(v, reals, 0, (Seq::empty(), 0i32, zero, zero)),
    }
}

/// The position is the lane position `c`, without orientation.
pub open spec fn is_lane_position(p: Position, c: LaneCoordinates) -> bool {
    p matches Position::Lane { road_id, lane_id, s, offset, orientation } && road_id@ == c.0 && lane_id == c.1
        && s == c.2 && offset == c.3 && orientation is None
}

/// Reads a `LanePosition` (see [`lane_position_of`]).
fn read_lane_position(attrs: &Result<Vec<(String, String)>, String>, reals: &Vec<(String, Real)>) -> (r: Result<Position, ScenarioError>)
    ensures
        match lane_position_of(attrs_view(*attrs), reals@) {
            Ok(c) => r matches Ok(p) && is_lane_position(p, c),
            Err(e) => r matches Err(x) && x@ == e,
        },
{
    let mut road_id = String::new();
    let mut lane_id: i32 = 0;
    let mut s = Real::zero();
    let mut offset = Real::zero();
    if let Ok(v) = attrs {
        let ghost w = pair_views(v@);
        let ghost zero = Real { bits: 0 };
        let mut i: usize = 0;
        while i < v.len()
            invariant
                i <= v@.len(),
                w == pair_views(v@),
                attrs_view(*attrs) == Ok::<Seq<(Seq<char>, Seq<char>)>, Seq<char>>(w),
                lane_scan(w, reals@, 0, (Seq::empty(), 0i32, zero, zero)) == lane_scan(w, reals@, i as int,
                    (road_id@, lane_id, s, offset)),
                zero == (Real { bits: 0 }),
            decreases v@.len() - i,
        {
            assert(w[i as int] == (v@[i as int].0@, v@[i as int].1@));
            let key = v[i].0.as_str();
            let raw = v[i].1.as_str();
            if str_eq(key, "roadId") {
                road_id = owned(raw);
            } else if str_eq(key, "laneId") {
                lane_id = match parse_i32(raw) {
                    Some(n) => n,
                    None => {
                        return Err(bad_number("invalid integer for LanePosition laneId: '", raw));
                    },
                };
            } else if str_eq(key, "s") {
                s = match lookup_number(reals, raw) {
                    Some(n) => n,
                    None => {
                        return Err(bad_number("invalid float for LanePosition s: '", raw));
                    },
                };
            } else if str_eq(key, "offset") {
                offset = match lookup_number(reals, raw) {
                    Some(n) => n,
                    None => {
                        return Err(bad_number("invalid float for LanePosition offset: '", raw));
                    },
                };
            }
            i = i + 1;
        }
    }
    Ok(Position::Lane { road_id, lane_id, s, offset, orientation: None })
}

/// The road, `s` and `t` of a road position.
pub type RoadCoordinates = (Seq<char>, Real, Real);

/// Reads the attributes of a `RoadPosition` from the `i`-th on: `s` and `t`
/// must be numbers.
pub open spec fn road_scan(v: Seq<(Seq<char>, Seq<char>)>, reals: Seq<(String, Real)>, i: int, c: RoadCoordinates) -> Result<
    RoadCoordinates,
    ScenarioErrorView,
>
    decreases v.len() - i,
{
    if i < 0 || i >= v.len() {
        Ok(c)
    } else {
        let key = v[i].0;
        let raw = v[i].1;
        if key == "roadId"@ {
            road_scan(v, reals, i + 1, (raw, c.1, c.2))
        } else if key == "s"@ {
            match number_of(reals, raw) {
                None => Err(ScenarioErrorView::Parse("invalid float for RoadPosition s: '"@ + raw + "'"@)),
                Some(n) => road_scan(v, reals, i + 1, (c.0, n, c.2)),
            }
        } else if key == "t"@ {
            match number_of(reals, raw) {
                None => Err(ScenarioErrorView::Parse("invalid float for RoadPosition t: '"@ + raw + "'"@)),
                Some(n) => road_scan(v, reals, i + 1, (c.0, c.1, n)),
            }
        } else {
            road_scan(v, reals, i + 1, c)
        }
    }
}

/// What a `RoadPosition` tag reads to: an empty road and zero coordinates
/// but for those given; no orientation.
pub open spec fn road_position_of(a: Result<Seq<(Seq<char>, Seq<char>)>, Seq<char>>, reals: Seq<(String, Real)>) -> Result<
    RoadCoordinates,
    ScenarioErrorView,
> {
    let zero = Real { bits: 0 };
    match a {
        Err(_) => Ok((Seq::empty(), zero, zero)),
        Ok(v) => road_scan(v, reals, 0, (Seq::empty(), zero, zero)),
    }
}

/// The position is the road position `c`, without orientation.
pub open spec fn is_road_position(p: Position, c: RoadCoordinates) -> bool {
    p matches Position::Road { road_id, s, t, orientation } && road_id@ == c.0 && s == c.1 && t == c.2
        && orientation is None
}

/// Reads a `RoadPosition` (see [`road_position_of`]).
fn read_road_position(attrs: &Result<Vec<(String, String)>, String>, reals: &Vec<(String, Real)>) -> (r: Result<Position, ScenarioError>)
    ensures
        match road_position_of(attrs_view(*attrs), reals@) {
            Ok(c) => r matches Ok(p) && is_road_position(p, c),
            Err(e) => r matches Err(x) && x@ == e,
        },
{
    let mut road_id = String::new();
    let mut s = Real::zero();
    let mut t = Real::zero();
    if let Ok(v) = attrs {
        let ghost w = pair_views(v@);
        let ghost zero = Real { bits: 0 };
        let mut i: usize = 0;
        while i < v.len()
            invariant
                i <= v@.len(),
                w == pair_views(v@),
                attrs_view(*attrs) == Ok::<Seq<(Seq<char>, Seq<char>)>, Seq<char>>(w),
                road_scan(w, reals@, 0, (Seq::empty(), zero, zero)) == road_scan(w, reals@, i as int, (road_id@, s, t)),
                zero == (Real { bits: 0 }),
            decreases v@.len() - i,
        {
            assert(w[i as int] == (v@[i as int].0@, v@[i as int].1@));
            let key = v[i].0.as_str();
            let raw = v[i].1.as_str();
            if str_eq(key, "roadId") {
                road_id = owned(raw);
            } else if str_eq(key, "s") {
                s = match lookup_number(reals, raw) {
                    Some(n) => n,
                    None => {
                        return Err(bad_number("invalid float for RoadPosition s: '", raw));
                    },
                };
            } else if str_eq(key, "t") {
                t = match lookup_number(reals, raw) {
                    Some(n) => n,
                    None => {
                        return Err(bad_number("invalid float for RoadPosition t: '", raw));
                    },
                };
            }
            i = i + 1;
        }
    }
    Ok(Position::Road { road_id, s, t, orientation: None })
}

/// A position as a document gives it.
pub enum PositionModel {
    World(WorldCoordinates),
    Lane(LaneCoordinates),
    Road(RoadCoordinates),
}

/// The position is the one the model gives.
pub open spec fn stands_for_position(p: Position, m: PositionModel) -> bool {
    match m {
        PositionModel::World(c) => is_world_position(p, c),
        PositionModel::Lane(c) => is_lane_position(p, c),
        PositionModel::Road(c) => is_road_position(p, c),
    }
}

/// What an empty-element tag inside a `Position` gives: a position of a
/// known kind, none for another tag, or the error of its attributes.
pub open spec fn position_tag(name: Seq<char>, a: Result<Seq<(Seq<char>, Seq<char>)>, Seq<char>>, reals: Seq<(String, Real)>) -> Result<
    Option<PositionModel>,
    ScenarioErrorView,
> {
    if name == "WorldPosition"@ {
        match world_coords_of(a, reals) {
            Ok(c) => Ok(Some(PositionModel::World(c))),
            Err(e) => Err(e),
        }
    } else if name == "LanePosition"@ {
        match lane_position_of(a, reals) {
            Ok(c) => Ok(Some(PositionModel::Lane(c))),
            Err(e) => Err(e),
        }
    } else if name == "RoadPosition"@ {
        match road_position_of(a, reals) {
            Ok(c) => Ok(Some(PositionModel::Road(c))),
            Err(e) => Err(e),
        }
    } else {
        Ok(None)
    }
}

/// Reads the body of a `Position` element from event `p` on, with the
/// position found so far: until its end tag or the end of the document.
pub open spec fn position_scan(e: Seq<DocEventView>, reals: Seq<(String, Real)>, p: int, found: Option<PositionModel>) -> Result<
    (Option<PositionModel>, int),
    ScenarioErrorView,
>
    decreases e.len() - p,
{
    if p < 0 || p >= e.len() {
        Ok((found, p))
    } else {
        match e[p] {
            DocEventView::Empty { name, attributes } => match position_tag(name, attributes, reals) {
                Err(x) => Err(x),
                Ok(f) => position_scan(e, reals, p + 1, f),
            },
            DocEventView::Close { name } => if name == "Position"@ {
                Ok((found, p + 1))
            } else {
                position_scan(e, reals, p + 1, found)
            },
            DocEventView::End => Ok((found, p)),
            DocEventView::Failed(m) => Err(ScenarioErrorView::Xml(m)),
            _ => position_scan(e, reals, p + 1, found),
        }
    }
}

/// What the body of a `Position` element reads to: the last position tag in
/// it must be of a known kind.
pub open spec fn position_read(e: Seq<DocEventView>, reals: Seq<(String, Real)>, p: int) -> Result<(PositionModel, int), ScenarioErrorView> {
    match position_scan(e, reals, p, None) {
        Err(x) => Err(x),
        Ok((None, _)) => Err(ScenarioErrorView::Parse(
            "Position element has no recognized position type (WorldPosition, LanePosition, ...)"@,
        )),
        Ok((Some(m), q)) => Ok((m, q)),
    }
}

/// Reads the body of a `Position` element (see [`position_read`]).
fn read_position(evs: &Vec<DocEvent>, pos: usize, reals: &Vec<(String, Real)>) -> (r: Result<(Position, usize), ScenarioError>)
    requires
        pos <= evs@.len(),
    ensures
        r matches Ok((_, q)) ==> pos <= q <= evs@.len(),
        match position_read(doc_event_views(evs@), reals@, pos as int) {
            Ok((m, q)) => r matches Ok((x, k)) && stands_for_position(x, m) && k == q,
            Err(e) => r matches Err(x) && x@ == e,
        },
{
    let ghost ev = doc_event_views(evs@);
    let ghost whole = position_scan(ev, reals@, pos as int, None);
    let mut found: Option<Position> = None;
    let ghost mut fm: Option<PositionModel> = None;
    let mut p = pos;
    while p < evs.len()
        invariant
            pos <= p <= evs@.len(),
            ev == doc_event_views(evs@),
            whole == position_scan(ev, reals@, pos as int, None),
            whole == position_scan(ev, reals@, p as int, fm),
            match fm {
                None => found is None,
                Some(m) => found matches Some(x) && stands_for_position(x, m),
            },
        decreases evs@.len() - p,
    {
        assert(ev[p as int] == evs@[p as int]@);
        match &evs[p] {
            DocEvent::Empty((name, attributes)) => {
                if str_eq(name.as_str(), "WorldPosition") {
                    found = Some(read_world_position(attributes, reals)?);
                    proof {
                        fm = Some(PositionModel::World(world_coords_of(attrs_view(*attributes), reals@)->Ok_0));
                    }
                } else if str_eq(name.as_str(), "LanePosition") {
                    found = Some(read_lane_position(attributes, reals)?);
                    proof {
                        fm = Some(PositionModel::Lane(lane_position_of(attrs_view(*attributes), reals@)->Ok_0));
                    }
                } else if str_eq(name.as_str(), "RoadPosition") {
                    found = Some(read_road_position(attributes, reals)?);
                    proof {
                        fm = Some(PositionModel::Road(road_position_of(attrs_view(*attributes), reals@)->Ok_0));
                    }
                } else {
                    found = None;
                    proof {
                        fm = None;
                    }
                }
                p = p + 1;
            },
            DocEvent::Close(name) => {
                if str_eq(name.as_str(), "Position") {
                    return match found {
                        Some(x) => Ok((x, p + 1)),
                        None => Err(ScenarioError::Parse(owned(
                            "Position element has no recognized position type (WorldPosition, LanePosition, ...)",
                        ))),
                    };
                }
                p = p + 1;
            },
            DocEvent::End => {
                return match found {
                    Some(x) => Ok((x, p)),
                    None => Err(ScenarioError::Parse(owned(
                        "Position element has no recognized position type (WorldPosition, LanePosition, ...)",
                    ))),
                };
            },
            DocEvent::Failed(m) => {
                return Err(ScenarioError::Xml(m.clone()));
            },
            _ => {
                p = p + 1;
            },
        }
    }
    match found {
        Some(x) => Ok((x, p)),
        None => Err(ScenarioError::Parse(owned(
            "Position element has no recognized position type (WorldPosition, LanePosition, ...)",
        ))),
    }
}

/// Reads the body of a `TeleportAction` from event `p` on, with the
/// position found so far.
pub open spec fn teleport_scan(e: Seq<DocEventView>, reals: Seq<(String, Real)>, p: int, found: Option<PositionModel>) -> Result<
    (Option<PositionModel>, int),
    ScenarioErrorView,
>
    decreases e.len() - p,
{
    if p < 0 || p >= e.len() {
        Ok((found, p))
    } else {
        match e[p] {
            DocEventView::Start { name, .. } => if name == "Position"@ {
                match position_read(e, reals, p + 1) {
                    Err(x) => Err(x),
                    Ok((m, q)) => if p < q <= e.len() {
                        teleport_scan(e, reals, q, Some(m))
                    } else {
                        Err(ScenarioErrorView::Parse(Seq::empty()))
                    },
                }
            } else {
                teleport_scan(e, reals, p + 1, found)
            },
            DocEventView::Close { name } => if name == "TeleportAction"@ {
                Ok((found, p + 1))
            } else {
                teleport_scan(e, reals, p + 1, found)
            },
            DocEventView::End => Ok((found, p)),
            DocEventView::Failed(m) => Err(ScenarioErrorView::Xml(m)),
            _ => teleport_scan(e, reals, p + 1, found),
        }
    }
}

/// What the body of a `TeleportAction` reads to: its last position, which it must have.
pub open spec fn teleport_read(e: Seq<DocEventView>, reals: Seq<(String, Real)>, p: int) -> Result<(PositionModel, int), ScenarioErrorView> {
    match teleport_scan(e, reals, p, None) {
        Err(x) => Err(x),
        Ok((None, _)) => Err(ScenarioErrorView::Parse("TeleportAction has no Position element"@)),
        Ok((Some(m), q)) => Ok((m, q)),
    }
}

/// Reads the body of a `TeleportAction` (see [`teleport_read`]).
fn read_teleport(evs: &Vec<DocEvent>, pos: usize, reals: &Vec<(String, Real)>) -> (r: Result<(Position, usize), ScenarioError>)
    requires
        pos <= evs@.len(),
    ensures
        r matches Ok((_, q)) ==> pos <= q <= evs@.len(),
        match teleport_read(doc_event_views(evs@), reals@, pos as int) {
            Ok((m, q)) => r matches Ok((x, k)) && stands_for_position(x, m) && k == q,
            Err(e) => r matches Err(x) && x@ == e,
        },
{
    let ghost ev = doc_event_views(evs@);
    let ghost whole = teleport_scan(ev, reals@, pos as int, None);
    let mut found: Option<Position> = None;
    let ghost mut fm: Option<PositionModel> = None;
    let mut p = pos;
    while p < evs.len()
        invariant
            pos <= p <= evs@.len(),
            ev == doc_event_views(evs@),
            whole == teleport_scan(ev, reals@, pos as int, None),
            whole == teleport_scan(ev, reals@, p as int, fm),
            match fm {
                None => found is None,
                Some(m) => found matches Some(x) && stands_for_position(x, m),
            },
        decreases evs@.len() - p,
    {
        assert(ev[p as int] == evs@[p as int]@);
        if opens(&evs[p], "Position") {
            let (x, q) = read_position(evs, p + 1, reals)?;
            proof {
                fm = Some(position_read(ev, reals@, p + 1)->Ok_0.0);
            }
            found = Some(x);
            p = q;
        } else {
            match &evs[p] {
                DocEvent::Close(name) => {
                    if str_eq(name.as_str(), "TeleportAction") {
                        return match found {
                            Some(x) => Ok((x, p + 1)),
                            None => Err(ScenarioError::Parse(owned("TeleportAction has no Position element"))),
                        };
                    }
                    p = p + 1;
                },
                DocEvent::End => {
                    return match found {
                        Some(x) => Ok((x, p)),
                        None => Err(ScenarioError::Parse(owned("TeleportAction has no Position element"))),
                    };
                },
                DocEvent::Failed(m) => {
                    return Err(ScenarioError::Xml(m.clone()));
                },
                _ => {
                    p = p + 1;
                },
            }
        }
    }
    match found {
        Some(x) => Ok((x, p)),
        None => Err(ScenarioError::Parse(owned("TeleportAction has no Position element"))),
    }
}

/// Reads the body of an initial `LongitudinalAction` from event `p` on: the
/// last absolute target speed, when it denotes a number.
pub open spec fn initial_speed_scan(e: Seq<DocEventView>, reals: Seq<(String, Real)>, p: int, speed: Option<Real>) -> Result<
    (Option<Real>, int),
    ScenarioErrorView,
>
    decreases e.len() - p,
{
    if p < 0 || p >= e.len() {
        Ok((speed, p))
    } else {
        match e[p] {
            DocEventView::Empty { name, attributes } => if name == "AbsoluteTargetSpeed"@ {
                match last_value_of(attributes, "value"@) {
                    Some(raw) => initial_speed_scan(e, reals, p + 1, number_of(reals, raw)),
                    None => initial_speed_scan(e, reals, p + 1, speed),
                }
            } else {
                initial_speed_scan(e, reals, p + 1, speed)
            },
            DocEventView::Close { name } => if name == "LongitudinalAction"@ {
                Ok((speed, p + 1))
            } else {
                initial_speed_scan(e, reals, p + 1, speed)
            },
            DocEventView::End => Ok((speed, p)),
            DocEventView::Failed(m) => Err(ScenarioErrorView::Xml(m)),
            _ => initial_speed_scan(e, reals, p + 1, speed),
        }
    }
}

/// Reads the body of an initial `LongitudinalAction` (see [`initial_speed_scan`]).
fn read_initial_speed(evs: &Vec<DocEvent>, pos: usize, reals: &Vec<(String, Real)>) -> (r: Result<(Option<Real>, usize), ScenarioError>)
    requires
        pos <= evs@.len(),
    ensures
        r matches Ok((_, q)) ==> pos <= q <= evs@.len(),
        match initial_speed_scan(doc_event_views(evs@), reals@, pos as int, None) {
            Ok((v, q)) => r matches Ok((x, k)) && x == v && k == q,
            Err(e) => r matches Err(x) && x@ == e,
        },
{
    let ghost ev = doc_event_views(evs@);
    let ghost whole = initial_speed_scan(ev, reals@, pos as int, None);
    let mut speed: Option<Real> = None;
    let mut p = pos;
    while p < evs.len()
        invariant
            pos <= p <= evs@.len(),
            ev == doc_event_views(evs@),
            whole == initial_speed_scan(ev, reals@, pos as int, None),
            whole == initial_speed_scan(ev, reals@, p as int, speed),
        decreases evs@.len() - p,
    {
        assert(ev[p as int] == evs@[p as int]@);
        match &evs[p] {
            DocEvent::Empty((name, attributes)) => {
                if str_eq(name.as_str(), "AbsoluteTargetSpeed") {
                    if let Some(raw) = last_value(attributes, "value") {
                        speed = lookup_number(reals, raw.as_str());
                    }
                }
                p = p + 1;
            },
            DocEvent::Close(name) => {
                if str_eq(name.as_str(), "LongitudinalAction") {
                    return Ok((speed, p + 1));
                }
                p = p + 1;
            },
            DocEvent::End => {
                return Ok((speed, p));
            },
            DocEvent::Failed(m) => {
                return Err(ScenarioError::Xml(m.clone()));
            },
            _ => {
                p = p + 1;
            },
        }
    }
    Ok((speed, p))
}

/// The position an optional position stands for.
pub open spec fn stands_for_opt_position(x: Option<Position>, m: Option<PositionModel>) -> bool {
    match m {
        None => x is None,
        Some(m) => x matches Some(y) && stands_for_position(y, m),
    }
}

/// Reads the body of an initial `PrivateAction` from event `p` on: the
/// position of its last teleport and the speed of its last longitudinal
/// action; other actions are skipped.
pub open spec fn init_action_scan(
    e: Seq<DocEventView>,
    reals: Seq<(String, Real)>,
    p: int,
    position: Option<PositionModel>,
    speed: Option<Real>,
) -> Result<(Option<PositionModel>, Option<Real>, int), ScenarioErrorView>
    decreases e.len() - p,
{
    if p < 0 || p >= e.len() {
        Ok((position, speed, p))
    } else {
        match e[p] {
            DocEventView::Start { name, .. } => if name == "TeleportAction"@ {
                match teleport_read(e, reals, p + 1) {
                    Err(x) => Err(x),
                    Ok((m, q)) => if p < q <= e.len() {
                        init_action_scan(e, reals, q, Some(m), speed)
                    } else {
                        Err(ScenarioErrorView::Parse(Seq::empty()))
                    },
                }
            } else if name == "LongitudinalAction"@ {
                match initial_speed_scan(e, reals, p + 1, None) {
                    Err(x) => Err(x),
                    Ok((v, q)) => if p < q <= e.len() {
                        init_action_scan(e, reals, q, position, v)
                    } else {
                        Err(ScenarioErrorView::Parse(Seq::empty()))
                    },
                }
            } else {
                match skip_scan(e, p + 1, 1, name) {
                    Err(x) => Err(x),
                    Ok(q) => if p < q <= e.len() {
                        init_action_scan(e, reals, q, position, speed)
                    } else {
                        Err(ScenarioErrorView::Parse(Seq::empty()))
                    },
                }
            },
            DocEventView::Close { name } => if name == "PrivateAction"@ {
                Ok((position, speed, p + 1))
            } else {
                init_action_scan(e, reals, p + 1, position, speed)
            },
            DocEventView::End => Ok((position, speed, p)),
            DocEventView::Failed(m) => Err(ScenarioErrorView::Xml(m)),
            _ => init_action_scan(e, reals, p + 1, position, speed),
        }
    }
}

/// Reads the body of an initial `PrivateAction` (see [`init_action_scan`]).
fn read_init_action(evs: &Vec<DocEvent>, pos: usize, reals: &Vec<(String, Real)>) -> (r: Result<
    (Option<Position>, Option<Real>, usize),
    ScenarioError,
>)
    requires
        pos <= evs@.len(),
    ensures
        r matches Ok((_, _, q)) ==> pos <= q <= evs@.len(),
        match init_action_scan(doc_event_views(evs@), reals@, pos as int, None, None) {
            Ok((m, v, q)) => r matches Ok((x, w, k)) && stands_for_opt_position(x, m) && w == v && k == q,
            Err(e) => r matches Err(x) && x@ == e,
        },
{
    let ghost ev = doc_event_views(evs@);
    let ghost whole = init_action_scan(ev, reals@, pos as int, None, None);
    let mut position: Option<Position> = None;
    let ghost mut pm: Option<PositionModel> = None;
    let mut speed: Option<Real> = None;
    let mut p = pos;
    while p < evs.len()
        invariant
            pos <= p <= evs@.len(),
            ev == doc_event_views(evs@),
            whole == init_action_scan(ev, reals@, pos as int, None, None),
            whole == init_action_scan(ev, reals@, p as int, pm, speed),
            stands_for_opt_position(position, pm),
        decreases evs@.len() - p,
    {
        assert(ev[p as int] == evs@[p as int]@);
        match &evs[p] {
            DocEvent::Start((name, _)) => {
                if str_eq(name.as_str(), "TeleportAction") {
                    let (x, q) = read_teleport(evs, p + 1, reals)?;
                    proof {
                        pm = Some(teleport_read(ev, reals@, p + 1)->Ok_0.0);
                    }
                    position = Some(x);
                    p = q;
                } else if str_eq(name.as_str(), "LongitudinalAction") {
                    let (x, q) = read_initial_speed(evs, p + 1, reals)?;
                    speed = x;
                    p = q;
                } else {
                    p = skip_element(evs, p + 1, name.as_str())?;
                }
            },
            DocEvent::Close(name) => {
                if str_eq(name.as_str(), "PrivateAction") {
                    return Ok((position, speed, p + 1));
                }
                p = p + 1;
            },
            DocEvent::End => {
                return Ok((position, speed, p));
            },
            DocEvent::Failed(m) => {
                return Err(ScenarioError::Xml(m.clone()));
            },
            _ => {
                p = p + 1;
            },
        }
    }
    Ok((position, speed, p))
}

/// Reads the body of an initial `Private` block from event `p` on: the last
/// position and the last speed its actions give.
pub open spec fn private_scan(
    e: Seq<DocEventView>,
    reals: Seq<(String, Real)>,
    p: int,
    position: Option<PositionModel>,
    speed: Option<Real>,
) -> Result<(Option<PositionModel>, Option<Real>, int), ScenarioErrorView>
    decreases e.len() - p,
{
    if p < 0 || p >= e.len() {
        Ok((position, speed, p))
    } else {
        match e[p] {
            DocEventView::Start { name, .. } => if name == "PrivateAction"@ {
                match init_action_scan(e, reals, p + 1, None, None) {
                    Err(x) => Err(x),
                    Ok((m, v, q)) => if p < q <= e.len() {
                        private_scan(e, reals, q, if m is Some { m } else { position }, if v is Some { v } else { speed })
                    } else {
                        Err(ScenarioErrorView::Parse(Seq::empty()))
                    },
                }
            } else {
                private_scan(e, reals, p + 1, position, speed)
            },
            DocEventView::Close { name } => if name == "Private"@ {
                Ok((position, speed, p + 1))
            } else {
                private_scan(e, reals, p + 1, position, speed)
            },
            DocEventView::End => Ok((position, speed, p)),
            DocEventView::Failed(m) => Err(ScenarioErrorView::Xml(m)),
            _ => private_scan(e, reals, p + 1, position, speed),
        }
    }
}

/// Reads the body of an initial `Private` block (see [`private_scan`]).
fn read_private(evs: &Vec<DocEvent>, pos: usize, reals: &Vec<(String, Real)>) -> (r: Result<
    (Option<Position>, Option<Real>, usize),
    ScenarioError,
>)
    requires
        pos <= evs@.len(),
    ensures
        r matches Ok((_, _, q)) ==> pos <= q <= evs@.len(),
        match private_scan(doc_event_views(evs@), reals@, pos as int, None, None) {
            Ok((m, v, q)) => r matches Ok((x, w, k)) && stands_for_opt_position(x, m) && w == v && k == q,
            Err(e) => r matches Err(x) && x@ == e,
        },
{
    let ghost ev = doc_event_views(evs@);
    let ghost whole = private_scan(ev, reals@, pos as int, None, None);
    let mut position: Option<Position> = None;
    let ghost mut pm: Option<PositionModel> = None;
    let mut speed: Option<Real> = None;
    let mut p = pos;
    while p < evs.len()
        invariant
            pos <= p <= evs@.len(),
            ev == doc_event_views(evs@),
            whole == private_scan(ev, reals@, pos as int, None, None),
            whole == private_scan(ev, reals@, p as int, pm, speed),
            stands_for_opt_position(position, pm),
        decreases evs@.len() - p,
    {
        assert(ev[p as int] == evs@[p as int]@);
        if opens(&evs[p], "PrivateAction") {
            let (x, v, q) = read_init_action(evs, p + 1, reals)?;
            proof {
                let m = init_action_scan(ev, reals@, p + 1, None, None)->Ok_0.0;
                if m is Some {
                    pm = m;
                }
            }
            if x.is_some() {
                position = x;
            }
            if v.is_some() {
                speed = v;
            }
            p = q;
        } else {
            match &evs[p] {
                DocEvent::Close(name) => {
                    if str_eq(name.as_str(), "Private") {
                        return Ok((position, speed, p + 1));
                    }
                    p = p + 1;
                },
                DocEvent::End => {
                    return Ok((position, speed, p));
                },
                DocEvent::Failed(m) => {
                    return Err(ScenarioError::Xml(m.clone()));
                },
                _ => {
                    p = p + 1;
                },
            }
        }
    }
    Ok((position, speed, p))
}

/// The keys of a keyed list.
pub open spec fn keys_of<T>(s: Seq<(Seq<char>, T)>) -> Seq<Seq<char>> {
    s.map_values(|x: (Seq<char>, T)| x.0)
}

/// The keyed list with `v` under `k`: in place of the first entry of that
/// key, or added at the end.
pub open spec fn put_keyed<T>(s: Seq<(Seq<char>, T)>, k: Seq<char>, v: T) -> Seq<(Seq<char>, T)> {
    let i = first_index(keys_of(s), k);
    if i >= 0 {
        s.update(i, (k, v))
    } else {
        s.push((k, v))
    }
}

/// The keyed list with `v` under `k` when there is a `v`.
pub open spec fn put_some<T>(s: Seq<(Seq<char>, T)>, k: Seq<char>, v: Option<T>) -> Seq<(Seq<char>, T)> {
    match v {
        Some(x) => put_keyed(s, k, x),
        None => s,
    }
}

/// The initial positions are the entity and position pairs `m`.
pub open spec fn positions_stand_for(v: Seq<InitialPosition>, m: Seq<(Seq<char>, PositionModel)>) -> bool {
    &&& v.len() == m.len()
    &&& forall|i: int| 0 <= i < v.len() ==> (#[trigger] v[i]).entity@ == m[i].0 && stands_for_position(v[i].position, m[i].1)
}

/// The initial speeds are the entity and speed pairs `m`.
pub open spec fn speeds_stand_for(v: Seq<InitialSpeed>, m: Seq<(Seq<char>, Real)>) -> bool {
    &&& v.len() == m.len()
    &&& forall|i: int| 0 <= i < v.len() ==> (#[trigger] v[i]).entity@ == m[i].0 && v[i].speed == m[i].1
}

/// Sets the initial position of an entity, replacing an earlier one.
fn put_position(v: &mut Vec<InitialPosition>, entity: String, position: Position)
    ensures
        distinct(position_keys(old(v)@)) ==> distinct(position_keys(final(v)@)),
        forall|m: Seq<(Seq<char>, PositionModel)>, pm: PositionModel| positions_stand_for(old(v)@, m)
            && stands_for_position(position, pm) ==> positions_stand_for(final(v)@, put_keyed(m, entity@, pm)),
{
    let ghost before = position_keys(v@);
    let ghost name = entity@;
    let ghost given = position;
    let ghost old_v = v@;
    let mut i: usize = 0;
    while i < v.len()
        invariant
            i <= v@.len(),
            before == position_keys(v@),
            v@ == old(v)@,
            old_v == old(v)@,
            name == entity@,
            given == position,
            forall|j: int| 0 <= j < i ==> before[j] != name,
        decreases v@.len() - i,
    {
        if str_eq(v[i].entity.as_str(), entity.as_str()) {
            v.set(i, InitialPosition { entity, position });
            assert(position_keys(v@) =~= before);
            proof {
                lemma_first_index(before, name, i as int);
                assert forall|m: Seq<(Seq<char>, PositionModel)>, pm: PositionModel| positions_stand_for(old_v, m)
                    && stands_for_position(given, pm) implies positions_stand_for(v@, put_keyed(m, name, pm)) by {
                    assert(keys_of(m) =~= before);
                }
            }
            return;
        }
        i = i + 1;
    }
    v.push(InitialPosition { entity, position });
    assert(position_keys(v@) =~= before.push(name));
    proof {
        lemma_first_index(before, name, i as int);
        assert forall|m: Seq<(Seq<char>, PositionModel)>, pm: PositionModel| positions_stand_for(old_v, m)
            && stands_for_position(given, pm) implies positions_stand_for(v@, put_keyed(m, name, pm)) by {
            assert(keys_of(m) =~= before);
            assert forall|k: int| 0 <= k < v@.len() implies (#[trigger] v@[k]).entity@ == put_keyed(m, name, pm)[k].0
                && stands_for_position(v@[k].position, put_keyed(m, name, pm)[k].1) by {
                if k < old_v.len() {
                    assert(v@[k] == old_v[k]);
                }
            }
        }
    }
}

/// Sets the initial speed of an entity, replacing an earlier one.
fn put_speed(v: &mut Vec<InitialSpeed>, entity: String, speed: Real)
    ensures
        distinct(speed_keys(old(v)@)) ==> distinct(speed_keys(final(v)@)),
        forall|m: Seq<(Seq<char>, Real)>| speeds_stand_for(old(v)@, m) ==> speeds_stand_for(
            final(v)@,
            put_keyed(m, entity@, speed),
        ),
{
    let ghost before = speed_keys(v@);
    let ghost name = entity@;
    let ghost old_v = v@;
    let mut i: usize = 0;
    while i < v.len()
        invariant
            i <= v@.len(),
            before == speed_keys(v@),
            v@ == old(v)@,
            old_v == old(v)@,
            name == entity@,
            forall|j: int| 0 <= j < i ==> before[j] != name,
        decreases v@.len() - i,
    {
        if str_eq(v[i].entity.as_str(), entity.as_str()) {
            v.set(i, InitialSpeed { entity, speed });
            assert(speed_keys(v@) =~= before);
            proof {
                lemma_first_index(before, name, i as int);
                assert forall|m: Seq<(Seq<char>, Real)>| speeds_stand_for(old_v, m) implies speeds_stand_for(
                    v@,
                    put_keyed(m, name, speed),
                ) by {
                    assert(keys_of(m) =~= before);
                }
            }
            return;
        }
        i = i + 1;
    }
    v.push(InitialSpeed { entity, speed });
    assert(speed_keys(v@) =~= before.push(name));
    proof {
        lemma_first_index(before, name, i as int);
        assert forall|m: Seq<(Seq<char>, Real)>| speeds_stand_for(old_v, m) implies speeds_stand_for(
            v@,
            put_keyed(m, name, speed),
        ) by {
            assert(keys_of(m) =~= before);
            assert forall|k: int| 0 <= k < v@.len() implies (#[trigger] v@[k]).entity@ == put_keyed(m, name, speed)[k].0
                && v@[k].speed == put_keyed(m, name, speed)[k].1 by {
                if k < old_v.len() {
                    assert(v@[k] == old_v[k]);
                }
            }
        }
    }
}

/// Reads the body of `Init` from event `p` on: the initial positions and
/// speeds its `Private` blocks give, by entity.
pub open spec fn init_scan(
    e: Seq<DocEventView>,
    reals: Seq<(String, Real)>,
    p: int,
    ps: Seq<(Seq<char>, PositionModel)>,
    ss: Seq<(Seq<char>, Real)>,
) -> Result<(Seq<(Seq<char>, PositionModel)>, Seq<(Seq<char>, Real)>, int), ScenarioErrorView>
    decreases e.len() - p,
{
    if p < 0 || p >= e.len() {
        Ok((ps, ss, p))
    } else {
        match e[p] {
            DocEventView::Start { name, attributes } => if name == "Private"@ {
                match first_text_of(attributes, "entityRef"@) {
                    Err(x) => Err(x),
                    Ok(entity) => match private_scan(e, reals, p + 1, None, None) {
                        Err(x) => Err(x),
                        Ok((m, v, q)) => if p < q <= e.len() {
                            init_scan(e, reals, q, put_some(ps, entity, m), put_some(ss, entity, v))
                        } else {
                            Err(ScenarioErrorView::Parse(Seq::empty()))
                        },
                    },
                }
            } else {
                init_scan(e, reals, p + 1, ps, ss)
            },
            DocEventView::Close { name } => if name == "Init"@ {
                Ok((ps, ss, p + 1))
            } else {
                init_scan(e, reals, p + 1, ps, ss)
            },
            DocEventView::End => Ok((ps, ss, p)),
            DocEventView::Failed(m) => Err(ScenarioErrorView::Xml(m)),
            _ => init_scan(e, reals, p + 1, ps, ss),
        }
    }
}

/// Reads the body of `Init` (see [`init_scan`]).
fn read_init(evs: &Vec<DocEvent>, pos: usize, reals: &Vec<(String, Real)>) -> (r: Result<
    (Vec<InitialPosition>, Vec<InitialSpeed>, usize),
    ScenarioError,
>)
    requires
        pos <= evs@.len(),
    ensures
        r matches Ok((_, _, q)) ==> pos <= q <= evs@.len(),
        r matches Ok((x, v, _)) ==> distinct(position_keys(x@)) && distinct(speed_keys(v@)),
        match init_scan(doc_event_views(evs@), reals@, pos as int, Seq::empty(), Seq::empty()) {
            Ok((ps, ss, q)) => r matches Ok((x, v, k)) && positions_stand_for(x@, ps) && speeds_stand_for(v@, ss) && k == q,
            Err(e) => r matches Err(x) && x@ == e,
        },
{
    let ghost ev = doc_event_views(evs@);
    let ghost whole = init_scan(ev, reals@, pos as int, Seq::empty(), Seq::empty());
    let mut positions: Vec<InitialPosition> = Vec::new();
    let mut speeds: Vec<InitialSpeed> = Vec::new();
    let ghost mut ps: Seq<(Seq<char>, PositionModel)> = Seq::empty();
    let ghost mut ss: Seq<(Seq<char>, Real)> = Seq::empty();
    let mut p = pos;
    while p < evs.len()
        invariant
            pos <= p <= evs@.len(),
            ev == doc_event_views(evs@),
            whole == init_scan(ev, reals@, pos as int, Seq::empty(), Seq::empty()),
            whole == init_scan(ev, reals@, p as int, ps, ss),
            positions_stand_for(positions@, ps),
            speeds_stand_for(speeds@, ss),
            distinct(position_keys(positions@)),
            distinct(speed_keys(speeds@)),
        decreases evs@.len() - p,
    {
        assert(ev[p as int] == evs@[p as int]@);
        match &evs[p] {
            DocEvent::Start((name, attributes)) => {
                if str_eq(name.as_str(), "Private") {
                    let entity = first_text(attributes, "entityRef")?;
                    let (x, v, q) = read_private(evs, p + 1, reals)?;
                    let ghost found = private_scan(ev, reals@, p + 1, None, None)->Ok_0;
                    if let Some(x) = x {
                        put_position(&mut positions, entity.clone(), x);
                    }
                    if let Some(v) = v {
                        put_speed(&mut speeds, entity, v);
                    }
                    proof {
                        ps = put_some(ps, entity@, found.0);
                        ss = put_some(ss, entity@, found.1);
                    }
                    p = q;
                } else {
                    p = p + 1;
                }
            },
            DocEvent::Close(name) => {
                if str_eq(name.as_str(), "Init") {
                    return Ok((positions, speeds, p + 1));
                }
                p = p + 1;
            },
            DocEvent::End => {
                return Ok((positions, speeds, p));
            },
            DocEvent::Failed(m) => {
                return Err(ScenarioError::Xml(m.clone()));
            },
            _ => {
                p = p + 1;
            },
        }
    }
    Ok((positions, speeds, p))
}

/// The catalog and entry names of a catalog reference.
pub type CatalogModel = (Seq<char>, Seq<char>);

/// Reads the attributes of a `CatalogReference` from the `i`-th on.
pub open spec fn catalog_scan(v: Seq<(Seq<char>, Seq<char>)>, i: int, c: CatalogModel) -> Result<CatalogModel, ScenarioErrorView>
    decreases v.len() - i,
{
    if i < 0 || i >= v.len() {
        Ok(c)
    } else if v[i].0 == "catalogName"@ || v[i].0 == "entryName"@ {
        match attribute_text(v[i].1) {
            Err(m) => Err(ScenarioErrorView::Xml(m)),
            Ok(t) => catalog_scan(v, i + 1, if v[i].0 == "catalogName"@ { (t, c.1) } else { (c.0, t) }),
        }
    } else {
        catalog_scan(v, i + 1, c)
    }
}

/// What a `CatalogReference` tag reads to: its catalog and entry names (the
/// last of each, references replaced); a malformed attribute is a parse error.
pub open spec fn catalog_ref_of(a: Result<Seq<(Seq<char>, Seq<char>)>, Seq<char>>) -> Result<CatalogModel, ScenarioErrorView> {
    match a {
        Err(m) => Err(ScenarioErrorView::Parse(m)),
        Ok(v) => catalog_scan(v, 0, (Seq::empty(), Seq::empty())),
    }
}

/// The catalog reference is the one the model gives.
pub open spec fn stands_for_catalog(c: CatalogReference, m: CatalogModel) -> bool {
    c.path@ == m.0 && c.entry_name@ == m.1
}

/// An optional catalog reference is the one the model gives.
pub open spec fn stands_for_opt_catalog(c: Option<CatalogReference>, m: Option<CatalogModel>) -> bool {
    match m {
        None => c is None,
        Some(m) => c matches Some(x) && stands_for_catalog(x, m),
    }
}

/// Reads a `CatalogReference` tag (see [`catalog_ref_of`]).
fn read_catalog_reference(attrs: &Result<Vec<(String, String)>, String>) -> (r: Result<CatalogReference, ScenarioError>)
    ensures
        match catalog_ref_of(attrs_view(*attrs)) {
            Ok(m) => r matches Ok(c) && stands_for_catalog(c, m),
            Err(e) => r matches Err(x) && x@ == e,
        },
{
    let v = match attrs {
        Ok(v) => v,
        Err(m) => {
            return Err(ScenarioError::Parse(m.clone()));
        },
    };
    let ghost w = pair_views(v@);
    let mut path = String::new();
    let mut entry_name = String::new();
    let mut i: usize = 0;
    while i < v.len()
        invariant
            i <= v@.len(),
            w == pair_views(v@),
            attrs_view(*attrs) == Ok::<Seq<(Seq<char>, Seq<char>)>, Seq<char>>(w),
            catalog_scan(w, 0, (Seq::empty(), Seq::empty())) == catalog_scan(w, i as int, (path@, entry_name@)),
        decreases v@.len() - i,
    {
        assert(w[i as int] == (v@[i as int].0@, v@[i as int].1@));
        let key = v[i].0.as_str();
        if str_eq(key, "catalogName") || str_eq(key, "entryName") {
            let t = match read_attribute_text(v[i].1.as_str()) {
                Ok(t) => t,
                Err(m) => {
                    return Err(ScenarioError::Xml(m));
                },
            };
            if str_eq(key, "catalogName") {
                path = t;
            } else {
                entry_name = t;
            }
        }
        i = i + 1;
    }
    Ok(CatalogReference { path, entry_name })
}

/// The `mass` a `Property` tag gives: when its (last) name is `mass` and its
/// (last) value denotes a number.
pub open spec fn property_mass_of(a: Result<Seq<(Seq<char>, Seq<char>)>, Seq<char>>, reals: Seq<(String, Real)>) -> Option<Real> {
    let name = match last_value_of(a, "name"@) {
        Some(n) => n,
        None => Seq::empty(),
    };
    let value = match last_value_of(a, "value"@) {
        Some(n) => n,
        None => Seq::empty(),
    };
    if name == "mass"@ {
        number_of(reals, value)
    } else {
        None
    }
}

/// Reads the mass of a `Property` tag (see [`property_mass_of`]).
fn property_mass(attrs: &Result<Vec<(String, String)>, String>, reals: &Vec<(String, Real)>) -> (r: Option<Real>)
    ensures
        r == property_mass_of(attrs_view(*attrs), reals@),
{
    let name = match last_value(attrs, "name") {
        Some(n) => n.as_str(),
        None => "",
    };
    let value = match last_value(attrs, "value") {
        Some(n) => n.as_str(),
        None => "",
    };
    proof {
        reveal_strlit("");
        assert(name@ == match last_value_of(attrs_view(*attrs), "name"@) {
            Some(n) => n,
            None => Seq::<char>::empty(),
        });
        assert(value@ == match last_value_of(attrs_view(*attrs), "value"@) {
            Some(n) => n,
            None => Seq::<char>::empty(),
        });
    }
    if str_eq(name, "mass") {
        lookup_number(reals, value)
    } else {
        None
    }
}

/// An entity as a document gives it.
pub enum EntityModel {
    Vehicle { name: Seq<char>, category: VehicleCategory, catalog: Option<CatalogModel> },
    Pedestrian { name: Seq<char>, catalog: Option<CatalogModel>, model: Option<Seq<char>>, mass: Option<Real> },
    MiscObject { name: Seq<char>, category: Option<Seq<char>>, mass: Option<Real> },
    Referenced { name: Seq<char>, kind: EntityKind, catalog: CatalogModel },
}

/// The kind of entity a catalog reference alone stands for.
pub enum EntityKind {
    Vehicle,
    Pedestrian,
    MiscObject,
}

/// The name of a modelled entity.
pub open spec fn model_name(m: EntityModel) -> Seq<char> {
    match m {
        EntityModel::Vehicle { name, .. } => name,
        EntityModel::Pedestrian { name, .. } => name,
        EntityModel::MiscObject { name, .. } => name,
        EntityModel::Referenced { name, .. } => name,
    }
}

/// The optional text behind an optional string.
pub open spec fn opt_string(o: Option<String>) -> Option<Seq<char>> {
    match o {
        Some(s) => Some(s@),
        None => None,
    }
}

/// The entity is the one the model gives.
pub open spec fn stands_for_entity(x: Entity, m: EntityModel) -> bool {
    match m {
        EntityModel::Vehicle { name, category, catalog } => x matches Entity::Vehicle(v) && v.name@ == name
            && v.params.vehicle_category == category && stands_for_opt_catalog(v.params.catalog, catalog)
            && v.params.properties is None,
        EntityModel::Pedestrian { name, catalog, model, mass } => x matches Entity::Pedestrian(v) && v.name@ == name
            && stands_for_opt_catalog(v.params.catalog, catalog) && opt_string(v.params.model) == model
            && v.params.mass == mass,
        EntityModel::MiscObject { name, category, mass } => x matches Entity::MiscObject(v) && v.name@ == name
            && v.params.catalog is None && opt_string(v.params.category) == category && v.params.mass == mass,
        EntityModel::Referenced { name, kind, catalog } => match kind {
            EntityKind::Pedestrian => x matches Entity::Pedestrian(v) && v.name@ == name
                && stands_for_opt_catalog(v.params.catalog, Some(catalog)) && v.params.model is None
                && v.params.mass is None,
            EntityKind::MiscObject => x matches Entity::MiscObject(v) && v.name@ == name
                && stands_for_opt_catalog(v.params.catalog, Some(catalog)) && v.params.category is None
                && v.params.mass is None,
            EntityKind::Vehicle => x matches Entity::Vehicle(v) && v.name@ == name
                && stands_for_opt_catalog(v.params.catalog, Some(catalog))
                && v.params.vehicle_category == VehicleCategory::Car && v.params.properties is None,
        },
    }
}

/// The category a vehicle tag names (any letter case); a car when it names none.
pub open spec fn vehicle_category_of(a: Result<Seq<(Seq<char>, Seq<char>)>, Seq<char>>) -> VehicleCategory {
    match first_value_of(a, "vehicleCategory"@) {
        Some(c) => match category_of_label(lowercase(c)) {
            Some(x) => x,
            None => VehicleCategory::Car,
        },
        None => VehicleCategory::Car,
    }
}

/// Reads the body of a `Vehicle` from event `p` on: its last catalog reference.
pub open spec fn vehicle_scan(e: Seq<DocEventView>, p: int, catalog: Option<CatalogModel>) -> Result<
    (Option<CatalogModel>, int),
    ScenarioErrorView,
>
    decreases e.len() - p,
{
    if p < 0 || p >= e.len() {
        Ok((catalog, p))
    } else {
        match e[p] {
            DocEventView::Empty { name, attributes } => if name == "CatalogReference"@ {
                match catalog_ref_of(attributes) {
                    Err(x) => Err(x),
                    Ok(c) => vehicle_scan(e, p + 1, Some(c)),
                }
            } else {
                vehicle_scan(e, p + 1, catalog)
            },
            DocEventView::Close { name } => if name == "Vehicle"@ {
                Ok((catalog, p + 1))
            } else {
                vehicle_scan(e, p + 1, catalog)
            },
            DocEventView::End => Ok((catalog, p)),
            DocEventView::Failed(m) => Err(ScenarioErrorView::Xml(m)),
            _ => vehicle_scan(e, p + 1, catalog),
        }
    }
}

/// Reads the body of a `Vehicle` (see [`vehicle_scan`]).
fn read_vehicle(evs: &Vec<DocEvent>, pos: usize, name: &str, attrs: &Result<Vec<(String, String)>, String>) -> (r: Result<
    (Entity, usize),
    ScenarioError,
>)
    requires
        pos <= evs@.len(),
    ensures
        r matches Ok((_, q)) ==> pos <= q <= evs@.len(),
        match vehicle_scan(doc_event_views(evs@), pos as int, None) {
            Ok((c, q)) => r matches Ok((x, k)) && k == q && stands_for_entity(
                x,
                EntityModel::Vehicle { name: name@, category: vehicle_category_of(attrs_view(*attrs)), catalog: c },
            ),
            Err(e) => r matches Err(x) && x@ == e,
        },
{
    let vehicle_category = match first_value(attrs, "vehicleCategory") {
        Some(c) => match VehicleCategory::from_name(c.as_str()) {
            Some(c) => c,
            None => VehicleCategory::Car,
        },
        None => VehicleCategory::Car,
    };
    let ghost ev = doc_event_views(evs@);
    let ghost whole = vehicle_scan(ev, pos as int, None);
    let mut catalog: Option<CatalogReference> = None;
    let ghost mut cm: Option<CatalogModel> = None;
    let mut p = pos;
    while p < evs.len()
        invariant
            pos <= p <= evs@.len(),
            ev == doc_event_views(evs@),
            whole == vehicle_scan(ev, pos as int, None),
            whole == vehicle_scan(ev, p as int, cm),
            stands_for_opt_catalog(catalog, cm),
            vehicle_category == vehicle_category_of(attrs_view(*attrs)),
        decreases evs@.len() - p,
    {
        assert(ev[p as int] == evs@[p as int]@);
        match &evs[p] {
            DocEvent::Empty((tag, attributes)) => {
                if str_eq(tag.as_str(), "CatalogReference") {
                    catalog = Some(read_catalog_reference(attributes)?);
                    proof {
                        cm = Some(catalog_ref_of(attrs_view(*attributes))->Ok_0);
                    }
                }
                p = p + 1;
            },
            DocEvent::Close(tag) => {
                if str_eq(tag.as_str(), "Vehicle") {
                    p = p + 1;
                    let params = VehicleParams { catalog, vehicle_category, properties: None };
                    return Ok((Entity::Vehicle(Vehicle { name: owned(name), params }), p));
                }
                p = p + 1;
            },
            DocEvent::End => {
                let params = VehicleParams { catalog, vehicle_category, properties: None };
                return Ok((Entity::Vehicle(Vehicle { name: owned(name), params }), p));
            },
            DocEvent::Failed(m) => {
                return Err(ScenarioError::Xml(m.clone()));
            },
            _ => {
                p = p + 1;
            },
        }
    }
    let params = VehicleParams { catalog, vehicle_category, properties: None };
    Ok((Entity::Vehicle(Vehicle { name: owned(name), params }), p))
}

/// Reads the body of a `Pedestrian` from event `p` on: its last catalog
/// reference and the last mass its properties give.
pub open spec fn pedestrian_scan(
    e: Seq<DocEventView>,
    reals: Seq<(String, Real)>,
    p: int,
    catalog: Option<CatalogModel>,
    mass: Option<Real>,
) -> Result<(Option<CatalogModel>, Option<Real>, int), ScenarioErrorView>
    decreases e.len() - p,
{
    if p < 0 || p >= e.len() {
        Ok((catalog, mass, p))
    } else {
        match e[p] {
            DocEventView::Empty { name, attributes } => if name == "CatalogReference"@ {
                match catalog_ref_of(attributes) {
                    Err(x) => Err(x),
                    Ok(c) => pedestrian_scan(e, reals, p + 1, Some(c), mass),
                }
            } else if name == "Property"@ {
                pedestrian_scan(e, reals, p + 1, catalog, match property_mass_of(attributes, reals) {
                    Some(m) => Some(m),
                    None => mass,
                })
            } else {
                pedestrian_scan(e, reals, p + 1, catalog, mass)
            },
            DocEventView::Close { name } => if name == "Pedestrian"@ {
                Ok((catalog, mass, p + 1))
            } else {
                pedestrian_scan(e, reals, p + 1, catalog, mass)
            },
            DocEventView::End => Ok((catalog, mass, p)),
            DocEventView::Failed(m) => Err(ScenarioErrorView::Xml(m)),
            _ => pedestrian_scan(e, reals, p + 1, catalog, mass),
        }
    }
}

/// Reads the body of a `Pedestrian` (see [`pedestrian_scan`]); its model is
/// the last `model3d` of its tag.
fn read_pedestrian(
    evs: &Vec<DocEvent>,
    pos: usize,
    name: &str,
    attrs: &Result<Vec<(String, String)>, String>,
    reals: &Vec<(String, Real)>,
) -> (r: Result<(Entity, usize), ScenarioError>)
    requires
        pos <= evs@.len(),
    ensures
        r matches Ok((_, q)) ==> pos <= q <= evs@.len(),
        match pedestrian_scan(doc_event_views(evs@), reals@, pos as int, None, None) {
            Ok((c, m, q)) => r matches Ok((x, k)) && k == q && stands_for_entity(
                x,
                EntityModel::Pedestrian { name: name@, catalog: c, model: last_value_of(attrs_view(*attrs), "model3d"@), mass: m },
            ),
            Err(e) => r matches Err(x) && x@ == e,
        },
{
    let model = match last_value(attrs, "model3d") {
        Some(m) => Some(m.clone()),
        None => None,
    };
    let ghost ev = doc_event_views(evs@);
    let ghost whole = pedestrian_scan(ev, reals@, pos as int, None, None);
    let mut catalog: Option<CatalogReference> = None;
    let ghost mut cm: Option<CatalogModel> = None;
    let mut mass: Option<Real> = None;
    let mut p = pos;
    while p < evs.len()
        invariant
            pos <= p <= evs@.len(),
            ev == doc_event_views(evs@),
            whole == pedestrian_scan(ev, reals@, pos as int, None, None),
            whole == pedestrian_scan(ev, reals@, p as int, cm, mass),
            stands_for_opt_catalog(catalog, cm),
            opt_string(model) == last_value_of(attrs_view(*attrs), "model3d"@),
        decreases evs@.len() - p,
    {
        assert(ev[p as int] == evs@[p as int]@);
        match &evs[p] {
            DocEvent::Empty((tag, attributes)) => {
                if str_eq(tag.as_str(), "CatalogReference") {
                    catalog = Some(read_catalog_reference(attributes)?);
                    proof {
                        cm = Some(catalog_ref_of(attrs_view(*attributes))->Ok_0);
                    }
                } else if str_eq(tag.as_str(), "Property") {
                    if let Some(m) = property_mass(attributes, reals) {
                        mass = Some(m);
                    }
                }
                p = p + 1;
            },
            DocEvent::Close(tag) => {
                if str_eq(tag.as_str(), "Pedestrian") {
                    let params = PedestrianParams { catalog, model, mass };
                    return Ok((Entity::Pedestrian(Pedestrian { name: owned(name), params }), p + 1));
                }
                p = p + 1;
            },
            DocEvent::End => {
                let params = PedestrianParams { catalog, model, mass };
                return Ok((Entity::Pedestrian(Pedestrian { name: owned(name), params }), p));
            },
            DocEvent::Failed(m) => {
                return Err(ScenarioError::Xml(m.clone()));
            },
            _ => {
                p = p + 1;
            },
        }
    }
    let params = PedestrianParams { catalog, model, mass };
    Ok((Entity::Pedestrian(Pedestrian { name: owned(name), params }), p))
}

/// Reads the body of a `MiscObject` from event `p` on: the last mass its
/// properties give.
pub open spec fn misc_scan(e: Seq<DocEventView>, reals: Seq<(String, Real)>, p: int, mass: Option<Real>) -> Result<
    (Option<Real>, int),
    ScenarioErrorView,
>
    decreases e.len() - p,
{
    if p < 0 || p >= e.len() {
        Ok((mass, p))
    } else {
        match e[p] {
            DocEventView::Empty { name, attributes } => if name == "Property"@ {
                misc_scan(e, reals, p + 1, match property_mass_of(attributes, reals) {
                    Some(m) => Some(m),
                    None => mass,
                })
            } else {
                misc_scan(e, reals, p + 1, mass)
            },
            DocEventView::Close { name } => if name == "MiscObject"@ {
                Ok((mass, p + 1))
            } else {
                misc_scan(e, reals, p + 1, mass)
            },
            DocEventView::End => Ok((mass, p)),
            DocEventView::Failed(m) => Err(ScenarioErrorView::Xml(m)),
            _ => misc_scan(e, reals, p + 1, mass),
        }
    }
}

/// Reads the body of a `MiscObject` (see [`misc_scan`]); its category is the
/// last `miscObjectCategory` of its tag.
fn read_misc_object(
    evs: &Vec<DocEvent>,
    pos: usize,
    name: &str,
    attrs: &Result<Vec<(String, String)>, String>,
    reals: &Vec<(String, Real)>,
) -> (r: Result<(Entity, usize), ScenarioError>)
    requires
        pos <= evs@.len(),
    ensures
        r matches Ok((_, q)) ==> pos <= q <= evs@.len(),
        match misc_scan(doc_event_views(evs@), reals@, pos as int, None) {
            Ok((m, q)) => r matches Ok((x, k)) && k == q && stands_for_entity(
                x,
                EntityModel::MiscObject { name: name@, category: last_value_of(attrs_view(*attrs), "miscObjectCategory"@), mass: m },
            ),
            Err(e) => r matches Err(x) && x@ == e,
        },
{
    let category = match last_value(attrs, "miscObjectCategory") {
        Some(m) => Some(m.clone()),
        None => None,
    };
    let ghost ev = doc_event_views(evs@);
    let ghost whole = misc_scan(ev, reals@, pos as int, None);
    let mut mass: Option<Real> = None;
    let mut p = pos;
    while p < evs.len()
        invariant
            pos <= p <= evs@.len(),
            ev == doc_event_views(evs@),
            whole == misc_scan(ev, reals@, pos as int, None),
            whole == misc_scan(ev, reals@, p as int, mass),
            opt_string(category) == last_value_of(attrs_view(*attrs), "miscObjectCategory"@),
        decreases evs@.len() - p,
    {
        assert(ev[p as int] == evs@[p as int]@);
        match &evs[p] {
            DocEvent::Empty((tag, attributes)) => {
                if str_eq(tag.as_str(), "Property") {
                    if let Some(m) = property_mass(attributes, reals) {
                        mass = Some(m);
                    }
                }
                p = p + 1;
            },
            DocEvent::Close(tag) => {
                if str_eq(tag.as_str(), "MiscObject") {
                    let params = MiscObjectParams { catalog: None, category, mass };
                    return Ok((Entity::MiscObject(MiscObject { name: owned(name), params }), p + 1));
                }
                p = p + 1;
            },
            DocEvent::End => {
                let params = MiscObjectParams { catalog: None, category, mass };
                return Ok((Entity::MiscObject(MiscObject { name: owned(name), params }), p));
            },
            DocEvent::Failed(m) => {
                return Err(ScenarioError::Xml(m.clone()));
            },
            _ => {
                p = p + 1;
            },
        }
    }
    let params = MiscObjectParams { catalog: None, category, mass };
    Ok((Entity::MiscObject(MiscObject { name: owned(name), params }), p))
}

/// The kind of entity a catalog reference stands for, by its catalog name
/// in lower case: pedestrians and miscellaneous objects are told apart;
/// anything else is a car.
pub open spec fn referenced_kind(path: Seq<char>) -> EntityKind {
    let lower = lowercase(path);
    if exists|i: int| occurs_at(lower, "pedestrian"@, i) {
        EntityKind::Pedestrian
    } else if (exists|i: int| occurs_at(lower, "miscobject"@, i)) || (exists|i: int| occurs_at(lower, "misc_object"@, i)) {
        EntityKind::MiscObject
    } else {
        EntityKind::Vehicle
    }
}

/// The entity a catalog reference alone stands for (see [`referenced_kind`]).
fn referenced_entity(name: &str, catalog: CatalogReference) -> (r: Entity)
    ensures
        stands_for_entity(
            r,
            EntityModel::Referenced {
                name: name@,
                kind: referenced_kind(catalog.path@),
                catalog: (catalog.path@, catalog.entry_name@),
            },
        ),
{
    let lower = to_lowercase(catalog.path.as_str());
    if has_part(lower.as_str(), "pedestrian") {
        Entity::Pedestrian(Pedestrian {
            name: owned(name),
            params: PedestrianParams { catalog: Some(catalog), model: None, mass: None },
        })
    } else if has_part(lower.as_str(), "miscobject") || has_part(lower.as_str(), "misc_object") {
        Entity::MiscObject(MiscObject {
            name: owned(name),
            params: MiscObjectParams { catalog: Some(catalog), category: None, mass: None },
        })
    } else {
        Entity::Vehicle(Vehicle {
            name: owned(name),
            params: VehicleParams { catalog: Some(catalog), vehicle_category: VehicleCategory::Car, properties: None },
        })
    }
}

/// Reads the body of a `ScenarioObject` called `name` from event `p` on,
/// with the entity defined so far.
pub open spec fn object_scan(
    e: Seq<DocEventView>,
    reals: Seq<(String, Real)>,
    p: int,
    name: Seq<char>,
    ent: Option<EntityModel>,
) -> Result<(Option<EntityModel>, int), ScenarioErrorView>
    decreases e.len() - p,
{
    if p < 0 || p >= e.len() {
        Ok((ent, p))
    } else {
        match e[p] {
            DocEventView::Start { name: tag, attributes } => if tag == "Vehicle"@ {
                match vehicle_scan(e, p + 1, None) {
                    Err(x) => Err(x),
                    Ok((c, q)) => if p < q <= e.len() {
                        object_scan(e, reals, q, name, Some(EntityModel::Vehicle {
                            name,
                            category: vehicle_category_of(attributes),
                            catalog: c,
                        }))
                    } else {
                        Err(ScenarioErrorView::Parse(Seq::empty()))
                    },
                }
            } else if tag == "Pedestrian"@ {
                match pedestrian_scan(e, reals, p + 1, None, None) {
                    Err(x) => Err(x),
                    Ok((c, m, q)) => if p < q <= e.len() {
                        object_scan(e, reals, q, name, Some(EntityModel::Pedestrian {
                            name,
                            catalog: c,
                            model: last_value_of(attributes, "model3d"@),
                            mass: m,
                        }))
                    } else {
                        Err(ScenarioErrorView::Parse(Seq::empty()))
                    },
                }
            } else if tag == "MiscObject"@ {
                match misc_scan(e, reals, p + 1, None) {
                    Err(x) => Err(x),
                    Ok((m, q)) => if p < q <= e.len() {
                        object_scan(e, reals, q, name, Some(EntityModel::MiscObject {
                            name,
                            category: last_value_of(attributes, "miscObjectCategory"@),
                            mass: m,
                        }))
                    } else {
                        Err(ScenarioErrorView::Parse(Seq::empty()))
                    },
                }
            } else {
                match skip_scan(e, p + 1, 1, tag) {
                    Err(x) => Err(x),
                    Ok(q) => if p < q <= e.len() {
                        object_scan(e, reals, q, name, ent)
                    } else {
                        Err(ScenarioErrorView::Parse(Seq::empty()))
                    },
                }
            },
            DocEventView::Empty { name: tag, attributes } => if tag == "CatalogReference"@ {
                match catalog_ref_of(attributes) {
                    Err(x) => Err(x),
                    Ok(c) => object_scan(e, reals, p + 1, name, Some(EntityModel::Referenced {
                        name,
                        kind: referenced_kind(c.0),
                        catalog: c,
                    })),
                }
            } else {
                object_scan(e, reals, p + 1, name, ent)
            },
            DocEventView::Close { name: tag } => if tag == "ScenarioObject"@ {
                Ok((ent, p + 1))
            } else {
                object_scan(e, reals, p + 1, name, ent)
            },
            DocEventView::End => Ok((ent, p)),
            DocEventView::Failed(m) => Err(ScenarioErrorView::Xml(m)),
            _ => object_scan(e, reals, p + 1, name, ent),
        }
    }
}

/// What the body of a `ScenarioObject` reads to: its last entity
/// definition, which it must have.
pub open spec fn object_read(e: Seq<DocEventView>, reals: Seq<(String, Real)>, p: int, name: Seq<char>) -> Result<
    (EntityModel, int),
    ScenarioErrorView,
> {
    match object_scan(e, reals, p, name, None) {
        Err(x) => Err(x),
        Ok((None, _)) => Err(ScenarioErrorView::Parse("No entity definition found in ScenarioObject '"@ + name + "'"@)),
        Ok((Some(m), q)) => Ok((m, q)),
    }
}

/// An optional entity is the one the model gives.
pub open spec fn stands_for_opt_entity(x: Option<Entity>, m: Option<EntityModel>) -> bool {
    match m {
        None => x is None,
        Some(m) => x matches Some(y) && stands_for_entity(y, m),
    }
}

/// Reads the body of a `ScenarioObject` (see [`object_read`]).
fn read_scenario_object(evs: &Vec<DocEvent>, pos: usize, name: &str, reals: &Vec<(String, Real)>) -> (r: Result<
    (Entity, usize),
    ScenarioError,
>)
    requires
        pos <= evs@.len(),
    ensures
        r matches Ok((_, q)) ==> pos <= q <= evs@.len(),
        match object_read(doc_event_views(evs@), reals@, pos as int, name@) {
            Ok((m, q)) => r matches Ok((x, k)) && stands_for_entity(x, m) && k == q,
            Err(e) => r matches Err(x) && x@ == e,
        },
{
    let ghost ev = doc_event_views(evs@);
    let ghost whole = object_scan(ev, reals@, pos as int, name@, None);
    let mut entity: Option<Entity> = None;
    let ghost mut em: Option<EntityModel> = None;
    let mut p = pos;
    while p < evs.len()
        invariant
            pos <= p <= evs@.len(),
            ev == doc_event_views(evs@),
            whole == object_scan(ev, reals@, pos as int, name@, None),
            whole == object_scan(ev, reals@, p as int, name@, em),
            stands_for_opt_entity(entity, em),
        decreases evs@.len() - p,
    {
        assert(ev[p as int] == evs@[p as int]@);
        match &evs[p] {
            DocEvent::Start((tag, attributes)) => {
                if str_eq(tag.as_str(), "Vehicle") {
                    let (e, q) = read_vehicle(evs, p + 1, name, attributes)?;
                    proof {
                        em = Some(EntityModel::Vehicle {
                            name: name@,
                            category: vehicle_category_of(attrs_view(*attributes)),
                            catalog: vehicle_scan(ev, p + 1, None)->Ok_0.0,
                        });
                    }
                    entity = Some(e);
                    p = q;
                } else if str_eq(tag.as_str(), "Pedestrian") {
                    let (e, q) = read_pedestrian(evs, p + 1, name, attributes, reals)?;
                    proof {
                        let f = pedestrian_scan(ev, reals@, p + 1, None, None)->Ok_0;
                        em = Some(EntityModel::Pedestrian {
                            name: name@,
                            catalog: f.0,
                            model: last_value_of(attrs_view(*attributes), "model3d"@),
                            mass: f.1,
                        });
                    }
                    entity = Some(e);
                    p = q;
                } else if str_eq(tag.as_str(), "MiscObject") {
                    let (e, q) = read_misc_object(evs, p + 1, name, attributes, reals)?;
                    proof {
                        em = Some(EntityModel::MiscObject {
                            name: name@,
                            category: last_value_of(attrs_view(*attributes), "miscObjectCategory"@),
                            mass: misc_scan(ev, reals@, p + 1, None)->Ok_0.0,
                        });
                    }
                    entity = Some(e);
                    p = q;
                } else {
                    p = skip_element(evs, p + 1, tag.as_str())?;
                }
            },
            DocEvent::Empty((tag, attributes)) => {
                if str_eq(tag.as_str(), "CatalogReference") {
                    let c = read_catalog_reference(attributes)?;
                    proof {
                        let cm = catalog_ref_of(attrs_view(*attributes))->Ok_0;
                        em = Some(EntityModel::Referenced { name: name@, kind: referenced_kind(cm.0), catalog: cm });
                    }
                    entity = Some(referenced_entity(name, c));
                }
                p = p + 1;
            },
            DocEvent::Close(tag) => {
                if str_eq(tag.as_str(), "ScenarioObject") {
                    return match entity {
                        Some(e) => Ok((e, p + 1)),
                        None => Err(ScenarioError::Parse(concat3("No entity definition found in ScenarioObject '", name, "'"))),
                    };
                }
                p = p + 1;
            },
            DocEvent::End => {
                return match entity {
                    Some(e) => Ok((e, p)),
                    None => Err(ScenarioError::Parse(concat3("No entity definition found in ScenarioObject '", name, "'"))),
                };
            },
            DocEvent::Failed(m) => {
                return Err(ScenarioError::Xml(m.clone()));
            },
            _ => {
                p = p + 1;
            },
        }
    }
    match entity {
        Some(e) => Ok((e, p)),
        None => Err(ScenarioError::Parse(concat3("No entity definition found in ScenarioObject '", name, "'"))),
    }
}

/// The names of modelled entities.
pub open spec fn model_names(m: Seq<EntityModel>) -> Seq<Seq<char>> {
    m.map_values(|x: EntityModel| model_name(x))
}

/// The entity list with `m` in place of the first of its name, or added.
pub open spec fn put_entity_model(ents: Seq<EntityModel>, m: EntityModel) -> Seq<EntityModel> {
    let i = first_index(model_names(ents), model_name(m));
    if i >= 0 {
        ents.update(i, m)
    } else {
        ents.push(m)
    }
}

/// The entities are those the models give.
pub open spec fn entities_stand_for(v: Seq<Entity>, m: Seq<EntityModel>) -> bool {
    &&& v.len() == m.len()
    &&& forall|i: int| 0 <= i < v.len() ==> stands_for_entity(#[trigger] v[i], m[i])
}

/// An entity has the name of the model it stands for.
pub proof fn lemma_entity_name(x: Entity, m: EntityModel)
    requires
        stands_for_entity(x, m),
    ensures
        x.spec_name() == model_name(m),
{
}

/// Adds an entity, replacing an earlier one of the same name.
fn put_entity(v: &mut Vec<Entity>, e: Entity)
    ensures
        distinct(entity_names(old(v)@)) ==> distinct(entity_names(final(v)@)),
        forall|ms: Seq<EntityModel>, m: EntityModel| entities_stand_for(old(v)@, ms) && stands_for_entity(e, m)
            ==> entities_stand_for(final(v)@, put_entity_model(ms, m)),
{
    let ghost before = entity_names(v@);
    let ghost given = e;
    let ghost old_v = v@;
    let mut i: usize = 0;
    while i < v.len()
        invariant
            i <= v@.len(),
            before == entity_names(v@),
            v@ == old(v)@,
            old_v == old(v)@,
            given == e,
            forall|j: int| 0 <= j < i ==> before[j] != e.spec_name(),
        decreases v@.len() - i,
    {
        if str_eq(v[i].name(), e.name()) {
            v.set(i, e);
            assert(entity_names(v@) =~= before);
            proof {
                lemma_first_index(before, given.spec_name(), i as int);
                assert forall|ms: Seq<EntityModel>, m: EntityModel| entities_stand_for(old_v, ms)
                    && stands_for_entity(given, m) implies entities_stand_for(v@, put_entity_model(ms, m)) by {
                    lemma_entity_name(given, m);
                    assert forall|k: int| 0 <= k < ms.len() implies model_names(ms)[k] == before[k] by {
                        lemma_entity_name(old_v[k], ms[k]);
                    }
                    assert(model_names(ms) =~= before);
                }
            }
            return;
        }
        i = i + 1;
    }
    v.push(e);
    proof {
        assert(entity_names(v@) =~= before.push(given.spec_name()));
        lemma_first_index(before, given.spec_name(), i as int);
        assert forall|ms: Seq<EntityModel>, m: EntityModel| entities_stand_for(old_v, ms) && stands_for_entity(given, m)
            implies entities_stand_for(v@, put_entity_model(ms, m)) by {
            lemma_entity_name(given, m);
            assert forall|k: int| 0 <= k < ms.len() implies model_names(ms)[k] == before[k] by {
                lemma_entity_name(old_v[k], ms[k]);
            }
            assert(model_names(ms) =~= before);
            assert forall|k: int| 0 <= k < v@.len() implies stands_for_entity(#[trigger] v@[k], put_entity_model(ms, m)[k]) by {
                if k < old_v.len() {
                    assert(v@[k] == old_v[k]);
                }
            }
        }
    }
}

/// Reads the body of `Entities` from event `p` on: at most 10,000 scenario
/// objects, named apart (a later one of a name replaces the earlier).
pub open spec fn entities_scan(e: Seq<DocEventView>, reals: Seq<(String, Real)>, p: int, ents: Seq<EntityModel>) -> Result<
    (Seq<EntityModel>, int),
    ScenarioErrorView,
>
    decreases e.len() - p,
{
    if p < 0 || p >= e.len() {
        Ok((ents, p))
    } else {
        match e[p] {
            DocEventView::Start { name: tag, attributes } => if tag == "ScenarioObject"@ {
                if ents.len() >= 10000 {
                    Err(ScenarioErrorView::Parse("Too many entities (>10000). Possible malicious file."@))
                } else {
                    match first_text_of(attributes, "name"@) {
                        Err(x) => Err(x),
                        Ok(name) => match object_read(e, reals, p + 1, name) {
                            Err(x) => Err(x),
                            Ok((m, q)) => if p < q <= e.len() {
                                entities_scan(e, reals, q, put_entity_model(ents, m))
                            } else {
                                Err(ScenarioErrorView::Parse(Seq::empty()))
                            },
                        },
                    }
                }
            } else {
                entities_scan(e, reals, p + 1, ents)
            },
            DocEventView::Close { name } => if name == "Entities"@ {
                Ok((ents, p + 1))
            } else {
                entities_scan(e, reals, p + 1, ents)
            },
            DocEventView::End => Ok((ents, p)),
            DocEventView::Failed(m) => Err(ScenarioErrorView::Xml(m)),
            _ => entities_scan(e, reals, p + 1, ents),
        }
    }
}

/// Reads the body of `Entities` (see [`entities_scan`]).
fn read_entities(evs: &Vec<DocEvent>, pos: usize, reals: &Vec<(String, Real)>) -> (r: Result<
    (Vec<Entity>, usize),
    ScenarioError,
>)
    requires
        pos <= evs@.len(),
    ensures
        r matches Ok((_, q)) ==> pos <= q <= evs@.len(),
        r matches Ok((v, _)) ==> distinct(entity_names(v@)),
        match entities_scan(doc_event_views(evs@), reals@, pos as int, Seq::empty()) {
            Ok((ms, q)) => r matches Ok((v, k)) && entities_stand_for(v@, ms) && k == q,
            Err(e) => r matches Err(x) && x@ == e,
        },
{
    let ghost ev = doc_event_views(evs@);
    let ghost whole = entities_scan(ev, reals@, pos as int, Seq::empty());
    let mut entities: Vec<Entity> = Vec::new();
    let ghost mut ms: Seq<EntityModel> = Seq::empty();
    let mut p = pos;
    while p < evs.len()
        invariant
            pos <= p <= evs@.len(),
            ev == doc_event_views(evs@),
            whole == entities_scan(ev, reals@, pos as int, Seq::empty()),
            whole == entities_scan(ev, reals@, p as int, ms),
            entities_stand_for(entities@, ms),
            distinct(entity_names(entities@)),
        decreases evs@.len() - p,
    {
        assert(ev[p as int] == evs@[p as int]@);
        match &evs[p] {
            DocEvent::Start((tag, attributes)) => {
                if str_eq(tag.as_str(), "ScenarioObject") {
                    if entities.len() >= 10000 {
                        return Err(ScenarioError::Parse(owned("Too many entities (>10000). Possible malicious file.")));
                    }
                    let name = first_text(attributes, "name")?;
                    let (e, q) = read_scenario_object(evs, p + 1, name.as_str(), reals)?;
                    proof {
                        ms = put_entity_model(ms, object_read(ev, reals@, p + 1, name@)->Ok_0.0);
                    }
                    put_entity(&mut entities, e);
                    p = q;
                } else {
                    p = p + 1;
                }
            },
            DocEvent::Close(tag) => {
                if str_eq(tag.as_str(), "Entities") {
                    return Ok((entities, p + 1));
                }
                p = p + 1;
            },
            DocEvent::End => {
                return Ok((entities, p));
            },
            DocEvent::Failed(m) => {
                return Err(ScenarioError::Xml(m.clone()));
            },
            _ => {
                p = p + 1;
            },
        }
    }
    Ok((entities, p))
}

/// The name, type and value of a declared parameter.
pub type ParameterModel = (Seq<char>, ParameterType, Seq<char>);

/// What a `ParameterDeclaration` tag declares: its (last) name, type
/// (a string when none or an unknown one) and value.
pub open spec fn declaration_of(a: Result<Seq<(Seq<char>, Seq<char>)>, Seq<char>>) -> ParameterModel {
    (
        match last_value_of(a, "name"@) {
            Some(x) => x,
            None => Seq::empty(),
        },
        match last_value_of(a, "parameterType"@) {
            Some(x) => spec_parse_parameter_type(x),
            None => ParameterType::String,
        },
        match last_value_of(a, "value"@) {
            Some(x) => x,
            None => Seq::empty(),
        },
    )
}

/// Reads the body of `ParameterDeclarations` from event `p` on; a malformed
/// attribute is a parse error.
pub open spec fn parameters_scan(e: Seq<DocEventView>, p: int, ps: Seq<ParameterModel>) -> Result<
    (Seq<ParameterModel>, int),
    ScenarioErrorView,
>
    decreases e.len() - p,
{
    if p < 0 || p >= e.len() {
        Ok((ps, p))
    } else {
        match e[p] {
            DocEventView::Empty { name, attributes } => if name == "ParameterDeclaration"@ {
                match attributes {
                    Err(m) => Err(ScenarioErrorView::Parse(m)),
                    Ok(_) => parameters_scan(e, p + 1, ps.push(declaration_of(attributes))),
                }
            } else {
                parameters_scan(e, p + 1, ps)
            },
            DocEventView::Close { name } => if name == "ParameterDeclarations"@ {
                Ok((ps, p + 1))
            } else {
                parameters_scan(e, p + 1, ps)
            },
            DocEventView::End => Ok((ps, p)),
            DocEventView::Failed(m) => Err(ScenarioErrorView::Xml(m)),
            _ => parameters_scan(e, p + 1, ps),
        }
    }
}

/// The declarations are those the models give.
pub open spec fn parameters_stand_for(v: Seq<ParameterDeclaration>, m: Seq<ParameterModel>) -> bool {
    &&& v.len() == m.len()
    &&& forall|i: int| 0 <= i < v.len() ==> (#[trigger] v[i]).name@ == m[i].0 && v[i].parameter_type == m[i].1
        && v[i].value@ == m[i].2
}

/// Reads the body of `ParameterDeclarations` (see [`parameters_scan`]).
fn read_parameters(evs: &Vec<DocEvent>, pos: usize) -> (r: Result<(Vec<ParameterDeclaration>, usize), ScenarioError>)
    requires
        pos <= evs@.len(),
    ensures
        r matches Ok((_, q)) ==> pos <= q <= evs@.len(),
        match parameters_scan(doc_event_views(evs@), pos as int, Seq::empty()) {
            Ok((ms, q)) => r matches Ok((v, k)) && parameters_stand_for(v@, ms) && k == q,
            Err(e) => r matches Err(x) && x@ == e,
        },
{
    let ghost ev = doc_event_views(evs@);
    let ghost whole = parameters_scan(ev, pos as int, Seq::empty());
    let mut parameters: Vec<ParameterDeclaration> = Vec::new();
    let ghost mut ms: Seq<ParameterModel> = Seq::empty();
    let mut p = pos;
    while p < evs.len()
        invariant
            pos <= p <= evs@.len(),
            ev == doc_event_views(evs@),
            whole == parameters_scan(ev, pos as int, Seq::empty()),
            whole == parameters_scan(ev, p as int, ms),
            parameters_stand_for(parameters@, ms),
        decreases evs@.len() - p,
    {
        assert(ev[p as int] == evs@[p as int]@);
        match &evs[p] {
            DocEvent::Empty((tag, attributes)) => {
                if str_eq(tag.as_str(), "ParameterDeclaration") {
                    if let Err(m) = attributes {
                        return Err(ScenarioError::Parse(m.clone()));
                    }
                    let name = match last_value(attributes, "name") {
                        Some(x) => x.clone(),
                        None => String::new(),
                    };
                    let parameter_type = match last_value(attributes, "parameterType") {
                        Some(x) => parse_parameter_type(x.as_str()),
                        None => ParameterType::String,
                    };
                    let value = match last_value(attributes, "value") {
                        Some(x) => x.clone(),
                        None => String::new(),
                    };
                    proof {
                        ms = ms.push(declaration_of(attrs_view(*attributes)));
                    }
                    parameters.push(ParameterDeclaration { name, parameter_type, value });
                }
                p = p + 1;
            },
            DocEvent::Close(tag) => {
                if str_eq(tag.as_str(), "ParameterDeclarations") {
                    return Ok((parameters, p + 1));
                }
                p = p + 1;
            },
            DocEvent::End => {
                return Ok((parameters, p));
            },
            DocEvent::Failed(m) => {
                return Err(ScenarioError::Xml(m.clone()));
            },
            _ => {
                p = p + 1;
            },
        }
    }
    Ok((parameters, p))
}

/// The road network file a `LogicFile` tag names (its first `filepath`), or
/// the one named before when it names none.
pub open spec fn logic_file_of(a: Result<Seq<(Seq<char>, Seq<char>)>, Seq<char>>, road: Option<Seq<char>>) -> Option<Seq<char>> {
    match first_value_of(a, "filepath"@) {
        Some(x) => Some(x),
        None => road,
    }
}

/// Reads the body of `RoadNetwork` from event `p` on: the file of the last
/// `LogicFile`; a malformed attribute is a parse error.
pub open spec fn road_network_scan(e: Seq<DocEventView>, p: int, road: Option<Seq<char>>) -> Result<
    (Option<Seq<char>>, int),
    ScenarioErrorView,
>
    decreases e.len() - p,
{
    if p < 0 || p >= e.len() {
        Ok((road, p))
    } else {
        match e[p] {
            DocEventView::Empty { name, attributes } => if name == "LogicFile"@ {
                match attributes {
                    Err(m) => Err(ScenarioErrorView::Parse(m)),
                    Ok(_) => road_network_scan(e, p + 1, logic_file_of(attributes, road)),
                }
            } else {
                road_network_scan(e, p + 1, road)
            },
            DocEventView::Start { name, attributes } => if name == "LogicFile"@ {
                match attributes {
                    Err(m) => Err(ScenarioErrorView::Parse(m)),
                    Ok(_) => road_network_scan(e, p + 1, logic_file_of(attributes, road)),
                }
            } else {
                road_network_scan(e, p + 1, road)
            },
            DocEventView::Close { name } => if name == "RoadNetwork"@ {
                Ok((road, p + 1))
            } else {
                road_network_scan(e, p + 1, road)
            },
            DocEventView::End => Ok((road, p)),
            DocEventView::Failed(m) => Err(ScenarioErrorView::Xml(m)),
            _ => road_network_scan(e, p + 1, road),
        }
    }
}

/// Reads the body of `RoadNetwork` (see [`road_network_scan`]).
fn read_road_network(evs: &Vec<DocEvent>, pos: usize) -> (r: Result<(Option<String>, usize), ScenarioError>)
    requires
        pos <= evs@.len(),
    ensures
        r matches Ok((_, q)) ==> pos <= q <= evs@.len(),
        match road_network_scan(doc_event_views(evs@), pos as int, None) {
            Ok((m, q)) => r matches Ok((x, k)) && opt_string(x) == m && k == q,
            Err(e) => r matches Err(x) && x@ == e,
        },
{
    let ghost ev = doc_event_views(evs@);
    let ghost whole = road_network_scan(ev, pos as int, None);
    let mut road: Option<String> = None;
    let mut p = pos;
    while p < evs.len()
        invariant
            pos <= p <= evs@.len(),
            ev == doc_event_views(evs@),
            whole == road_network_scan(ev, pos as int, None),
            whole == road_network_scan(ev, p as int, opt_string(road)),
        decreases evs@.len() - p,
    {
        assert(ev[p as int] == evs@[p as int]@);
        let attrs = match &evs[p] {
            DocEvent::Empty((tag, attributes)) => if str_eq(tag.as_str(), "LogicFile") {
                Some(attributes)
            } else {
                None
            },
            DocEvent::Start((tag, attributes)) => if str_eq(tag.as_str(), "LogicFile") {
                Some(attributes)
            } else {
                None
            },
            DocEvent::Close(tag) => {
                if str_eq(tag.as_str(), "RoadNetwork") {
                    return Ok((road, p + 1));
                }
                None
            },
            DocEvent::End => {
                return Ok((road, p));
            },
            DocEvent::Failed(m) => {
                return Err(ScenarioError::Xml(m.clone()));
            },
            _ => None,
        };
        if let Some(attributes) = attrs {
            if let Err(m) = attributes {
                return Err(ScenarioError::Parse(m.clone()));
            }
            if let Some(x) = first_value(attributes, "filepath") {
                road = Some(x.clone());
            }
        }
        p = p + 1;
    }
    Ok((road, p))
}

// ---------------------------------------------------------------------------
// The storyboard.

/// Reads the attributes of `SpeedActionDynamics` from the `i`-th on.
pub open spec fn speed_dynamics_scan(v: Seq<(Seq<char>, Seq<char>)>, reals: Seq<(String, Real)>, i: int, d: TransitionDynamics) -> TransitionDynamics
    decreases v.len() - i,
{
    if i < 0 || i >= v.len() {
        d
    } else {
        let key = v[i].0;
        let raw = v[i].1;
        speed_dynamics_scan(v, reals, i + 1, if key == "dynamicsShape"@ {
            TransitionDynamics { shape: spec_parse_dynamics_shape(raw), ..d }
        } else if key == "dynamicsDimension"@ {
            TransitionDynamics { dimension: spec_parse_dynamics_dimension(raw), ..d }
        } else if key == "value"@ {
            TransitionDynamics { value: number_or_zero_of(reals, raw), ..d }
        } else {
            d
        })
    }
}

/// The dynamics after a `SpeedActionDynamics` tag (unchanged when its
/// attributes are malformed).
pub open spec fn speed_dynamics_of(a: Result<Seq<(Seq<char>, Seq<char>)>, Seq<char>>, reals: Seq<(String, Real)>, d: TransitionDynamics) -> TransitionDynamics {
    match a {
        Ok(v) => speed_dynamics_scan(v, reals, 0, d),
        Err(_) => d,
    }
}

/// The target after a tag holding a number in its (last) `value`: that
/// number (zero when the text is none), or the earlier target without one.
pub open spec fn value_or(a: Result<Seq<(Seq<char>, Seq<char>)>, Seq<char>>, reals: Seq<(String, Real)>, x: Real) -> Real {
    match last_value_of(a, "value"@) {
        Some(raw) => number_or_zero_of(reals, raw),
        None => x,
    }
}

/// Reads the body of a `SpeedAction` from event `p` on.
pub open spec fn speed_scan(e: Seq<DocEventView>, reals: Seq<(String, Real)>, p: int, target: Real, d: TransitionDynamics) -> Result<
    (Action, int),
    ScenarioErrorView,
>
    decreases e.len() - p,
{
    if p < 0 || p >= e.len() {
        Ok((Action::Speed(SpeedAction { target_speed: target, dynamics: d }), p))
    } else {
        match e[p] {
            DocEventView::Empty { name, attributes } => if name == "SpeedActionDynamics"@ {
                speed_scan(e, reals, p + 1, target, speed_dynamics_of(attributes, reals, d))
            } else if name == "AbsoluteTargetSpeed"@ {
                speed_scan(e, reals, p + 1, value_or(attributes, reals, target), d)
            } else {
                speed_scan(e, reals, p + 1, target, d)
            },
            DocEventView::Close { name } => if name == "SpeedAction"@ {
                Ok((Action::Speed(SpeedAction { target_speed: target, dynamics: d }), p + 1))
            } else {
                speed_scan(e, reals, p + 1, target, d)
            },
            DocEventView::End => Ok((Action::Speed(SpeedAction { target_speed: target, dynamics: d }), p)),
            DocEventView::Failed(m) => Err(ScenarioErrorView::Xml(m)),
            _ => speed_scan(e, reals, p + 1, target, d),
        }
    }
}

/// The dynamics a speed action starts from: linear over time, zero value.
pub open spec fn initial_dynamics() -> TransitionDynamics {
    TransitionDynamics { shape: DynamicsShape::Linear, dimension: DynamicsDimension::Time, value: Real { bits: 0 } }
}

/// What the body of a `SpeedAction` reads to (numbers that are missing or
/// not numbers are zero).
pub open spec fn speed_read(e: Seq<DocEventView>, reals: Seq<(String, Real)>, p: int) -> Result<(Action, int), ScenarioErrorView> {
    speed_scan(e, reals, p, Real { bits: 0 }, initial_dynamics())
}

/// The result of reading an action, as values.
pub open spec fn action_result(r: Result<(Action, usize), ScenarioError>) -> Result<(Action, int), ScenarioErrorView> {
    match r {
        Ok((a, q)) => Ok((a, q as int)),
        Err(e) => Err(e@),
    }
}

/// Reads the body of a `SpeedAction` (see [`speed_read`]).
fn read_speed_action(evs: &Vec<DocEvent>, pos: usize, reals: &Vec<(String, Real)>) -> (r: Result<(Action, usize), ScenarioError>)
    requires
        pos <= evs@.len(),
    ensures
        r matches Ok((_, q)) ==> pos <= q <= evs@.len(),
        action_result(r) == speed_read(doc_event_views(evs@), reals@, pos as int),
{
    let ghost ev = doc_event_views(evs@);
    let ghost whole = speed_read(ev, reals@, pos as int);
    let mut target_speed = Real::zero();
    let mut dynamics = TransitionDynamics {
        shape: DynamicsShape::Linear,
        dimension: DynamicsDimension::Time,
        value: Real::zero(),
    };
    let mut p = pos;
    while p < evs.len()
        invariant
            pos <= p <= evs@.len(),
            ev == doc_event_views(evs@),
            whole == speed_read(ev, reals@, pos as int),
            whole == speed_scan(ev, reals@, p as int, target_speed, dynamics),
        decreases evs@.len() - p,
    {
        assert(ev[p as int] == evs@[p as int]@);
        match &evs[p] {
            DocEvent::Empty((tag, attributes)) => {
                if str_eq(tag.as_str(), "SpeedActionDynamics") {
                    if let Ok(v) = attributes {
                        let ghost w = pair_views(v@);
                        let ghost d0 = dynamics;
                        let mut i: usize = 0;
                        while i < v.len()
                            invariant
                                i <= v@.len(),
                                w == pair_views(v@),
                                speed_dynamics_scan(w, reals@, 0, d0) == speed_dynamics_scan(w, reals@, i as int, dynamics),
                            decreases v@.len() - i,
                        {
                            assert(w[i as int] == (v@[i as int].0@, v@[i as int].1@));
                            let key = v[i].0.as_str();
                            let raw = v[i].1.as_str();
                            if str_eq(key, "dynamicsShape") {
                                dynamics.shape = parse_dynamics_shape(raw);
                            } else if str_eq(key, "dynamicsDimension") {
                                dynamics.dimension = parse_dynamics_dimension(raw);
                            } else if str_eq(key, "value") {
                                dynamics.value = number_or_zero(reals, raw);
                            }
                            i = i + 1;
                        }
                    }
                } else if str_eq(tag.as_str(), "AbsoluteTargetSpeed") {
                    if let Some(raw) = last_value(attributes, "value") {
                        target_speed = number_or_zero(reals, raw.as_str());
                    }
                }
                p = p + 1;
            },
            DocEvent::Close(tag) => {
                if str_eq(tag.as_str(), "SpeedAction") {
                    return Ok((Action::Speed(SpeedAction { target_speed, dynamics }), p + 1));
                }
                p = p + 1;
            },
            DocEvent::End => {
                return Ok((Action::Speed(SpeedAction { target_speed, dynamics }), p));
            },
            DocEvent::Failed(m) => {
                return Err(ScenarioError::Xml(m.clone()));
            },
            _ => {
                p = p + 1;
            },
        }
    }
    Ok((Action::Speed(SpeedAction { target_speed, dynamics }), p))
}

/// Reads the attributes of `LaneChangeActionDynamics` from the `i`-th on:
/// the shape and the duration.
pub open spec fn lane_dynamics_scan(v: Seq<(Seq<char>, Seq<char>)>, reals: Seq<(String, Real)>, i: int, d: (TransitionShape, Real)) -> (
    TransitionShape,
    Real,
)
    decreases v.len() - i,
{
    if i < 0 || i >= v.len() {
        d
    } else {
        let key = v[i].0;
        let raw = v[i].1;
        lane_dynamics_scan(v, reals, i + 1, if key == "dynamicsShape"@ {
            (spec_parse_transition_shape(raw), d.1)
        } else if key == "value"@ {
            (d.0, number_or_zero_of(reals, raw))
        } else {
            d
        })
    }
}

/// The shape and duration after a `LaneChangeActionDynamics` tag.
pub open spec fn lane_dynamics_of(a: Result<Seq<(Seq<char>, Seq<char>)>, Seq<char>>, reals: Seq<(String, Real)>, d: (TransitionShape, Real)) -> (
    TransitionShape,
    Real,
) {
    match a {
        Ok(v) => lane_dynamics_scan(v, reals, 0, d),
        Err(_) => d,
    }
}

/// The lane change with these parts.
pub open spec fn lane_change(offset: Real, d: (TransitionShape, Real)) -> Action {
    Action::LaneChange(LaneChangeAction { target_lane_offset: offset, transition_duration: d.1, shape: d.0 })
}

/// Reads the body of a `LaneChangeAction` from event `p` on.
pub open spec fn lane_scan_events(e: Seq<DocEventView>, reals: Seq<(String, Real)>, p: int, offset: Real, d: (TransitionShape, Real)) -> Result<
    (Action, int),
    ScenarioErrorView,
>
    decreases e.len() - p,
{
    if p < 0 || p >= e.len() {
        Ok((lane_change(offset, d), p))
    } else {
        match e[p] {
            DocEventView::Empty { name, attributes } => if name == "LaneChangeActionDynamics"@ {
                lane_scan_events(e, reals, p + 1, offset, lane_dynamics_of(attributes, reals, d))
            } else if name == "RelativeTargetLane"@ {
                lane_scan_events(e, reals, p + 1, value_or(attributes, reals, offset), d)
            } else {
                lane_scan_events(e, reals, p + 1, offset, d)
            },
            DocEventView::Close { name } => if name == "LaneChangeAction"@ {
                Ok((lane_change(offset, d), p + 1))
            } else {
                lane_scan_events(e, reals, p + 1, offset, d)
            },
            DocEventView::End => Ok((lane_change(offset, d), p)),
            DocEventView::Failed(m) => Err(ScenarioErrorView::Xml(m)),
            _ => lane_scan_events(e, reals, p + 1, offset, d),
        }
    }
}

/// What the body of a `LaneChangeAction` reads to: linear, zero duration and
/// offset but for those given.
pub open spec fn lane_change_read(e: Seq<DocEventView>, reals: Seq<(String, Real)>, p: int) -> Result<(Action, int), ScenarioErrorView> {
    lane_scan_events(e, reals, p, Real { bits: 0 }, (TransitionShape::Linear, Real { bits: 0 }))
}

/// Reads the body of a `LaneChangeAction` (see [`lane_change_read`]).
fn read_lane_change(evs: &Vec<DocEvent>, pos: usize, reals: &Vec<(String, Real)>) -> (r: Result<(Action, usize), ScenarioError>)
    requires
        pos <= evs@.len(),
    ensures
        r matches Ok((_, q)) ==> pos <= q <= evs@.len(),
        action_result(r) == lane_change_read(doc_event_views(evs@), reals@, pos as int),
{
    let ghost ev = doc_event_views(evs@);
    let ghost whole = lane_change_read(ev, reals@, pos as int);
    let mut target_lane_offset = Real::zero();
    let mut transition_duration = Real::zero();
    let mut shape = TransitionShape::Linear;
    let mut p = pos;
    while p < evs.len()
        invariant
            pos <= p <= evs@.len(),
            ev == doc_event_views(evs@),
            whole == lane_change_read(ev, reals@, pos as int),
            whole == lane_scan_events(ev, reals@, p as int, target_lane_offset, (shape, transition_duration)),
        decreases evs@.len() - p,
    {
        assert(ev[p as int] == evs@[p as int]@);
        match &evs[p] {
            DocEvent::Empty((tag, attributes)) => {
                if str_eq(tag.as_str(), "LaneChangeActionDynamics") {
                    if let Ok(v) = attributes {
                        let ghost w = pair_views(v@);
                        let ghost d0 = (shape, transition_duration);
                        let mut i: usize = 0;
                        while i < v.len()
                            invariant
                                i <= v@.len(),
                                w == pair_views(v@),
                                lane_dynamics_scan(w, reals@, 0, d0) == lane_dynamics_scan(w, reals@, i as int,
                                    (shape, transition_duration)),
                            decreases v@.len() - i,
                        {
                            assert(w[i as int] == (v@[i as int].0@, v@[i as int].1@));
                            let key = v[i].0.as_str();
                            let raw = v[i].1.as_str();
                            if str_eq(key, "dynamicsShape") {
                                shape = parse_transition_shape(raw);
                            } else if str_eq(key, "value") {
                                transition_duration = number_or_zero(reals, raw);
                            }
                            i = i + 1;
                        }
                    }
                } else if str_eq(tag.as_str(), "RelativeTargetLane") {
                    if let Some(raw) = last_value(attributes, "value") {
                        target_lane_offset = number_or_zero(reals, raw.as_str());
                    }
                }
                p = p + 1;
            },
            DocEvent::Close(tag) => {
                if str_eq(tag.as_str(), "LaneChangeAction") {
                    return Ok((Action::LaneChange(LaneChangeAction { target_lane_offset, transition_duration, shape }), p + 1));
                }
                p = p + 1;
            },
            DocEvent::End => {
                return Ok((Action::LaneChange(LaneChangeAction { target_lane_offset, transition_duration, shape }), p));
            },
            DocEvent::Failed(m) => {
                return Err(ScenarioError::Xml(m.clone()));
            },
            _ => {
                p = p + 1;
            },
        }
    }
    Ok((Action::LaneChange(LaneChangeAction { target_lane_offset, transition_duration, shape }), p))
}

/// What the body of the action element `inner` reads to.
pub open spec fn inner_action_read(e: Seq<DocEventView>, reals: Seq<(String, Real)>, p: int, inner: Seq<char>) -> Result<
    (Action, int),
    ScenarioErrorView,
> {
    if inner == "SpeedAction"@ {
        speed_read(e, reals, p)
    } else {
        lane_change_read(e, reals, p)
    }
}

/// Reads the body of an element `outer` that may hold action elements
/// `inner`, from event `p` on: the last such action.
pub open spec fn holder_scan(
    e: Seq<DocEventView>,
    reals: Seq<(String, Real)>,
    p: int,
    outer: Seq<char>,
    inner: Seq<char>,
    action: Option<Action>,
) -> Result<(Option<Action>, int), ScenarioErrorView>
    decreases e.len() - p,
{
    if p < 0 || p >= e.len() {
        Ok((action, p))
    } else {
        match e[p] {
            DocEventView::Start { name, .. } => if name == inner {
                match inner_action_read(e, reals, p + 1, inner) {
                    Err(x) => Err(x),
                    Ok((a, q)) => if p < q <= e.len() {
                        holder_scan(e, reals, q, outer, inner, Some(a))
                    } else {
                        Err(ScenarioErrorView::Parse(Seq::empty()))
                    },
                }
            } else {
                holder_scan(e, reals, p + 1, outer, inner, action)
            },
            DocEventView::Close { name } => if name == outer {
                Ok((action, p + 1))
            } else {
                holder_scan(e, reals, p + 1, outer, inner, action)
            },
            DocEventView::End => Ok((action, p)),
            DocEventView::Failed(m) => Err(ScenarioErrorView::Xml(m)),
            _ => holder_scan(e, reals, p + 1, outer, inner, action),
        }
    }
}

/// The result of reading an optional action, as values.
pub open spec fn opt_action_result(r: Result<(Option<Action>, usize), ScenarioError>) -> Result<(Option<Action>, int), ScenarioErrorView> {
    match r {
        Ok((a, q)) => Ok((a, q as int)),
        Err(e) => Err(e@),
    }
}

/// Reads the body of an element holding actions (see [`holder_scan`]).
fn read_action_holder(evs: &Vec<DocEvent>, pos: usize, outer: &str, inner: &str, reals: &Vec<(String, Real)>) -> (r: Result<
    (Option<Action>, usize),
    ScenarioError,
>)
    requires
        pos <= evs@.len(),
    ensures
        r matches Ok((_, q)) ==> pos <= q <= evs@.len(),
        opt_action_result(r) == holder_scan(doc_event_views(evs@), reals@, pos as int, outer@, inner@, None),
{
    let ghost ev = doc_event_views(evs@);
    let ghost whole = holder_scan(ev, reals@, pos as int, outer@, inner@, None);
    let mut action: Option<Action> = None;
    let mut p = pos;
    while p < evs.len()
        invariant
            pos <= p <= evs@.len(),
            ev == doc_event_views(evs@),
            whole == holder_scan(ev, reals@, pos as int, outer@, inner@, None),
            whole == holder_scan(ev, reals@, p as int, outer@, inner@, action),
        decreases evs@.len() - p,
    {
        assert(ev[p as int] == evs@[p as int]@);
        if opens(&evs[p], inner) {
            let (a, q) = if str_eq(inner, "SpeedAction") {
                read_speed_action(evs, p + 1, reals)?
            } else {
                read_lane_change(evs, p + 1, reals)?
            };
            action = Some(a);
            p = q;
        } else {
            match &evs[p] {
                DocEvent::Close(tag) => {
                    if str_eq(tag.as_str(), outer) {
                        return Ok((action, p + 1));
                    }
                    p = p + 1;
                },
                DocEvent::End => {
                    return Ok((action, p));
                },
                DocEvent::Failed(m) => {
                    return Err(ScenarioError::Xml(m.clone()));
                },
                _ => {
                    p = p + 1;
                },
            }
        }
    }
    Ok((action, p))
}

/// Reads the body of a storyboard `PrivateAction` from event `p` on: the
/// action of its last longitudinal or lateral action; others are skipped.
pub open spec fn private_action_scan(e: Seq<DocEventView>, reals: Seq<(String, Real)>, p: int, action: Option<Action>) -> Result<
    (Option<Action>, int),
    ScenarioErrorView,
>
    decreases e.len() - p,
{
    if p < 0 || p >= e.len() {
        Ok((action, p))
    } else {
        match e[p] {
            DocEventView::Start { name, .. } => {
                let child = if name == "LongitudinalAction"@ {
                    holder_scan(e, reals, p + 1, "LongitudinalAction"@, "SpeedAction"@, None)
                } else if name == "LateralAction"@ {
                    holder_scan(e, reals, p + 1, "LateralAction"@, "LaneChangeAction"@, None)
                } else {
                    match skip_scan(e, p + 1, 1, name) {
                        Err(x) => Err(x),
                        Ok(q) => Ok((action, q)),
                    }
                };
                match child {
                    Err(x) => Err(x),
                    Ok((a, q)) => if p < q <= e.len() {
                        private_action_scan(e, reals, q, a)
                    } else {
                        Err(ScenarioErrorView::Parse(Seq::empty()))
                    },
                }
            },
            DocEventView::Close { name } => if name == "PrivateAction"@ {
                Ok((action, p + 1))
            } else {
                private_action_scan(e, reals, p + 1, action)
            },
            DocEventView::End => Ok((action, p)),
            DocEventView::Failed(m) => Err(ScenarioErrorView::Xml(m)),
            _ => private_action_scan(e, reals, p + 1, action),
        }
    }
}

/// Reads the body of a storyboard `PrivateAction` (see [`private_action_scan`]).
fn read_private_action(evs: &Vec<DocEvent>, pos: usize, reals: &Vec<(String, Real)>) -> (r: Result<
    (Option<Action>, usize),
    ScenarioError,
>)
    requires
        pos <= evs@.len(),
    ensures
        r matches Ok((_, q)) ==> pos <= q <= evs@.len(),
        opt_action_result(r) == private_action_scan(doc_event_views(evs@), reals@, pos as int, None),
{
    let ghost ev = doc_event_views(evs@);
    let ghost whole = private_action_scan(ev, reals@, pos as int, None);
    let mut action: Option<Action> = None;
    let mut p = pos;
    while p < evs.len()
        invariant
            pos <= p <= evs@.len(),
            ev == doc_event_views(evs@),
            whole == private_action_scan(ev, reals@, pos as int, None),
            whole == private_action_scan(ev, reals@, p as int, action),
        decreases evs@.len() - p,
    {
        assert(ev[p as int] == evs@[p as int]@);
        match &evs[p] {
            DocEvent::Start((tag, _)) => {
                if str_eq(tag.as_str(), "LongitudinalAction") {
                    let (a, q) = read_action_holder(evs, p + 1, "LongitudinalAction", "SpeedAction", reals)?;
                    action = a;
                    p = q;
                } else if str_eq(tag.as_str(), "LateralAction") {
                    let (a, q) = read_action_holder(evs, p + 1, "LateralAction", "LaneChangeAction", reals)?;
                    action = a;
                    p = q;
                } else {
                    p = skip_element(evs, p + 1, tag.as_str())?;
                }
            },
            DocEvent::Close(tag) => {
                if str_eq(tag.as_str(), "PrivateAction") {
                    return Ok((action, p + 1));
                }
                p = p + 1;
            },
            DocEvent::End => {
                return Ok((action, p));
            },
            DocEvent::Failed(m) => {
                return Err(ScenarioError::Xml(m.clone()));
            },
            _ => {
                p = p + 1;
            },
        }
    }
    Ok((action, p))
}

/// Reads the body of an `Action` from event `p` on: the action of its last
/// `PrivateAction`.
pub open spec fn action_scan(e: Seq<DocEventView>, reals: Seq<(String, Real)>, p: int, action: Option<Action>) -> Result<
    (Option<Action>, int),
    ScenarioErrorView,
>
    decreases e.len() - p,
{
    if p < 0 || p >= e.len() {
        Ok((action, p))
    } else {
        match e[p] {
            DocEventView::Start { name, .. } => if name == "PrivateAction"@ {
                match private_action_scan(e, reals, p + 1, None) {
                    Err(x) => Err(x),
                    Ok((a, q)) => if p < q <= e.len() {
                        action_scan(e, reals, q, a)
                    } else {
                        Err(ScenarioErrorView::Parse(Seq::empty()))
                    },
                }
            } else {
                action_scan(e, reals, p + 1, action)
            },
            DocEventView::Close { name } => if name == "Action"@ {
                Ok((action, p + 1))
            } else {
                action_scan(e, reals, p + 1, action)
            },
            DocEventView::End => Ok((action, p)),
            DocEventView::Failed(m) => Err(ScenarioErrorView::Xml(m)),
            _ => action_scan(e, reals, p + 1, action),
        }
    }
}

/// Reads the body of an `Action` (see [`action_scan`]).
fn read_action(evs: &Vec<DocEvent>, pos: usize, reals: &Vec<(String, Real)>) -> (r: Result<(Option<Action>, usize), ScenarioError>)
    requires
        pos <= evs@.len(),
    ensures
        r matches Ok((_, q)) ==> pos <= q <= evs@.len(),
        opt_action_result(r) == action_scan(doc_event_views(evs@), reals@, pos as int, None),
{
    let ghost ev = doc_event_views(evs@);
    let ghost whole = action_scan(ev, reals@, pos as int, None);
    let mut action: Option<Action> = None;
    let mut p = pos;
    while p < evs.len()
        invariant
            pos <= p <= evs@.len(),
            ev == doc_event_views(evs@),
            whole == action_scan(ev, reals@, pos as int, None),
            whole == action_scan(ev, reals@, p as int, action),
        decreases evs@.len() - p,
    {
        assert(ev[p as int] == evs@[p as int]@);
        if opens(&evs[p], "PrivateAction") {
            let (a, q) = read_private_action(evs, p + 1, reals)?;
            action = a;
            p = q;
        } else {
            match &evs[p] {
                DocEvent::Close(tag) => {
                    if str_eq(tag.as_str(), "Action") {
                        return Ok((action, p + 1));
                    }
                    p = p + 1;
                },
                DocEvent::End => {
                    return Ok((action, p));
                },
                DocEvent::Failed(m) => {
                    return Err(ScenarioError::Xml(m.clone()));
                },
                _ => {
                    p = p + 1;
                },
            }
        }
    }
    Ok((action, p))
}

/// A condition on values as a document gives it.
pub enum ValueConditionModel {
    SimulationTime { value: Real, rule: Rule },
    ElementState { element_type: Seq<char>, element_ref: Seq<char>, state: Seq<char> },
    Parameter { parameter_ref: Seq<char>, value: Seq<char>, rule: Rule },
}

/// The condition on values is the one the model gives.
pub open spec fn stands_for_value_condition(c: ByValueCondition, m: ValueConditionModel) -> bool {
    match m {
        ValueConditionModel::SimulationTime { value, rule } => c == ByValueCondition::SimulationTime { value, rule },
        ValueConditionModel::ElementState { element_type, element_ref, state } => c matches
            ByValueCondition::StoryboardElementState { element_type: t, element_ref: r, state: st } && t@ == element_type
            && r@ == element_ref && st@ == state,
        ValueConditionModel::Parameter { parameter_ref, value, rule } => c matches ByValueCondition::Parameter(x)
            && x.parameter_ref@ == parameter_ref && x.value@ == value && x.rule == rule,
    }
}

/// The (last) value as written of an attribute, empty when there is none.
pub open spec fn text_or_empty(a: Result<Seq<(Seq<char>, Seq<char>)>, Seq<char>>, key: Seq<char>) -> Seq<char> {
    match last_value_of(a, key) {
        Some(x) => x,
        None => Seq::empty(),
    }
}

/// What an empty-element tag inside a `ByValueCondition` gives, if it is a
/// condition on values.
pub open spec fn value_condition_tag(name: Seq<char>, a: Result<Seq<(Seq<char>, Seq<char>)>, Seq<char>>, reals: Seq<(String, Real)>) -> Option<
    ValueConditionModel,
> {
    if name == "SimulationTimeCondition"@ {
        Some(ValueConditionModel::SimulationTime {
            value: match last_value_of(a, "value"@) {
                Some(x) => number_or_zero_of(reals, x),
                None => Real { bits: 0 },
            },
            rule: match last_value_of(a, "rule"@) {
                Some(x) => spec_parse_rule(x),
                None => Rule::GreaterThan,
            },
        })
    } else if name == "StoryboardElementStateCondition"@ {
        Some(ValueConditionModel::ElementState {
            element_type: text_or_empty(a, "storyboardElementType"@),
            element_ref: text_or_empty(a, "storyboardElementRef"@),
            state: text_or_empty(a, "state"@),
        })
    } else if name == "ParameterCondition"@ {
        Some(ValueConditionModel::Parameter {
            parameter_ref: text_or_empty(a, "parameterRef"@),
            value: text_or_empty(a, "value"@),
            rule: match last_value_of(a, "rule"@) {
                Some(x) => spec_parse_rule(x),
                None => Rule::EqualTo,
            },
        })
    } else {
        None
    }
}

/// Reads the body of a `ByValueCondition` from event `p` on: its last
/// condition tag.
pub open spec fn by_value_scan(e: Seq<DocEventView>, reals: Seq<(String, Real)>, p: int, found: Option<ValueConditionModel>) -> Result<
    (Option<ValueConditionModel>, int),
    ScenarioErrorView,
>
    decreases e.len() - p,
{
    if p < 0 || p >= e.len() {
        Ok((found, p))
    } else {
        match e[p] {
            DocEventView::Empty { name, attributes } => by_value_scan(e, reals, p + 1, match value_condition_tag(
                name,
                attributes,
                reals,
            ) {
                Some(c) => Some(c),
                None => found,
            }),
            DocEventView::Close { name } => if name == "ByValueCondition"@ {
                Ok((found, p + 1))
            } else {
                by_value_scan(e, reals, p + 1, found)
            },
            DocEventView::End => Ok((found, p)),
            DocEventView::Failed(m) => Err(ScenarioErrorView::Xml(m)),
            _ => by_value_scan(e, reals, p + 1, found),
        }
    }
}

/// What the body of a `ByValueCondition` reads to; it must hold a condition.
pub open spec fn by_value_read(e: Seq<DocEventView>, reals: Seq<(String, Real)>, p: int) -> Result<(ValueConditionModel, int), ScenarioErrorView> {
    match by_value_scan(e, reals, p, None) {
        Err(x) => Err(x),
        Ok((None, _)) => Err(ScenarioErrorView::Parse("ByValueCondition has no recognized condition type"@)),
        Ok((Some(c), q)) => Ok((c, q)),
    }
}

/// Reads the body of a `ByValueCondition` (see [`by_value_read`]).
fn read_by_value(evs: &Vec<DocEvent>, pos: usize, reals: &Vec<(String, Real)>) -> (r: Result<(ByValueCondition, usize), ScenarioError>)
    requires
        pos <= evs@.len(),
    ensures
        r matches Ok((_, q)) ==> pos <= q <= evs@.len(),
        match by_value_read(doc_event_views(evs@), reals@, pos as int) {
            Ok((m, q)) => r matches Ok((c, k)) && stands_for_value_condition(c, m) && k == q,
            Err(e) => r matches Err(x) && x@ == e,
        },
{
    let ghost ev = doc_event_views(evs@);
    let ghost whole = by_value_scan(ev, reals@, pos as int, None);
    let mut found: Option<ByValueCondition> = None;
    let ghost mut fm: Option<ValueConditionModel> = None;
    let mut p = pos;
    while p < evs.len()
        invariant
            pos <= p <= evs@.len(),
            ev == doc_event_views(evs@),
            whole == by_value_scan(ev, reals@, pos as int, None),
            whole == by_value_scan(ev, reals@, p as int, fm),
            match fm {
                None => found is None,
                Some(m) => found matches Some(c) && stands_for_value_condition(c, m),
            },
        decreases evs@.len() - p,
    {
        assert(ev[p as int] == evs@[p as int]@);
        match &evs[p] {
            DocEvent::Empty((tag, attributes)) => {
                proof {
                    reveal_strlit("");
                }
                if str_eq(tag.as_str(), "SimulationTimeCondition") {
                    let value = match last_value(attributes, "value") {
                        Some(x) => number_or_zero(reals, x.as_str()),
                        None => Real::zero(),
                    };
                    let rule = match last_value(attributes, "rule") {
                        Some(x) => parse_rule(x.as_str()),
                        None => Rule::GreaterThan,
                    };
                    found = Some(ByValueCondition::SimulationTime { value, rule });
                } else if str_eq(tag.as_str(), "StoryboardElementStateCondition") {
                    let element_type = match last_value(attributes, "storyboardElementType") {
                        Some(x) => x.clone(),
                        None => String::new(),
                    };
                    let element_ref = match last_value(attributes, "storyboardElementRef") {
                        Some(x) => x.clone(),
                        None => String::new(),
                    };
                    let state = match last_value(attributes, "state") {
                        Some(x) => x.clone(),
                        None => String::new(),
                    };
                    found = Some(ByValueCondition::StoryboardElementState { element_type, element_ref, state });
                } else if str_eq(tag.as_str(), "ParameterCondition") {
                    let parameter_ref = match last_value(attributes, "parameterRef") {
                        Some(x) => x.clone(),
                        None => String::new(),
                    };
                    let value = match last_value(attributes, "value") {
                        Some(x) => x.clone(),
                        None => String::new(),
                    };
                    let rule = match last_value(attributes, "rule") {
                        Some(x) => parse_rule(x.as_str()),
                        None => Rule::EqualTo,
                    };
                    found = Some(ByValueCondition::Parameter(ParameterCondition { parameter_ref, value, rule }));
                }
                proof {
                    match value_condition_tag(tag@, attrs_view(*attributes), reals@) {
                        Some(c) => {
                            fm = Some(c);
                        },
                        None => {},
                    }
                }
                p = p + 1;
            },
            DocEvent::Close(tag) => {
                if str_eq(tag.as_str(), "ByValueCondition") {
                    return match found {
                        Some(c) => Ok((c, p + 1)),
                        None => Err(ScenarioError::Parse(owned("ByValueCondition has no recognized condition type"))),
                    };
                }
                p = p + 1;
            },
            DocEvent::End => {
                return match found {
                    Some(c) => Ok((c, p)),
                    None => Err(ScenarioError::Parse(owned("ByValueCondition has no recognized condition type"))),
                };
            },
            DocEvent::Failed(m) => {
                return Err(ScenarioError::Xml(m.clone()));
            },
            _ => {
                p = p + 1;
            },
        }
    }
    match found {
        Some(c) => Ok((c, p)),
        None => Err(ScenarioError::Parse(owned("ByValueCondition has no recognized condition type"))),
    }
}

/// Reads the body of a `Condition` from event `p` on: its last condition on
/// values (conditions on entities are skipped).
pub open spec fn kind_scan(e: Seq<DocEventView>, reals: Seq<(String, Real)>, p: int, kind: Option<ValueConditionModel>) -> Result<
    (Option<ValueConditionModel>, int),
    ScenarioErrorView,
>
    decreases e.len() - p,
{
    if p < 0 || p >= e.len() {
        Ok((kind, p))
    } else {
        match e[p] {
            DocEventView::Start { name, .. } => {
                let child = if name == "ByValueCondition"@ {
                    match by_value_read(e, reals, p + 1) {
                        Err(x) => Err(x),
                        Ok((c, q)) => Ok((Some(c), q)),
                    }
                } else {
                    match skip_scan(e, p + 1, 1, name) {
                        Err(x) => Err(x),
                        Ok(q) => Ok((kind, q)),
                    }
                };
                match child {
                    Err(x) => Err(x),
                    Ok((k, q)) => if p < q <= e.len() {
                        kind_scan(e, reals, q, k)
                    } else {
                        Err(ScenarioErrorView::Parse(Seq::empty()))
                    },
                }
            },
            DocEventView::Close { name } => if name == "Condition"@ {
                Ok((kind, p + 1))
            } else {
                kind_scan(e, reals, p + 1, kind)
            },
            DocEventView::End => Ok((kind, p)),
            DocEventView::Failed(m) => Err(ScenarioErrorView::Xml(m)),
            _ => kind_scan(e, reals, p + 1, kind),
        }
    }
}

/// What the body of a `Condition` reads to; it must hold a condition on values.
pub open spec fn kind_read(e: Seq<DocEventView>, reals: Seq<(String, Real)>, p: int) -> Result<(ValueConditionModel, int), ScenarioErrorView> {
    match kind_scan(e, reals, p, None) {
        Err(x) => Err(x),
        Ok((None, _)) => Err(ScenarioErrorView::Parse("Condition has no recognized kind"@)),
        Ok((Some(c), q)) => Ok((c, q)),
    }
}

/// Reads the body of a `Condition` (see [`kind_read`]).
fn read_condition_kind(evs: &Vec<DocEvent>, pos: usize, reals: &Vec<(String, Real)>) -> (r: Result<(ConditionKind, usize), ScenarioError>)
    requires
        pos <= evs@.len(),
    ensures
        r matches Ok((_, q)) ==> pos <= q <= evs@.len(),
        match kind_read(doc_event_views(evs@), reals@, pos as int) {
            Ok((m, q)) => r matches Ok((ConditionKind::ByValue(c), k)) && stands_for_value_condition(c, m) && k == q,
            Err(e) => r matches Err(x) && x@ == e,
        },
{
    let ghost ev = doc_event_views(evs@);
    let ghost whole = kind_scan(ev, reals@, pos as int, None);
    let mut kind: Option<ByValueCondition> = None;
    let ghost mut km: Option<ValueConditionModel> = None;
    let mut p = pos;
    while p < evs.len()
        invariant
            pos <= p <= evs@.len(),
            ev == doc_event_views(evs@),
            whole == kind_scan(ev, reals@, pos as int, None),
            whole == kind_scan(ev, reals@, p as int, km),
            match km {
                None => kind is None,
                Some(m) => kind matches Some(c) && stands_for_value_condition(c, m),
            },
        decreases evs@.len() - p,
    {
        assert(ev[p as int] == evs@[p as int]@);
        match &evs[p] {
            DocEvent::Start((tag, _)) => {
                if str_eq(tag.as_str(), "ByValueCondition") {
                    let (c, q) = read_by_value(evs, p + 1, reals)?;
                    proof {
                        km = Some(by_value_read(ev, reals@, p + 1)->Ok_0.0);
                    }
                    kind = Some(c);
                    p = q;
                } else {
                    p = skip_element(evs, p + 1, tag.as_str())?;
                }
            },
            DocEvent::Close(tag) => {
                if str_eq(tag.as_str(), "Condition") {
                    return match kind {
                        Some(c) => Ok((ConditionKind::ByValue(c), p + 1)),
                        None => Err(ScenarioError::Parse(owned("Condition has no recognized kind"))),
                    };
                }
                p = p + 1;
            },
            DocEvent::End => {
                return match kind {
                    Some(c) => Ok((ConditionKind::ByValue(c), p)),
                    None => Err(ScenarioError::Parse(owned("Condition has no recognized kind"))),
                };
            },
            DocEvent::Failed(m) => {
                return Err(ScenarioError::Xml(m.clone()));
            },
            _ => {
                p = p + 1;
            },
        }
    }
    match kind {
        Some(c) => Ok((ConditionKind::ByValue(c), p)),
        None => Err(ScenarioError::Parse(owned("Condition has no recognized kind"))),
    }
}

/// A condition as a document gives it.
pub struct ConditionModel {
    pub name: Seq<char>,
    pub delay: Real,
    pub edge: ConditionEdge,
    pub kind: ValueConditionModel,
}

/// The condition is the one the model gives.
pub open spec fn stands_for_condition(c: Condition, m: ConditionModel) -> bool {
    &&& c.name@ == m.name
    &&& c.delay == m.delay
    &&& c.condition_edge == m.edge
    &&& c.kind matches ConditionKind::ByValue(v) && stands_for_value_condition(v, m.kind)
}

/// The conditions are those the models give.
pub open spec fn conditions_stand_for(v: Seq<Condition>, m: Seq<ConditionModel>) -> bool {
    &&& v.len() == m.len()
    &&& forall|i: int| 0 <= i < v.len() ==> stands_for_condition(#[trigger] v[i], m[i])
}

/// The name, delay and edge a `Condition` tag gives.
pub open spec fn condition_head(a: Result<Seq<(Seq<char>, Seq<char>)>, Seq<char>>, reals: Seq<(String, Real)>) -> (Seq<char>, Real, ConditionEdge) {
    (
        text_or_empty(a, "name"@),
        match last_value_of(a, "delay"@) {
            Some(x) => number_or_zero_of(reals, x),
            None => Real { bits: 0 },
        },
        match last_value_of(a, "conditionEdge"@) {
            Some(x) => spec_parse_condition_edge(x),
            None => ConditionEdge::NoEdge,
        },
    )
}

/// Reads the body of a `ConditionGroup` from event `p` on: its conditions.
pub open spec fn group_conditions_scan(e: Seq<DocEventView>, reals: Seq<(String, Real)>, p: int, cs: Seq<ConditionModel>) -> Result<
    (Seq<ConditionModel>, int),
    ScenarioErrorView,
>
    decreases e.len() - p,
{
    if p < 0 || p >= e.len() {
        Ok((cs, p))
    } else {
        match e[p] {
            DocEventView::Start { name, attributes } => if name == "Condition"@ {
                match kind_read(e, reals, p + 1) {
                    Err(x) => Err(x),
                    Ok((k, q)) => if p < q <= e.len() {
                        let h = condition_head(attributes, reals);
                        group_conditions_scan(e, reals, q, cs.push(ConditionModel { name: h.0, delay: h.1, edge: h.2, kind: k }))
                    } else {
                        Err(ScenarioErrorView::Parse(Seq::empty()))
                    },
                }
            } else {
                group_conditions_scan(e, reals, p + 1, cs)
            },
            DocEventView::Close { name } => if name == "ConditionGroup"@ {
                Ok((cs, p + 1))
            } else {
                group_conditions_scan(e, reals, p + 1, cs)
            },
            DocEventView::End => Ok((cs, p)),
            DocEventView::Failed(m) => Err(ScenarioErrorView::Xml(m)),
            _ => group_conditions_scan(e, reals, p + 1, cs),
        }
    }
}

/// Reads the body of a `ConditionGroup` (see [`group_conditions_scan`]).
fn read_condition_group(evs: &Vec<DocEvent>, pos: usize, reals: &Vec<(String, Real)>) -> (r: Result<(ConditionGroup, usize), ScenarioError>)
    requires
        pos <= evs@.len(),
    ensures
        r matches Ok((_, q)) ==> pos <= q <= evs@.len(),
        match group_conditions_scan(doc_event_views(evs@), reals@, pos as int, Seq::empty()) {
            Ok((ms, q)) => r matches Ok((g, k)) && conditions_stand_for(g.conditions@, ms) && k == q,
            Err(e) => r matches Err(x) && x@ == e,
        },
{
    let ghost ev = doc_event_views(evs@);
    let ghost whole = group_conditions_scan(ev, reals@, pos as int, Seq::empty());
    let mut conditions: Vec<Condition> = Vec::new();
    let ghost mut ms: Seq<ConditionModel> = Seq::empty();
    let mut p = pos;
    while p < evs.len()
        invariant
            pos <= p <= evs@.len(),
            ev == doc_event_views(evs@),
            whole == group_conditions_scan(ev, reals@, pos as int, Seq::empty()),
            whole == group_conditions_scan(ev, reals@, p as int, ms),
            conditions_stand_for(conditions@, ms),
        decreases evs@.len() - p,
    {
        assert(ev[p as int] == evs@[p as int]@);
        match &evs[p] {
            DocEvent::Start((tag, attributes)) => {
                if str_eq(tag.as_str(), "Condition") {
                    proof {
                        reveal_strlit("");
                    }
                    let name = match last_value(attributes, "name") {
                        Some(x) => x.clone(),
                        None => String::new(),
                    };
                    let delay = match last_value(attributes, "delay") {
                        Some(x) => number_or_zero(reals, x.as_str()),
                        None => Real::zero(),
                    };
                    let condition_edge = match last_value(attributes, "conditionEdge") {
                        Some(x) => parse_condition_edge(x.as_str()),
                        None => ConditionEdge::NoEdge,
                    };
                    let (kind, q) = read_condition_kind(evs, p + 1, reals)?;
                    proof {
                        let h = condition_head(attrs_view(*attributes), reals@);
                        ms = ms.push(ConditionModel {
                            name: h.0,
                            delay: h.1,
                            edge: h.2,
                            kind: kind_read(ev, reals@, p + 1)->Ok_0.0,
                        });
                    }
                    conditions.push(Condition { name, delay, condition_edge, kind });
                    p = q;
                } else {
                    p = p + 1;
                }
            },
            DocEvent::Close(tag) => {
                if str_eq(tag.as_str(), "ConditionGroup") {
                    return Ok((ConditionGroup::new(conditions), p + 1));
                }
                p = p + 1;
            },
            DocEvent::End => {
                return Ok((ConditionGroup::new(conditions), p));
            },
            DocEvent::Failed(m) => {
                return Err(ScenarioError::Xml(m.clone()));
            },
            _ => {
                p = p + 1;
            },
        }
    }
    Ok((ConditionGroup::new(conditions), p))
}

/// The trigger is the one the model gives: its groups of conditions.
pub open spec fn stands_for_trigger(t: Trigger, m: Seq<Seq<ConditionModel>>) -> bool {
    &&& t.condition_groups@.len() == m.len()
    &&& forall|i: int| 0 <= i < m.len() ==> conditions_stand_for((#[trigger] t.condition_groups@[i]).conditions@, m[i])
}

/// An optional trigger is the one the model gives.
pub open spec fn stands_for_opt_trigger(t: Option<Trigger>, m: Option<Seq<Seq<ConditionModel>>>) -> bool {
    match m {
        None => t is None,
        Some(m) => t matches Some(x) && stands_for_trigger(x, m),
    }
}

/// Reads the body of a `StartTrigger` from event `p` on: its condition groups.
pub open spec fn trigger_scan(e: Seq<DocEventView>, reals: Seq<(String, Real)>, p: int, gs: Seq<Seq<ConditionModel>>) -> Result<
    (Seq<Seq<ConditionModel>>, int),
    ScenarioErrorView,
>
    decreases e.len() - p,
{
    if p < 0 || p >= e.len() {
        Ok((gs, p))
    } else {
        match e[p] {
            DocEventView::Start { name, .. } => if name == "ConditionGroup"@ {
                match group_conditions_scan(e, reals, p + 1, Seq::empty()) {
                    Err(x) => Err(x),
                    Ok((cs, q)) => if p < q <= e.len() {
                        trigger_scan(e, reals, q, gs.push(cs))
                    } else {
                        Err(ScenarioErrorView::Parse(Seq::empty()))
                    },
                }
            } else {
                trigger_scan(e, reals, p + 1, gs)
            },
            DocEventView::Close { name } => if name == "StartTrigger"@ {
                Ok((gs, p + 1))
            } else {
                trigger_scan(e, reals, p + 1, gs)
            },
            DocEventView::End => Ok((gs, p)),
            DocEventView::Failed(m) => Err(ScenarioErrorView::Xml(m)),
            _ => trigger_scan(e, reals, p + 1, gs),
        }
    }
}

/// What the body of a `StartTrigger` reads to: none without condition groups.
pub open spec fn trigger_read(e: Seq<DocEventView>, reals: Seq<(String, Real)>, p: int) -> Result<
    (Option<Seq<Seq<ConditionModel>>>, int),
    ScenarioErrorView,
> {
    match trigger_scan(e, reals, p, Seq::empty()) {
        Err(x) => Err(x),
        Ok((gs, q)) => Ok((if gs.len() == 0 { None } else { Some(gs) }, q)),
    }
}

/// Reads the body of a `StartTrigger` (see [`trigger_read`]).
fn read_start_trigger(evs: &Vec<DocEvent>, pos: usize, reals: &Vec<(String, Real)>) -> (r: Result<(Option<Trigger>, usize), ScenarioError>)
    requires
        pos <= evs@.len(),
    ensures
        r matches Ok((_, q)) ==> pos <= q <= evs@.len(),
        match trigger_read(doc_event_views(evs@), reals@, pos as int) {
            Ok((m, q)) => r matches Ok((t, k)) && stands_for_opt_trigger(t, m) && k == q,
            Err(e) => r matches Err(x) && x@ == e,
        },
{
    let ghost ev = doc_event_views(evs@);
    let ghost whole = trigger_scan(ev, reals@, pos as int, Seq::empty());
    let mut groups: Vec<ConditionGroup> = Vec::new();
    let ghost mut gs: Seq<Seq<ConditionModel>> = Seq::empty();
    let mut p = pos;
    while p < evs.len()
        invariant
            pos <= p <= evs@.len(),
            ev == doc_event_views(evs@),
            whole == trigger_scan(ev, reals@, pos as int, Seq::empty()),
            whole == trigger_scan(ev, reals@, p as int, gs),
            groups@.len() == gs.len(),
            forall|i: int| 0 <= i < gs.len() ==> conditions_stand_for((#[trigger] groups@[i]).conditions@, gs[i]),
        decreases evs@.len() - p,
    {
        assert(ev[p as int] == evs@[p as int]@);
        if opens(&evs[p], "ConditionGroup") {
            let (g, q) = read_condition_group(evs, p + 1, reals)?;
            proof {
                gs = gs.push(group_conditions_scan(ev, reals@, p + 1, Seq::empty())->Ok_0.0);
            }
            groups.push(g);
            p = q;
        } else {
            match &evs[p] {
                DocEvent::Close(tag) => {
                    if str_eq(tag.as_str(), "StartTrigger") {
                        p = p + 1;
                        return if groups.len() == 0 {
                            Ok((None, p))
                        } else {
                            Ok((Some(Trigger::with_groups(groups)), p))
                        };
                    }
                    p = p + 1;
                },
                DocEvent::End => {
                    return if groups.len() == 0 {
                        Ok((None, p))
                    } else {
                        Ok((Some(Trigger::with_groups(groups)), p))
                    };
                },
                DocEvent::Failed(m) => {
                    return Err(ScenarioError::Xml(m.clone()));
                },
                _ => {
                    p = p + 1;
                },
            }
        }
    }
    if groups.len() == 0 {
        Ok((None, p))
    } else {
        Ok((Some(Trigger::with_groups(groups)), p))
    }
}

/// A trigger as a document gives it: its groups of conditions.
pub type TriggerModel = Seq<Seq<ConditionModel>>;

/// An event as a document gives it.
pub struct EventModel {
    pub name: Seq<char>,
    pub actions: Seq<Action>,
    pub trigger: Option<TriggerModel>,
}

/// The event is the one the model gives.
pub open spec fn stands_for_event(x: Event, m: EventModel) -> bool {
    x.name@ == m.name && x.actions@ == m.actions && stands_for_opt_trigger(x.start_trigger, m.trigger)
}

/// The events are those the models give.
pub open spec fn events_stand_for(v: Seq<Event>, m: Seq<EventModel>) -> bool {
    &&& v.len() == m.len()
    &&& forall|i: int| 0 <= i < v.len() ==> stands_for_event(#[trigger] v[i], m[i])
}

/// Reads the body of an `Event` from event `p` on: its actions and start
/// trigger; the document must not end inside it.
pub open spec fn event_scan(
    e: Seq<DocEventView>,
    reals: Seq<(String, Real)>,
    p: int,
    actions: Seq<Action>,
    trigger: Option<TriggerModel>,
) -> Result<(Seq<Action>, Option<TriggerModel>, int), ScenarioErrorView>
    decreases e.len() - p,
{
    if p < 0 || p >= e.len() {
        Err(ScenarioErrorView::Parse("Unexpected EOF in Event"@))
    } else {
        match e[p] {
            DocEventView::Start { name, .. } => if name == "Action"@ {
                match action_scan(e, reals, p + 1, None) {
                    Err(x) => Err(x),
                    Ok((a, q)) => if p < q <= e.len() {
                        event_scan(e, reals, q, match a {
                            Some(x) => actions.push(x),
                            None => actions,
                        }, trigger)
                    } else {
                        Err(ScenarioErrorView::Parse(Seq::empty()))
                    },
                }
            } else if name == "StartTrigger"@ {
                match trigger_read(e, reals, p + 1) {
                    Err(x) => Err(x),
                    Ok((t, q)) => if p < q <= e.len() {
                        event_scan(e, reals, q, actions, t)
                    } else {
                        Err(ScenarioErrorView::Parse(Seq::empty()))
                    },
                }
            } else {
                match skip_scan(e, p + 1, 1, name) {
                    Err(x) => Err(x),
                    Ok(q) => if p < q <= e.len() {
                        event_scan(e, reals, q, actions, trigger)
                    } else {
                        Err(ScenarioErrorView::Parse(Seq::empty()))
                    },
                }
            },
            DocEventView::Close { name } => if name == "Event"@ {
                Ok((actions, trigger, p + 1))
            } else {
                event_scan(e, reals, p + 1, actions, trigger)
            },
            DocEventView::End => Err(ScenarioErrorView::Parse("Unexpected EOF in Event"@)),
            DocEventView::Failed(m) => Err(ScenarioErrorView::Xml(m)),
            _ => event_scan(e, reals, p + 1, actions, trigger),
        }
    }
}

/// What the body of an `Event` called `name` reads to.
pub open spec fn event_read(e: Seq<DocEventView>, reals: Seq<(String, Real)>, p: int, name: Seq<char>) -> Result<
    (EventModel, int),
    ScenarioErrorView,
> {
    match event_scan(e, reals, p, Seq::empty(), None) {
        Err(x) => Err(x),
        Ok((a, t, q)) => Ok((EventModel { name, actions: a, trigger: t }, q)),
    }
}

/// Reads the body of an `Event` (see [`event_read`]).
fn read_event(evs: &Vec<DocEvent>, pos: usize, name: String, reals: &Vec<(String, Real)>) -> (r: Result<(Event, usize), ScenarioError>)
    requires
        pos <= evs@.len(),
    ensures
        r matches Ok((_, q)) ==> pos <= q <= evs@.len(),
        match event_read(doc_event_views(evs@), reals@, pos as int, name@) {
            Ok((m, q)) => r matches Ok((x, k)) && stands_for_event(x, m) && k == q,
            Err(e) => r matches Err(x) && x@ == e,
        },
{
    let ghost ev = doc_event_views(evs@);
    let ghost whole = event_scan(ev, reals@, pos as int, Seq::empty(), None);
    let mut actions: Vec<Action> = Vec::new();
    let mut start_trigger: Option<Trigger> = None;
    let ghost mut tm: Option<TriggerModel> = None;
    let mut p = pos;
    while p < evs.len()
        invariant
            pos <= p <= evs@.len(),
            ev == doc_event_views(evs@),
            whole == event_scan(ev, reals@, pos as int, Seq::empty(), None),
            whole == event_scan(ev, reals@, p as int, actions@, tm),
            stands_for_opt_trigger(start_trigger, tm),
        decreases evs@.len() - p,
    {
        assert(ev[p as int] == evs@[p as int]@);
        match &evs[p] {
            DocEvent::Start((tag, _)) => {
                if str_eq(tag.as_str(), "Action") {
                    let (a, q) = read_action(evs, p + 1, reals)?;
                    if let Some(a) = a {
                        actions.push(a);
                    }
                    p = q;
                } else if str_eq(tag.as_str(), "StartTrigger") {
                    let (t, q) = read_start_trigger(evs, p + 1, reals)?;
                    proof {
                        tm = trigger_read(ev, reals@, p + 1)->Ok_0.0;
                    }
                    start_trigger = t;
                    p = q;
                } else {
                    p = skip_element(evs, p + 1, tag.as_str())?;
                }
            },
            DocEvent::Close(tag) => {
                if str_eq(tag.as_str(), "Event") {
                    return Ok((Event { name, actions, start_trigger }, p + 1));
                }
                p = p + 1;
            },
            DocEvent::End => {
                return Err(ScenarioError::Parse(owned("Unexpected EOF in Event")));
            },
            DocEvent::Failed(m) => {
                return Err(ScenarioError::Xml(m.clone()));
            },
            _ => {
                p = p + 1;
            },
        }
    }
    Err(ScenarioError::Parse(owned("Unexpected EOF in Event")))
}

/// A maneuver as a document gives it.
pub struct ManeuverModel {
    pub name: Seq<char>,
    pub events: Seq<EventModel>,
}

/// The maneuver is the one the model gives.
pub open spec fn stands_for_maneuver(x: Maneuver, m: ManeuverModel) -> bool {
    x.name@ == m.name && events_stand_for(x.events@, m.events)
}

/// The maneuvers are those the models give.
pub open spec fn maneuvers_stand_for(v: Seq<Maneuver>, m: Seq<ManeuverModel>) -> bool {
    &&& v.len() == m.len()
    &&& forall|i: int| 0 <= i < v.len() ==> stands_for_maneuver(#[trigger] v[i], m[i])
}

/// Reads the body of a `Maneuver` from event `p` on: its events; the
/// document must not end inside it.
pub open spec fn maneuver_scan(e: Seq<DocEventView>, reals: Seq<(String, Real)>, p: int, events: Seq<EventModel>) -> Result<
    (Seq<EventModel>, int),
    ScenarioErrorView,
>
    decreases e.len() - p,
{
    if p < 0 || p >= e.len() {
        Err(ScenarioErrorView::Parse("Unexpected EOF in Maneuver"@))
    } else {
        match e[p] {
            DocEventView::Start { name, attributes } => if name == "Event"@ {
                match first_text_of(attributes, "name"@) {
                    Err(x) => Err(x),
                    Ok(n) => match event_read(e, reals, p + 1, n) {
                        Err(x) => Err(x),
                        Ok((m, q)) => if p < q <= e.len() {
                            maneuver_scan(e, reals, q, events.push(m))
                        } else {
                            Err(ScenarioErrorView::Parse(Seq::empty()))
                        },
                    },
                }
            } else {
                maneuver_scan(e, reals, p + 1, events)
            },
            DocEventView::Close { name } => if name == "Maneuver"@ {
                Ok((events, p + 1))
            } else {
                maneuver_scan(e, reals, p + 1, events)
            },
            DocEventView::End => Err(ScenarioErrorView::Parse("Unexpected EOF in Maneuver"@)),
            DocEventView::Failed(m) => Err(ScenarioErrorView::Xml(m)),
            _ => maneuver_scan(e, reals, p + 1, events),
        }
    }
}

/// Reads the body of a `Maneuver` (see [`maneuver_scan`]).
fn read_maneuver(evs: &Vec<DocEvent>, pos: usize, name: String, reals: &Vec<(String, Real)>) -> (r: Result<(Maneuver, usize), ScenarioError>)
    requires
        pos <= evs@.len(),
    ensures
        r matches Ok((_, q)) ==> pos <= q <= evs@.len(),
        match maneuver_scan(doc_event_views(evs@), reals@, pos as int, Seq::empty()) {
            Ok((ms, q)) => r matches Ok((x, k)) && stands_for_maneuver(x, ManeuverModel { name: name@, events: ms }) && k == q,
            Err(e) => r matches Err(x) && x@ == e,
        },
{
    let ghost ev = doc_event_views(evs@);
    let ghost whole = maneuver_scan(ev, reals@, pos as int, Seq::empty());
    let mut events: Vec<Event> = Vec::new();
    let ghost mut ms: Seq<EventModel> = Seq::empty();
    let mut p = pos;
    while p < evs.len()
        invariant
            pos <= p <= evs@.len(),
            ev == doc_event_views(evs@),
            whole == maneuver_scan(ev, reals@, pos as int, Seq::empty()),
            whole == maneuver_scan(ev, reals@, p as int, ms),
            events_stand_for(events@, ms),
        decreases evs@.len() - p,
    {
        assert(ev[p as int] == evs@[p as int]@);
        match &evs[p] {
            DocEvent::Start((tag, attributes)) => {
                if str_eq(tag.as_str(), "Event") {
                    let event_name = first_text(attributes, "name")?;
                    let ghost n = event_name@;
                    let (e, q) = read_event(evs, p + 1, event_name, reals)?;
                    proof {
                        ms = ms.push(event_read(ev, reals@, p + 1, n)->Ok_0.0);
                    }
                    events.push(e);
                    p = q;
                } else {
                    p = p + 1;
                }
            },
            DocEvent::Close(tag) => {
                if str_eq(tag.as_str(), "Maneuver") {
                    return Ok((Maneuver { name, events }, p + 1));
                }
                p = p + 1;
            },
            DocEvent::End => {
                return Err(ScenarioError::Parse(owned("Unexpected EOF in Maneuver")));
            },
            DocEvent::Failed(m) => {
                return Err(ScenarioError::Xml(m.clone()));
            },
            _ => {
                p = p + 1;
            },
        }
    }
    Err(ScenarioError::Parse(owned("Unexpected EOF in Maneuver")))
}

/// Reads the attributes of an `EntityRef` from the `i`-th on: the read text
/// of each `entityRef`.
pub open spec fn actor_attrs_scan(v: Seq<(Seq<char>, Seq<char>)>, i: int, actors: Seq<Seq<char>>) -> Result<
    Seq<Seq<char>>,
    ScenarioErrorView,
>
    decreases v.len() - i,
{
    if i < 0 || i >= v.len() {
        Ok(actors)
    } else if v[i].0 == "entityRef"@ {
        match attribute_text(v[i].1) {
            Err(m) => Err(ScenarioErrorView::Xml(m)),
            Ok(t) => actor_attrs_scan(v, i + 1, actors.push(t)),
        }
    } else {
        actor_attrs_scan(v, i + 1, actors)
    }
}

/// Reads the body of `Actors` from event `p` on: every entity reference.
pub open spec fn actors_scan(e: Seq<DocEventView>, p: int, actors: Seq<Seq<char>>) -> Result<(Seq<Seq<char>>, int), ScenarioErrorView>
    decreases e.len() - p,
{
    if p < 0 || p >= e.len() {
        Ok((actors, p))
    } else {
        match e[p] {
            DocEventView::Empty { name, attributes } => if name == "EntityRef"@ {
                match attributes {
                    Ok(v) => match actor_attrs_scan(v, 0, actors) {
                        Err(x) => Err(x),
                        Ok(a) => actors_scan(e, p + 1, a),
                    },
                    Err(_) => actors_scan(e, p + 1, actors),
                }
            } else {
                actors_scan(e, p + 1, actors)
            },
            DocEventView::Close { name } => if name == "Actors"@ {
                Ok((actors, p + 1))
            } else {
                actors_scan(e, p + 1, actors)
            },
            DocEventView::End => Ok((actors, p)),
            DocEventView::Failed(m) => Err(ScenarioErrorView::Xml(m)),
            _ => actors_scan(e, p + 1, actors),
        }
    }
}

/// Reads the body of `Actors` (see [`actors_scan`]).
fn read_actors(evs: &Vec<DocEvent>, pos: usize) -> (r: Result<(Vec<String>, usize), ScenarioError>)
    requires
        pos <= evs@.len(),
    ensures
        r matches Ok((_, q)) ==> pos <= q <= evs@.len(),
        match actors_scan(doc_event_views(evs@), pos as int, Seq::empty()) {
            Ok((a, q)) => r matches Ok((x, k)) && views(x@) == a && k == q,
            Err(e) => r matches Err(x) && x@ == e,
        },
{
    let ghost ev = doc_event_views(evs@);
    let ghost whole = actors_scan(ev, pos as int, Seq::empty());
    let mut actors: Vec<String> = Vec::new();
    assert(views(actors@) =~= Seq::<Seq<char>>::empty());
    let mut p = pos;
    while p < evs.len()
        invariant
            pos <= p <= evs@.len(),
            ev == doc_event_views(evs@),
            whole == actors_scan(ev, pos as int, Seq::empty()),
            whole == actors_scan(ev, p as int, views(actors@)),
        decreases evs@.len() - p,
    {
        assert(ev[p as int] == evs@[p as int]@);
        match &evs[p] {
            DocEvent::Empty((tag, attributes)) => {
                if str_eq(tag.as_str(), "EntityRef") {
                    if let Ok(v) = attributes {
                        let ghost w = pair_views(v@);
                        let ghost a0 = views(actors@);
                        let ghost at = p as int;
                        assert(whole == match actor_attrs_scan(w, 0, a0) {
                            Err(x) => Err(x),
                            Ok(a) => actors_scan(ev, at + 1, a),
                        });
                        let mut i: usize = 0;
                        while i < v.len()
                            invariant
                                i <= v@.len(),
                                w == pair_views(v@),
                                actor_attrs_scan(w, 0, a0) == actor_attrs_scan(w, i as int, views(actors@)),
                                whole == match actor_attrs_scan(w, 0, a0) {
                                    Err(x) => Err(x),
                                    Ok(a) => actors_scan(ev, at + 1, a),
                                },
                                whole == actors_scan(ev, pos as int, Seq::empty()),
                                ev == doc_event_views(evs@),
                            decreases v@.len() - i,
                        {
                            assert(w[i as int] == (v@[i as int].0@, v@[i as int].1@));
                            if str_eq(v[i].0.as_str(), "entityRef") {
                                match read_attribute_text(v[i].1.as_str()) {
                                    Ok(t) => {
                                        let ghost before = views(actors@);
                                        actors.push(t);
                                        assert(views(actors@) =~= before.push(t@));
                                    },
                                    Err(m) => {
                                        return Err(ScenarioError::Xml(m));
                                    },
                                }
                            }
                            i = i + 1;
                        }
                    }
                }
                p = p + 1;
            },
            DocEvent::Close(tag) => {
                if str_eq(tag.as_str(), "Actors") {
                    return Ok((actors, p + 1));
                }
                p = p + 1;
            },
            DocEvent::End => {
                return Ok((actors, p));
            },
            DocEvent::Failed(m) => {
                return Err(ScenarioError::Xml(m.clone()));
            },
            _ => {
                p = p + 1;
            },
        }
    }
    Ok((actors, p))
}

/// A maneuver group as a document gives it.
pub struct GroupModel {
    pub name: Seq<char>,
    pub actors: Seq<Seq<char>>,
    pub maneuvers: Seq<ManeuverModel>,
}

/// The maneuver group is the one the model gives.
pub open spec fn stands_for_group(x: ManeuverGroup, m: GroupModel) -> bool {
    x.name@ == m.name && views(x.actors@) == m.actors && maneuvers_stand_for(x.maneuvers@, m.maneuvers)
}

/// Reads the body of a `ManeuverGroup` from event `p` on: its actors and
/// maneuvers; the document must not end inside it.
pub open spec fn group_scan(
    e: Seq<DocEventView>,
    reals: Seq<(String, Real)>,
    p: int,
    actors: Seq<Seq<char>>,
    maneuvers: Seq<ManeuverModel>,
) -> Result<(Seq<Seq<char>>, Seq<ManeuverModel>, int), ScenarioErrorView>
    decreases e.len() - p,
{
    if p < 0 || p >= e.len() {
        Err(ScenarioErrorView::Parse("Unexpected EOF in ManeuverGroup"@))
    } else {
        match e[p] {
            DocEventView::Start { name, attributes } => if name == "Actors"@ {
                match actors_scan(e, p + 1, Seq::empty()) {
                    Err(x) => Err(x),
                    Ok((a, q)) => if p < q <= e.len() {
                        group_scan(e, reals, q, a, maneuvers)
                    } else {
                        Err(ScenarioErrorView::Parse(Seq::empty()))
                    },
                }
            } else if name == "Maneuver"@ {
                match first_text_of(attributes, "name"@) {
                    Err(x) => Err(x),
                    Ok(n) => match maneuver_scan(e, reals, p + 1, Seq::empty()) {
                        Err(x) => Err(x),
                        Ok((evs, q)) => if p < q <= e.len() {
                            group_scan(e, reals, q, actors, maneuvers.push(ManeuverModel { name: n, events: evs }))
                        } else {
                            Err(ScenarioErrorView::Parse(Seq::empty()))
                        },
                    },
                }
            } else {
                match skip_scan(e, p + 1, 1, name) {
                    Err(x) => Err(x),
                    Ok(q) => if p < q <= e.len() {
                        group_scan(e, reals, q, actors, maneuvers)
                    } else {
                        Err(ScenarioErrorView::Parse(Seq::empty()))
                    },
                }
            },
            DocEventView::Close { name } => if name == "ManeuverGroup"@ {
                Ok((actors, maneuvers, p + 1))
            } else {
                group_scan(e, reals, p + 1, actors, maneuvers)
            },
            DocEventView::End => Err(ScenarioErrorView::Parse("Unexpected EOF in ManeuverGroup"@)),
            DocEventView::Failed(m) => Err(ScenarioErrorView::Xml(m)),
            _ => group_scan(e, reals, p + 1, actors, maneuvers),
        }
    }
}

/// What the body of a `ManeuverGroup` called `name` reads to.
pub open spec fn group_read(e: Seq<DocEventView>, reals: Seq<(String, Real)>, p: int, name: Seq<char>) -> Result<
    (GroupModel, int),
    ScenarioErrorView,
> {
    match group_scan(e, reals, p, Seq::empty(), Seq::empty()) {
        Err(x) => Err(x),
        Ok((a, m, q)) => Ok((GroupModel { name, actors: a, maneuvers: m }, q)),
    }
}

/// Reads the body of a `ManeuverGroup` (see [`group_read`]).
fn read_group(evs: &Vec<DocEvent>, pos: usize, name: String, reals: &Vec<(String, Real)>) -> (r: Result<(ManeuverGroup, usize), ScenarioError>)
    requires
        pos <= evs@.len(),
    ensures
        r matches Ok((_, q)) ==> pos <= q <= evs@.len(),
        match group_read(doc_event_views(evs@), reals@, pos as int, name@) {
            Ok((m, q)) => r matches Ok((x, k)) && stands_for_group(x, m) && k == q,
            Err(e) => r matches Err(x) && x@ == e,
        },
{
    let ghost ev = doc_event_views(evs@);
    let ghost whole = group_scan(ev, reals@, pos as int, Seq::empty(), Seq::empty());
    let mut actors: Vec<String> = Vec::new();
    let mut maneuvers: Vec<Maneuver> = Vec::new();
    let ghost mut ms: Seq<ManeuverModel> = Seq::empty();
    let mut p = pos;
    proof {
        assert(views(actors@) =~= Seq::<Seq<char>>::empty());
    }
    while p < evs.len()
        invariant
            pos <= p <= evs@.len(),
            ev == doc_event_views(evs@),
            whole == group_scan(ev, reals@, pos as int, Seq::empty(), Seq::empty()),
            whole == group_scan(ev, reals@, p as int, views(actors@), ms),
            maneuvers_stand_for(maneuvers@, ms),
        decreases evs@.len() - p,
    {
        assert(ev[p as int] == evs@[p as int]@);
        match &evs[p] {
            DocEvent::Start((tag, attributes)) => {
                if str_eq(tag.as_str(), "Actors") {
                    let (a, q) = read_actors(evs, p + 1)?;
                    actors = a;
                    p = q;
                } else if str_eq(tag.as_str(), "Maneuver") {
                    let maneuver_name = first_text(attributes, "name")?;
                    let ghost n = maneuver_name@;
                    let (m, q) = read_maneuver(evs, p + 1, maneuver_name, reals)?;
                    proof {
                        ms = ms.push(ManeuverModel { name: n, events: maneuver_scan(ev, reals@, p + 1, Seq::empty())->Ok_0.0 });
                    }
                    maneuvers.push(m);
                    p = q;
                } else {
                    p = skip_element(evs, p + 1, tag.as_str())?;
                }
            },
            DocEvent::Close(tag) => {
                if str_eq(tag.as_str(), "ManeuverGroup") {
                    return Ok((ManeuverGroup { name, actors, maneuvers }, p + 1));
                }
                p = p + 1;
            },
            DocEvent::End => {
                return Err(ScenarioError::Parse(owned("Unexpected EOF in ManeuverGroup")));
            },
            DocEvent::Failed(m) => {
                return Err(ScenarioError::Xml(m.clone()));
            },
            _ => {
                p = p + 1;
            },
        }
    }
    Err(ScenarioError::Parse(owned("Unexpected EOF in ManeuverGroup")))
}

/// An act as a document gives it.
pub struct ActModel {
    pub name: Seq<char>,
    pub groups: Seq<GroupModel>,
    pub trigger: Option<TriggerModel>,
}

/// A story as a document gives it.
pub struct StoryModel {
    pub name: Seq<char>,
    pub acts: Seq<ActModel>,
}

/// The maneuver groups are those the models give.
pub open spec fn groups_stand_for(v: Seq<ManeuverGroup>, m: Seq<GroupModel>) -> bool {
    &&& v.len() == m.len()
    &&& forall|i: int| 0 <= i < v.len() ==> stands_for_group(#[trigger] v[i], m[i])
}

/// The act is the one the model gives.
pub open spec fn stands_for_act(x: Act, m: ActModel) -> bool {
    x.name@ == m.name && groups_stand_for(x.maneuver_groups@, m.groups) && stands_for_opt_trigger(x.start_trigger, m.trigger)
}

/// The acts are those the models give.
pub open spec fn acts_stand_for(v: Seq<Act>, m: Seq<ActModel>) -> bool {
    &&& v.len() == m.len()
    &&& forall|i: int| 0 <= i < v.len() ==> stands_for_act(#[trigger] v[i], m[i])
}

/// The story is the one the model gives.
pub open spec fn stands_for_story(x: Story, m: StoryModel) -> bool {
    x.name@ == m.name && acts_stand_for(x.acts@, m.acts)
}

/// The stories are those the models give.
pub open spec fn stories_stand_for(v: Seq<Story>, m: Seq<StoryModel>) -> bool {
    &&& v.len() == m.len()
    &&& forall|i: int| 0 <= i < v.len() ==> stands_for_story(#[trigger] v[i], m[i])
}

/// The group list with `g` in place of the first of its name, or added.
pub open spec fn put_group_model(gs: Seq<GroupModel>, g: GroupModel) -> Seq<GroupModel> {
    let i = first_index(gs.map_values(|x: GroupModel| x.name), g.name);
    if i >= 0 {
        gs.update(i, g)
    } else {
        gs.push(g)
    }
}

/// The act list with `a` in place of the first of its name, or added.
pub open spec fn put_act_model(acts: Seq<ActModel>, a: ActModel) -> Seq<ActModel> {
    let i = first_index(acts.map_values(|x: ActModel| x.name), a.name);
    if i >= 0 {
        acts.update(i, a)
    } else {
        acts.push(a)
    }
}

/// The story list with `st` in place of the first of its name, or added.
pub open spec fn put_story_model(stories: Seq<StoryModel>, st: StoryModel) -> Seq<StoryModel> {
    let i = first_index(stories.map_values(|x: StoryModel| x.name), st.name);
    if i >= 0 {
        stories.update(i, st)
    } else {
        stories.push(st)
    }
}

/// Adds a maneuver group, replacing an earlier one of the same name.
fn put_group(v: &mut Vec<ManeuverGroup>, g: ManeuverGroup)
    ensures
        distinct(group_names(old(v)@)) ==> distinct(group_names(final(v)@)),
        forall|ms: Seq<GroupModel>, m: GroupModel| groups_stand_for(old(v)@, ms) && stands_for_group(g, m)
            ==> groups_stand_for(final(v)@, put_group_model(ms, m)),
{
    let ghost before = group_names(v@);
    let ghost old_v = v@;
    let ghost given = g;
    let ghost name = g.name@;
    proof {
        lemma_first_index_bounds(before, name);
    }
    match crate::storyboard::find_group(v, g.name.as_str()) {
        Some(i) => {
            v.set(i, g);
            assert(group_names(v@) =~= before);
        },
        None => {
            v.push(g);
            assert(group_names(v@) =~= before.push(name));
        },
    }
    proof {
        assert forall|ms: Seq<GroupModel>, m: GroupModel| groups_stand_for(old_v, ms) && stands_for_group(given, m)
            implies groups_stand_for(v@, put_group_model(ms, m)) by {
            assert(ms.map_values(|x: GroupModel| x.name) =~= before);
            assert forall|k: int| 0 <= k < v@.len() implies stands_for_group(#[trigger] v@[k], put_group_model(ms, m)[k]) by {
                if k < old_v.len() && v@[k] != given {
                    assert(v@[k] == old_v[k]);
                }
            }
        }
    }
}

/// Adds an act, replacing an earlier one of the same name.
fn put_act(v: &mut Vec<Act>, a: Act)
    ensures
        distinct(act_names(old(v)@)) ==> distinct(act_names(final(v)@)),
        forall|k: int| 0 <= k < final(v)@.len() ==> (#[trigger] final(v)@[k]) == a || exists|j: int| 0 <= j < old(v)@.len()
            && final(v)@[k] == old(v)@[j],
        forall|ms: Seq<ActModel>, m: ActModel| acts_stand_for(old(v)@, ms) && stands_for_act(a, m)
            ==> acts_stand_for(final(v)@, put_act_model(ms, m)),
{
    let ghost before = act_names(v@);
    let ghost old_v = v@;
    let ghost given = a;
    let ghost name = a.name@;
    proof {
        lemma_first_index_bounds(before, name);
    }
    match crate::storyboard::find_act(v, a.name.as_str()) {
        Some(i) => {
            v.set(i, a);
            assert(act_names(v@) =~= before);
            assert forall|k: int| 0 <= k < v@.len() implies (#[trigger] v@[k]) == given || exists|j: int| 0 <= j < old_v.len()
                && v@[k] == old_v[j] by {
                if k != i {
                    assert(v@[k] == old_v[k]);
                }
            }
        },
        None => {
            v.push(a);
            assert(act_names(v@) =~= before.push(name));
            assert forall|k: int| 0 <= k < v@.len() implies (#[trigger] v@[k]) == given || exists|j: int| 0 <= j < old_v.len()
                && v@[k] == old_v[j] by {
                if k < old_v.len() {
                    assert(v@[k] == old_v[k]);
                }
            }
        },
    }
    proof {
        assert forall|ms: Seq<ActModel>, m: ActModel| acts_stand_for(old_v, ms) && stands_for_act(given, m)
            implies acts_stand_for(v@, put_act_model(ms, m)) by {
            assert(ms.map_values(|x: ActModel| x.name) =~= before);
            assert forall|k: int| 0 <= k < v@.len() implies stands_for_act(#[trigger] v@[k], put_act_model(ms, m)[k]) by {
                if k < old_v.len() && v@[k] != given {
                    assert(v@[k] == old_v[k]);
                }
            }
        }
    }
}

/// Adds a story, replacing an earlier one of the same name.
fn put_story(v: &mut Vec<Story>, st: Story)
    ensures
        distinct(story_names(old(v)@)) ==> distinct(story_names(final(v)@)),
        forall|k: int| 0 <= k < final(v)@.len() ==> (#[trigger] final(v)@[k]) == st || exists|j: int| 0 <= j < old(v)@.len()
            && final(v)@[k] == old(v)@[j],
        forall|ms: Seq<StoryModel>, m: StoryModel| stories_stand_for(old(v)@, ms) && stands_for_story(st, m)
            ==> stories_stand_for(final(v)@, put_story_model(ms, m)),
{
    let ghost before = story_names(v@);
    let ghost old_v = v@;
    let ghost given = st;
    let ghost name = st.name@;
    proof {
        lemma_first_index_bounds(before, name);
    }
    match crate::storyboard::find_story(v, st.name.as_str()) {
        Some(i) => {
            v.set(i, st);
            assert(story_names(v@) =~= before);
            assert forall|k: int| 0 <= k < v@.len() implies (#[trigger] v@[k]) == given || exists|j: int| 0 <= j < old_v.len()
                && v@[k] == old_v[j] by {
                if k != i {
                    assert(v@[k] == old_v[k]);
                }
            }
        },
        None => {
            v.push(st);
            assert(story_names(v@) =~= before.push(name));
            assert forall|k: int| 0 <= k < v@.len() implies (#[trigger] v@[k]) == given || exists|j: int| 0 <= j < old_v.len()
                && v@[k] == old_v[j] by {
                if k < old_v.len() {
                    assert(v@[k] == old_v[k]);
                }
            }
        },
    }
    proof {
        assert forall|ms: Seq<StoryModel>, m: StoryModel| stories_stand_for(old_v, ms) && stands_for_story(given, m)
            implies stories_stand_for(v@, put_story_model(ms, m)) by {
            assert(ms.map_values(|x: StoryModel| x.name) =~= before);
            assert forall|k: int| 0 <= k < v@.len() implies stands_for_story(#[trigger] v@[k], put_story_model(ms, m)[k]) by {
                if k < old_v.len() && v@[k] != given {
                    assert(v@[k] == old_v[k]);
                }
            }
        }
    }
}

/// Reads the body of an `Act` from event `p` on: its maneuver groups (named
/// apart) and start trigger; the document must not end inside it.
pub open spec fn act_scan(
    e: Seq<DocEventView>,
    reals: Seq<(String, Real)>,
    p: int,
    groups: Seq<GroupModel>,
    trigger: Option<TriggerModel>,
) -> Result<(Seq<GroupModel>, Option<TriggerModel>, int), ScenarioErrorView>
    decreases e.len() - p,
{
    if p < 0 || p >= e.len() {
        Err(ScenarioErrorView::Parse("Unexpected EOF in Act"@))
    } else {
        match e[p] {
            DocEventView::Start { name, attributes } => if name == "ManeuverGroup"@ {
                match first_text_of(attributes, "name"@) {
                    Err(x) => Err(x),
                    Ok(n) => match group_read(e, reals, p + 1, n) {
                        Err(x) => Err(x),
                        Ok((g, q)) => if p < q <= e.len() {
                            act_scan(e, reals, q, put_group_model(groups, g), trigger)
                        } else {
                            Err(ScenarioErrorView::Parse(Seq::empty()))
                        },
                    },
                }
            } else if name == "StartTrigger"@ {
                match trigger_read(e, reals, p + 1) {
                    Err(x) => Err(x),
                    Ok((t, q)) => if p < q <= e.len() {
                        act_scan(e, reals, q, groups, t)
                    } else {
                        Err(ScenarioErrorView::Parse(Seq::empty()))
                    },
                }
            } else {
                match skip_scan(e, p + 1, 1, name) {
                    Err(x) => Err(x),
                    Ok(q) => if p < q <= e.len() {
                        act_scan(e, reals, q, groups, trigger)
                    } else {
                        Err(ScenarioErrorView::Parse(Seq::empty()))
                    },
                }
            },
            DocEventView::Close { name } => if name == "Act"@ {
                Ok((groups, trigger, p + 1))
            } else {
                act_scan(e, reals, p + 1, groups, trigger)
            },
            DocEventView::End => Err(ScenarioErrorView::Parse("Unexpected EOF in Act"@)),
            DocEventView::Failed(m) => Err(ScenarioErrorView::Xml(m)),
            _ => act_scan(e, reals, p + 1, groups, trigger),
        }
    }
}

/// What the body of an `Act` called `name` reads to.
pub open spec fn act_read(e: Seq<DocEventView>, reals: Seq<(String, Real)>, p: int, name: Seq<char>) -> Result<
    (ActModel, int),
    ScenarioErrorView,
> {
    match act_scan(e, reals, p, Seq::empty(), None) {
        Err(x) => Err(x),
        Ok((g, t, q)) => Ok((ActModel { name, groups: g, trigger: t }, q)),
    }
}

/// Reads the body of an `Act` (see [`act_read`]).
fn read_act(evs: &Vec<DocEvent>, pos: usize, name: String, reals: &Vec<(String, Real)>) -> (r: Result<(Act, usize), ScenarioError>)
    requires
        pos <= evs@.len(),
    ensures
        r matches Ok((_, q)) ==> pos <= q <= evs@.len(),
        r matches Ok((a, _)) ==> distinct(group_names(a.maneuver_groups@)),
        match act_read(doc_event_views(evs@), reals@, pos as int, name@) {
            Ok((m, q)) => r matches Ok((x, k)) && stands_for_act(x, m) && k == q,
            Err(e) => r matches Err(x) && x@ == e,
        },
{
    let ghost ev = doc_event_views(evs@);
    let ghost whole = act_scan(ev, reals@, pos as int, Seq::empty(), None);
    let mut groups: Vec<ManeuverGroup> = Vec::new();
    let ghost mut gs: Seq<GroupModel> = Seq::empty();
    let mut start_trigger: Option<Trigger> = None;
    let ghost mut tm: Option<TriggerModel> = None;
    let mut p = pos;
    while p < evs.len()
        invariant
            pos <= p <= evs@.len(),
            ev == doc_event_views(evs@),
            whole == act_scan(ev, reals@, pos as int, Seq::empty(), None),
            whole == act_scan(ev, reals@, p as int, gs, tm),
            groups_stand_for(groups@, gs),
            stands_for_opt_trigger(start_trigger, tm),
            distinct(group_names(groups@)),
        decreases evs@.len() - p,
    {
        assert(ev[p as int] == evs@[p as int]@);
        match &evs[p] {
            DocEvent::Start((tag, attributes)) => {
                if str_eq(tag.as_str(), "ManeuverGroup") {
                    let group_name = first_text(attributes, "name")?;
                    let ghost n = group_name@;
                    let (g, q) = read_group(evs, p + 1, group_name, reals)?;
                    proof {
                        gs = put_group_model(gs, group_read(ev, reals@, p + 1, n)->Ok_0.0);
                    }
                    put_group(&mut groups, g);
                    p = q;
                } else if str_eq(tag.as_str(), "StartTrigger") {
                    let (t, q) = read_start_trigger(evs, p + 1, reals)?;
                    proof {
                        tm = trigger_read(ev, reals@, p + 1)->Ok_0.0;
                    }
                    start_trigger = t;
                    p = q;
                } else {
                    p = skip_element(evs, p + 1, tag.as_str())?;
                }
            },
            DocEvent::Close(tag) => {
                if str_eq(tag.as_str(), "Act") {
                    return Ok((Act { name, maneuver_groups: groups, start_trigger }, p + 1));
                }
                p = p + 1;
            },
            DocEvent::End => {
                return Err(ScenarioError::Parse(owned("Unexpected EOF in Act")));
            },
            DocEvent::Failed(m) => {
                return Err(ScenarioError::Xml(m.clone()));
            },
            _ => {
                p = p + 1;
            },
        }
    }
    Err(ScenarioError::Parse(owned("Unexpected EOF in Act")))
}

/// Reads the body of a `Story` from event `p` on: its acts (named apart);
/// the document must not end inside it.
pub open spec fn story_scan(e: Seq<DocEventView>, reals: Seq<(String, Real)>, p: int, acts: Seq<ActModel>) -> Result<
    (Seq<ActModel>, int),
    ScenarioErrorView,
>
    decreases e.len() - p,
{
    if p < 0 || p >= e.len() {
        Err(ScenarioErrorView::Parse("Unexpected EOF in Story"@))
    } else {
        match e[p] {
            DocEventView::Start { name, attributes } => if name == "Act"@ {
                match first_text_of(attributes, "name"@) {
                    Err(x) => Err(x),
                    Ok(n) => match act_read(e, reals, p + 1, n) {
                        Err(x) => Err(x),
                        Ok((a, q)) => if p < q <= e.len() {
                            story_scan(e, reals, q, put_act_model(acts, a))
                        } else {
                            Err(ScenarioErrorView::Parse(Seq::empty()))
                        },
                    },
                }
            } else {
                story_scan(e, reals, p + 1, acts)
            },
            DocEventView::Close { name } => if name == "Story"@ {
                Ok((acts, p + 1))
            } else {
                story_scan(e, reals, p + 1, acts)
            },
            DocEventView::End => Err(ScenarioErrorView::Parse("Unexpected EOF in Story"@)),
            DocEventView::Failed(m) => Err(ScenarioErrorView::Xml(m)),
            _ => story_scan(e, reals, p + 1, acts),
        }
    }
}

/// Reads the body of a `Story` (see [`story_scan`]).
fn read_story(evs: &Vec<DocEvent>, pos: usize, name: String, reals: &Vec<(String, Real)>) -> (r: Result<(Story, usize), ScenarioError>)
    requires
        pos <= evs@.len(),
    ensures
        r matches Ok((_, q)) ==> pos <= q <= evs@.len(),
        r matches Ok((st, _)) ==> story_wf(st),
        match story_scan(doc_event_views(evs@), reals@, pos as int, Seq::empty()) {
            Ok((ms, q)) => r matches Ok((x, k)) && stands_for_story(x, StoryModel { name: name@, acts: ms }) && k == q,
            Err(e) => r matches Err(x) && x@ == e,
        },
{
    let ghost ev = doc_event_views(evs@);
    let ghost whole = story_scan(ev, reals@, pos as int, Seq::empty());
    let mut acts: Vec<Act> = Vec::new();
    let ghost mut ms: Seq<ActModel> = Seq::empty();
    let mut p = pos;
    while p < evs.len()
        invariant
            pos <= p <= evs@.len(),
            ev == doc_event_views(evs@),
            whole == story_scan(ev, reals@, pos as int, Seq::empty()),
            whole == story_scan(ev, reals@, p as int, ms),
            acts_stand_for(acts@, ms),
            distinct(act_names(acts@)),
            forall|i: int| 0 <= i < acts@.len() ==> distinct(group_names((#[trigger] acts@[i]).maneuver_groups@)),
        decreases evs@.len() - p,
    {
        assert(ev[p as int] == evs@[p as int]@);
        match &evs[p] {
            DocEvent::Start((tag, attributes)) => {
                if str_eq(tag.as_str(), "Act") {
                    let act_name = first_text(attributes, "name")?;
                    let ghost n = act_name@;
                    let (a, q) = read_act(evs, p + 1, act_name, reals)?;
                    proof {
                        ms = put_act_model(ms, act_read(ev, reals@, p + 1, n)->Ok_0.0);
                    }
                    put_act(&mut acts, a);
                    p = q;
                } else {
                    p = p + 1;
                }
            },
            DocEvent::Close(tag) => {
                if str_eq(tag.as_str(), "Story") {
                    return Ok((Story { name, acts }, p + 1));
                }
                p = p + 1;
            },
            DocEvent::End => {
                return Err(ScenarioError::Parse(owned("Unexpected EOF in Story")));
            },
            DocEvent::Failed(m) => {
                return Err(ScenarioError::Xml(m.clone()));
            },
            _ => {
                p = p + 1;
            },
        }
    }
    Err(ScenarioError::Parse(owned("Unexpected EOF in Story")))
}

/// What the body of the `Storyboard` gives: its stories and the initial
/// positions and speeds of its `Init`.
pub type StoryboardModel = (Seq<StoryModel>, Seq<(Seq<char>, PositionModel)>, Seq<(Seq<char>, Real)>);

/// Reads the body of the `Storyboard` from event `p` on.
pub open spec fn storyboard_scan(e: Seq<DocEventView>, reals: Seq<(String, Real)>, p: int, sb: StoryboardModel) -> Result<
    (StoryboardModel, int),
    ScenarioErrorView,
>
    decreases e.len() - p,
{
    if p < 0 || p >= e.len() {
        Ok((sb, p))
    } else {
        match e[p] {
            DocEventView::Start { name, attributes } => if name == "Init"@ {
                match init_scan(e, reals, p + 1, Seq::empty(), Seq::empty()) {
                    Err(x) => Err(x),
                    Ok((ps, ss, q)) => if p < q <= e.len() {
                        storyboard_scan(e, reals, q, (sb.0, ps, ss))
                    } else {
                        Err(ScenarioErrorView::Parse(Seq::empty()))
                    },
                }
            } else if name == "Story"@ {
                match first_text_of(attributes, "name"@) {
                    Err(x) => Err(x),
                    Ok(n) => match story_scan(e, reals, p + 1, Seq::empty()) {
                        Err(x) => Err(x),
                        Ok((acts, q)) => if p < q <= e.len() {
                            storyboard_scan(e, reals, q, (put_story_model(sb.0, StoryModel { name: n, acts }), sb.1, sb.2))
                        } else {
                            Err(ScenarioErrorView::Parse(Seq::empty()))
                        },
                    },
                }
            } else {
                match skip_scan(e, p + 1, 1, name) {
                    Err(x) => Err(x),
                    Ok(q) => if p < q <= e.len() {
                        storyboard_scan(e, reals, q, sb)
                    } else {
                        Err(ScenarioErrorView::Parse(Seq::empty()))
                    },
                }
            },
            DocEventView::Close { name } => if name == "Storyboard"@ {
                Ok((sb, p + 1))
            } else {
                storyboard_scan(e, reals, p + 1, sb)
            },
            DocEventView::End => Ok((sb, p)),
            DocEventView::Failed(m) => Err(ScenarioErrorView::Xml(m)),
            _ => storyboard_scan(e, reals, p + 1, sb),
        }
    }
}

/// Reads the body of the `Storyboard` (see [`storyboard_scan`]); it has no
/// stop trigger.
fn read_storyboard(evs: &Vec<DocEvent>, pos: usize, reals: &Vec<(String, Real)>) -> (r: Result<
    (Storyboard, Vec<InitialPosition>, Vec<InitialSpeed>, usize),
    ScenarioError,
>)
    requires
        pos <= evs@.len(),
    ensures
        r matches Ok((_, _, _, q)) ==> pos <= q <= evs@.len(),
        r matches Ok((sb, x, v, _)) ==> storyboard_wf(sb) && distinct(position_keys(x@)) && distinct(speed_keys(v@)),
        match storyboard_scan(doc_event_views(evs@), reals@, pos as int, (Seq::empty(), Seq::empty(), Seq::empty())) {
            Ok((m, q)) => r matches Ok((sb, x, v, k)) && stories_stand_for(sb.stories@, m.0) && sb.stop_trigger is None
                && positions_stand_for(x@, m.1) && speeds_stand_for(v@, m.2) && k == q,
            Err(e) => r matches Err(x) && x@ == e,
        },
{
    let ghost ev = doc_event_views(evs@);
    let ghost whole = storyboard_scan(ev, reals@, pos as int, (Seq::empty(), Seq::empty(), Seq::empty()));
    let mut stories: Vec<Story> = Vec::new();
    let mut positions: Vec<InitialPosition> = Vec::new();
    let mut speeds: Vec<InitialSpeed> = Vec::new();
    let ghost mut sm: StoryboardModel = (Seq::empty(), Seq::empty(), Seq::empty());
    let mut p = pos;
    while p < evs.len()
        invariant
            pos <= p <= evs@.len(),
            ev == doc_event_views(evs@),
            whole == storyboard_scan(ev, reals@, pos as int, (Seq::empty(), Seq::empty(), Seq::empty())),
            whole == storyboard_scan(ev, reals@, p as int, sm),
            stories_stand_for(stories@, sm.0),
            positions_stand_for(positions@, sm.1),
            speeds_stand_for(speeds@, sm.2),
            distinct(story_names(stories@)),
            forall|i: int| 0 <= i < stories@.len() ==> story_wf(#[trigger] stories@[i]),
            distinct(position_keys(positions@)),
            distinct(speed_keys(speeds@)),
        decreases evs@.len() - p,
    {
        assert(ev[p as int] == evs@[p as int]@);
        match &evs[p] {
            DocEvent::Start((tag, attributes)) => {
                if str_eq(tag.as_str(), "Init") {
                    let (x, v, q) = read_init(evs, p + 1, reals)?;
                    proof {
                        let f = init_scan(ev, reals@, p + 1, Seq::empty(), Seq::empty())->Ok_0;
                        sm = (sm.0, f.0, f.1);
                    }
                    positions = x;
                    speeds = v;
                    p = q;
                } else if str_eq(tag.as_str(), "Story") {
                    let story_name = first_text(attributes, "name")?;
                    let ghost n = story_name@;
                    let (st, q) = read_story(evs, p + 1, story_name, reals)?;
                    proof {
                        sm = (
                            put_story_model(sm.0, StoryModel { name: n, acts: story_scan(ev, reals@, p + 1, Seq::empty())->Ok_0.0 }),
                            sm.1,
                            sm.2,
                        );
                    }
                    put_story(&mut stories, st);
                    p = q;
                } else {
                    p = skip_element(evs, p + 1, tag.as_str())?;
                }
            },
            DocEvent::Close(tag) => {
                if str_eq(tag.as_str(), "Storyboard") {
                    return Ok((Storyboard { stories, stop_trigger: None }, positions, speeds, p + 1));
                }
                p = p + 1;
            },
            DocEvent::End => {
                return Ok((Storyboard { stories, stop_trigger: None }, positions, speeds, p));
            },
            DocEvent::Failed(m) => {
                return Err(ScenarioError::Xml(m.clone()));
            },
            _ => {
                p = p + 1;
            },
        }
    }
    Ok((Storyboard { stories, stop_trigger: None }, positions, speeds, p))
}

/// What a document reader keeps apart by name, as the keyed maps of the
/// standard do: entities, initial positions and speeds, stories, the acts of
/// each story and the maneuver groups of each act.
pub open spec fn keys_apart(s: Scenario) -> bool {
    &&& distinct(s.names())
    &&& distinct(position_keys(s.spec_initial_positions()))
    &&& distinct(speed_keys(s.spec_initial_speeds()))
    &&& storyboard_wf(s.spec_storyboard())
}

/// A scenario as a document gives it.
pub struct ScenarioModel {
    pub version: OpenScenarioVersion,
    pub parameters: Seq<ParameterModel>,
    pub road_network: Option<Seq<char>>,
    pub entities: Seq<EntityModel>,
    pub storyboard: StoryboardModel,
}

/// The scenario is the one the model gives.
pub open spec fn stands_for_scenario(s: Scenario, m: ScenarioModel) -> bool {
    &&& s.spec_version() == m.version
    &&& parameters_stand_for(s.spec_parameters(), m.parameters)
    &&& s.spec_road_network() == m.road_network
    &&& entities_stand_for(s.spec_entities(), m.entities)
    &&& stories_stand_for(s.spec_storyboard().stories@, m.storyboard.0)
    &&& s.spec_storyboard().stop_trigger is None
    &&& positions_stand_for(s.spec_initial_positions(), m.storyboard.1)
    &&& speeds_stand_for(s.spec_initial_speeds(), m.storyboard.2)
}

/// What a document gives before its root element is read: version 1.2 and
/// nothing else.
pub open spec fn empty_model() -> ScenarioModel {
    ScenarioModel {
        version: OpenScenarioVersion::V1_2,
        parameters: Seq::empty(),
        road_network: None,
        entities: Seq::empty(),
        storyboard: (Seq::empty(), Seq::empty(), Seq::empty()),
    }
}

/// Reads the body of the `OpenSCENARIO` root element from event `p` on: its
/// file header, parameters, road network, entities and storyboard (each
/// section replacing an earlier one of its kind); other elements are skipped.
pub open spec fn root_scan(e: Seq<DocEventView>, reals: Seq<(String, Real)>, p: int, m: ScenarioModel) -> Result<
    ScenarioModel,
    ScenarioErrorView,
>
    decreases e.len() - p,
{
    if p < 0 || p >= e.len() {
        Ok(m)
    } else {
        match e[p] {
            DocEventView::Start { name, .. } => if name == "ParameterDeclarations"@ {
                match parameters_scan(e, p + 1, Seq::empty()) {
                    Err(x) => Err(x),
                    Ok((ps, q)) => if p < q <= e.len() {
                        root_scan(e, reals, q, ScenarioModel { parameters: ps, ..m })
                    } else {
                        Err(ScenarioErrorView::Parse(Seq::empty()))
                    },
                }
            } else if name == "RoadNetwork"@ {
                match road_network_scan(e, p + 1, None) {
                    Err(x) => Err(x),
                    Ok((r, q)) => if p < q <= e.len() {
                        root_scan(e, reals, q, ScenarioModel { road_network: r, ..m })
                    } else {
                        Err(ScenarioErrorView::Parse(Seq::empty()))
                    },
                }
            } else if name == "Entities"@ {
                match entities_scan(e, reals, p + 1, Seq::empty()) {
                    Err(x) => Err(x),
                    Ok((ents, q)) => if p < q <= e.len() {
                        root_scan(e, reals, q, ScenarioModel { entities: ents, ..m })
                    } else {
                        Err(ScenarioErrorView::Parse(Seq::empty()))
                    },
                }
            } else if name == "Storyboard"@ {
                match storyboard_scan(e, reals, p + 1, (Seq::empty(), Seq::empty(), Seq::empty())) {
                    Err(x) => Err(x),
                    Ok((sb, q)) => if p < q <= e.len() {
                        root_scan(e, reals, q, ScenarioModel { storyboard: sb, ..m })
                    } else {
                        Err(ScenarioErrorView::Parse(Seq::empty()))
                    },
                }
            } else {
                match skip_scan(e, p + 1, 1, name) {
                    Err(x) => Err(x),
                    Ok(q) => if p < q <= e.len() {
                        root_scan(e, reals, q, m)
                    } else {
                        Err(ScenarioErrorView::Parse(Seq::empty()))
                    },
                }
            },
            DocEventView::Empty { name, attributes } => if name == "FileHeader"@ {
                match attributes {
                    Err(x) => Err(ScenarioErrorView::Parse(x)),
                    Ok(v) => match spec_header_version(v) {
                        Err(x) => Err(x),
                        Ok(ver) => root_scan(e, reals, p + 1, ScenarioModel { version: ver, ..m }),
                    },
                }
            } else {
                root_scan(e, reals, p + 1, m)
            },
            DocEventView::Close { name } => if name == "OpenSCENARIO"@ {
                Ok(m)
            } else {
                root_scan(e, reals, p + 1, m)
            },
            DocEventView::End => Ok(m),
            DocEventView::Failed(x) => Err(ScenarioErrorView::Xml(x)),
            _ => root_scan(e, reals, p + 1, m),
        }
    }
}

/// Reads the body of the `OpenSCENARIO` root element (see [`root_scan`]).
fn read_root(evs: &Vec<DocEvent>, pos: usize, reals: &Vec<(String, Real)>) -> (r: Result<Scenario, ScenarioError>)
    requires
        pos <= evs@.len(),
    ensures
        r matches Ok(s) ==> keys_apart(s),
        match root_scan(doc_event_views(evs@), reals@, pos as int, empty_model()) {
            Ok(m) => r matches Ok(s) && stands_for_scenario(s, m),
            Err(e) => r matches Err(x) && x@ == e,
        },
{
    let ghost ev = doc_event_views(evs@);
    let ghost whole = root_scan(ev, reals@, pos as int, empty_model());
    let ghost mut m = empty_model();
    let mut version = OpenScenarioVersion::V1_2;
    let mut entities: Vec<Entity> = Vec::new();
    let mut positions: Vec<InitialPosition> = Vec::new();
    let mut speeds: Vec<InitialSpeed> = Vec::new();
    let mut road_network: Option<String> = None;
    let mut parameters: Vec<ParameterDeclaration> = Vec::new();
    let mut storyboard = Storyboard::new();
    let mut p = pos;
    while p < evs.len()
        invariant
            pos <= p <= evs@.len(),
            ev == doc_event_views(evs@),
            whole == root_scan(ev, reals@, pos as int, empty_model()),
            whole == root_scan(ev, reals@, p as int, m),
            version == m.version,
            parameters_stand_for(parameters@, m.parameters),
            opt_string(road_network) == m.road_network,
            entities_stand_for(entities@, m.entities),
            stories_stand_for(storyboard.stories@, m.storyboard.0),
            storyboard.stop_trigger is None,
            positions_stand_for(positions@, m.storyboard.1),
            speeds_stand_for(speeds@, m.storyboard.2),
            distinct(entity_names(entities@)),
            distinct(position_keys(positions@)),
            distinct(speed_keys(speeds@)),
            storyboard_wf(storyboard),
        decreases evs@.len() - p,
    {
        assert(ev[p as int] == evs@[p as int]@);
        match &evs[p] {
            DocEvent::Start((tag, _)) => {
                if str_eq(tag.as_str(), "ParameterDeclarations") {
                    let (x, q) = read_parameters(evs, p + 1)?;
                    proof {
                        m = ScenarioModel { parameters: parameters_scan(ev, p + 1, Seq::empty())->Ok_0.0, ..m };
                    }
                    parameters = x;
                    p = q;
                } else if str_eq(tag.as_str(), "RoadNetwork") {
                    let (x, q) = read_road_network(evs, p + 1)?;
                    proof {
                        m = ScenarioModel { road_network: road_network_scan(ev, p + 1, None)->Ok_0.0, ..m };
                    }
                    road_network = x;
                    p = q;
                } else if str_eq(tag.as_str(), "Entities") {
                    let (x, q) = read_entities(evs, p + 1, reals)?;
                    proof {
                        m = ScenarioModel { entities: entities_scan(ev, reals@, p + 1, Seq::empty())->Ok_0.0, ..m };
                    }
                    entities = x;
                    p = q;
                } else if str_eq(tag.as_str(), "Storyboard") {
                    let (sb, x, v, q) = read_storyboard(evs, p + 1, reals)?;
                    proof {
                        m = ScenarioModel {
                            storyboard: storyboard_scan(ev, reals@, p + 1, (Seq::empty(), Seq::empty(), Seq::empty()))->Ok_0.0,
                            ..m
                        };
                    }
                    storyboard = sb;
                    positions = x;
                    speeds = v;
                    p = q;
                } else {
                    p = skip_element(evs, p + 1, tag.as_str())?;
                }
            },
            DocEvent::Empty((tag, attributes)) => {
                if str_eq(tag.as_str(), "FileHeader") {
                    version = match attributes {
                        Ok(v) => header_version(v)?,
                        Err(x) => {
                            return Err(ScenarioError::Parse(x.clone()));
                        },
                    };
                    proof {
                        m = ScenarioModel { version, ..m };
                    }
                }
                p = p + 1;
            },
            DocEvent::Close(tag) => {
                if str_eq(tag.as_str(), "OpenSCENARIO") {
                    return Ok(Scenario::assemble(version, entities, positions, speeds, road_network, parameters, storyboard));
                }
                p = p + 1;
            },
            DocEvent::End => {
                return Ok(Scenario::assemble(version, entities, positions, speeds, road_network, parameters, storyboard));
            },
            DocEvent::Failed(x) => {
                return Err(ScenarioError::Xml(x.clone()));
            },
            _ => {
                p = p + 1;
            },
        }
    }
    Ok(Scenario::assemble(version, entities, positions, speeds, road_network, parameters, storyboard))
}

/// Where the root element starts: the first start tag `OpenSCENARIO`, unless
/// the document ends or fails before it.
pub enum RootSearch {
    Found(int),
    Missing,
    Broken(Seq<char>),
}

/// Looks for the root element from event `i` on.
pub open spec fn find_root(evs: Seq<DocEventView>, i: int) -> RootSearch
    decreases evs.len() - i,
{
    if i < 0 || i >= evs.len() {
        RootSearch::Missing
    } else {
        match evs[i] {
            DocEventView::Start { name, .. } => if name == "OpenSCENARIO"@ {
                RootSearch::Found(i)
            } else {
                find_root(evs, i + 1)
            },
            DocEventView::End => RootSearch::Missing,
            DocEventView::Failed(m) => RootSearch::Broken(m),
            _ => find_root(evs, i + 1),
        }
    }
}

/// The message for a document without root element.
pub open spec fn no_root_message() -> Seq<char> {
    "No OpenSCENARIO root element found"@
}

/// What a document reads to from its events: the body of its root element,
/// which it must have.
pub open spec fn document_read(e: Seq<DocEventView>, reals: Seq<(String, Real)>) -> Result<ScenarioModel, ScenarioErrorView> {
    match find_root(e, 0) {
        RootSearch::Missing => Err(ScenarioErrorView::Parse(no_root_message())),
        RootSearch::Broken(m) => Err(ScenarioErrorView::Xml(m)),
        RootSearch::Found(i) => root_scan(e, reals, i + 1, empty_model()),
    }
}

/// The reading gave the scenario the model describes, or the error; a
/// scenario read keeps its keys apart.
pub open spec fn read_outcome(d: Result<ScenarioModel, ScenarioErrorView>, r: Result<Scenario, ScenarioError>) -> bool {
    match d {
        Ok(m) => r matches Ok(s) && stands_for_scenario(s, m) && keys_apart(s),
        Err(e) => r matches Err(x) && x@ == e,
    }
}

/// The checks made on a whole document before reading it: at most
/// 104857600 bytes, and not blank.
pub open spec fn document_check(bytes: nat, xml: Seq<char>) -> Option<ScenarioErrorView> {
    if bytes > 104857600 {
        Some(ScenarioErrorView::InvalidValue {
            field: "xml_size"@,
            reason: "XML file too large ("@ + crate::text::decimal(bytes)
                + " bytes). Maximum size is 104857600 bytes (100MB)"@,
        })
    } else if is_blank(xml) {
        Some(ScenarioErrorView::Parse("XML file is empty or contains only whitespace"@))
    } else {
        None
    }
}

impl Scenario {
    /// Reads a scenario from the events of its document (see
    /// [`read_document_events`]): the root element `OpenSCENARIO`, whose file
    /// header, parameters, road network, entities and storyboard make the
    /// scenario. `reals` lists the attribute texts that denote numbers, with
    /// their values; a text it lacks denotes none.
    pub fn from_events(events: &Vec<DocEvent>, reals: &Vec<(String, Real)>) -> (r: Result<Scenario, ScenarioError>)
        ensures
            read_outcome(document_read(doc_event_views(events@), reals@), r),
    {
        let ghost evs = doc_event_views(events@);
        let mut p: usize = 0;
        while p < events.len()
            invariant
                p <= events@.len(),
                evs == doc_event_views(events@),
                find_root(evs, 0) == find_root(evs, p as int),
            decreases events@.len() - p,
        {
            assert(evs[p as int] == events@[p as int]@);
            match &events[p] {
                DocEvent::Start((name, _)) => {
                    if str_eq(name.as_str(), "OpenSCENARIO") {
                        return read_root(events, p + 1, reals);
                    }
                },
                DocEvent::End => {
                    return Err(ScenarioError::Parse(owned("No OpenSCENARIO root element found")));
                },
                DocEvent::Failed(m) => {
                    return Err(ScenarioError::Xml(m.clone()));
                },
                _ => {},
            }
            p = p + 1;
        }
        Err(ScenarioError::Parse(owned("No OpenSCENARIO root element found")))
    }

    /// Reads a scenario from an OpenSCENARIO document of at most 100 MiB that
    /// is not blank (see [`Scenario::from_events`] for `reals`).
    pub fn from_xml(xml: &str, reals: &Vec<(String, Real)>) -> (r: Result<Scenario, ScenarioError>)
        ensures
            match document_check((xml.spec_bytes().len() as usize) as nat, xml@) {
                Some(e) => r matches Err(x) && x@ == e,
                None => read_outcome(document_read(document_events(xml@), reals@), r),
            },
    {
        let size = xml.len();
        if size > 104857600 {
            let mut reason = concat2("XML file too large (", decimal_string(size as u64).as_str());
            reason.append(" bytes). Maximum size is 104857600 bytes (100MB)");
            return Err(ScenarioError::InvalidValue { field: owned("xml_size"), reason });
        }
        if blank(xml) {
            return Err(ScenarioError::Parse(owned("XML file is empty or contains only whitespace")));
        }
        let events = read_document_events(xml);
        Scenario::from_events(&events, reals)
    }
}

} // verus!

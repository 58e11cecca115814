//! The scenario-authoring service behind the tool server: scenarios kept by
//! id, the loaded road network, and the operations offered on them. Failures
//! are reported as message texts.
use vstd::prelude::*;
use crate::entities::{
    CatalogReference, Entity, MiscObjectParams, PedestrianParams, VehicleCategory, VehicleParams, category_of_label,
    lowercase, to_lowercase,
};
use crate::editing::{
    act_added, act_start_trigger_of, act_trigger_set, event_start_trigger_of, event_trigger_set, group_added,
    maneuver_added, story_added,
};
use crate::error::{ScenarioError, ScenarioErrorView, error_message};
use crate::storyboard::{
    Action, ByValueCondition, Condition, ConditionEdge, ConditionGroup, ConditionKind, DynamicsDimension, DynamicsShape,
    EntityCondition, LaneChangeAction, Rule, SpeedAction, Storyboard, TransitionDynamics, TransitionShape, Trigger,
    TriggeringEntitiesRule,
};
use crate::scenario::{duration_check, speed_check};
use crate::opendrive_validator::{OpenDriveValidator, ValidationError};
use crate::position::Position;
use crate::quantity::Real;
use crate::inspection::{
    condition_description, format_condition_description, inspection_report, inspect_scenario, join_texts, joined,
    scenario_issues,
};
use crate::scenario::Scenario;
use crate::text::{concat2, concat3, distinct, first_index, has_repeats, lemma_first_index, owned, str_eq, views};
use crate::version::{OpenScenarioVersion, spec_from_label, version_from_label};

verus! {

/// Calls `uuid::Uuid::new_v4` and writes the id in its hyphenated form,
/// which is 36 characters long. The id is random, so nothing else is stated.
#[verifier::external_body]
fn fresh_uuid() -> (r: String)
    ensures
        r@.len() == 36,
{
    uuid::Uuid::new_v4().to_string()
}

/// The tool server itself; all its state is in a [`ServerState`].
pub struct OpenScenarioServer;

impl OpenScenarioServer {
    /// The server.
    pub fn new() -> (r: Self) {
        OpenScenarioServer
    }
}

struct ScenarioSlot {
    id: String,
    scenario: Scenario,
}

/// The scenarios being edited, by id, and the road network they are built on.
pub struct ServerState {
    slots: Vec<ScenarioSlot>,
    road_validator: Option<OpenDriveValidator>,
    current_road_network: Option<String>,
}

/// The result of an operation as texts.
pub open spec fn outcome(r: Result<String, String>) -> Result<Seq<char>, Seq<char>> {
    match r {
        Ok(s) => Ok(s@),
        Err(m) => Err(m@),
    }
}

impl ServerState {
    /// The ids of the scenarios, in the order they were created.
    pub closed spec fn ids(&self) -> Seq<Seq<char>> {
        self.slots@.map_values(|s: ScenarioSlot| s.id@)
    }

    /// The scenarios, in the same order as their ids.
    pub closed spec fn scenarios(&self) -> Seq<Scenario> {
        self.slots@.map_values(|s: ScenarioSlot| s.scenario)
    }

    /// The path of the loaded road network, if any.
    pub closed spec fn network(&self) -> Option<Seq<char>> {
        match self.current_road_network {
            Some(p) => Some(p@),
            None => None,
        }
    }

    /// The loaded road network, if any.
    pub closed spec fn spec_validator(&self) -> Option<OpenDriveValidator> {
        self.road_validator
    }

    /// There is one scenario per id.
    pub proof fn lemma_lengths(&self)
        ensures
            self.ids().len() == self.scenarios().len(),
    {
    }

    /// Where the scenario with this id is, or -1.
    pub open spec fn slot_of(&self, id: Seq<char>) -> int {
        first_index(self.ids(), id)
    }

    /// `new` is `old` with only scenario `k` changed, as `f` relates the two versions.
    pub open spec fn only_slot_changed(old: &ServerState, new: &ServerState, k: int, f: spec_fn(Scenario, Scenario) -> bool) -> bool {
        &&& 0 <= k < old.scenarios().len()
        &&& new.ids() == old.ids()
        &&& new.network() == old.network()
        &&& new.spec_validator() == old.spec_validator()
        &&& new.scenarios().len() == old.scenarios().len()
        &&& forall|j: int| 0 <= j < old.scenarios().len() && j != k ==> new.scenarios()[j] == old.scenarios()[j]
        &&& f(old.scenarios()[k], new.scenarios()[k])
    }

    /// No scenarios and no road network.
    pub fn new() -> (r: Self)
        ensures
            r.ids().len() == 0,
            r.network() is None,
            r.spec_validator() is None,
    {
        let r = ServerState { slots: Vec::new(), road_validator: None, current_road_network: None };
        assert(r.ids() =~= Seq::<Seq<char>>::empty());
        r
    }

    fn find(&self, id: &str) -> (r: Option<usize>)
        ensures
            self.ids().len() == self.scenarios().len(),
            match r {
                Some(k) => self.slot_of(id@) == k && k < self.scenarios().len(),
                None => self.slot_of(id@) == -1,
            },
    {
        let ghost ids = self.ids();
        let mut i: usize = 0;
        while i < self.slots.len()
            invariant
                i <= self.slots@.len(),
                ids == self.ids(),
                forall|j: int| 0 <= j < i ==> ids[j] != id@,
            decreases self.slots@.len() - i,
        {
            assert(ids[i as int] == self.slots@[i as int].id@);
            if str_eq(self.slots[i].id.as_str(), id) {
                proof { lemma_first_index(ids, id@, i as int); }
                return Some(i);
            }
            i = i + 1;
        }
        proof { lemma_first_index(ids, id@, i as int); }
        None
    }

    /// The scenario with this id.
    pub fn scenario(&self, id: &str) -> (r: Option<&Scenario>)
        ensures
            match r {
                Some(s) => self.slot_of(id@) >= 0 && *s == self.scenarios()[self.slot_of(id@)],
                None => self.slot_of(id@) == -1,
            },
    {
        match self.find(id) {
            Some(k) => Some(&self.slots[k].scenario),
            None => None,
        }
    }

    /// Mutable access to the scenario with this id; nothing else changes.
    pub fn scenario_mut(&mut self, id: &str) -> (r: Option<&mut Scenario>)
        ensures
            old(self).slot_of(id@) < 0 ==> r is None && *final(self) == *old(self),
            old(self).slot_of(id@) >= 0 ==> r is Some,
            r matches Some(s) ==> *s == old(self).scenarios()[old(self).slot_of(id@)],
            r matches Some(s) ==> final(self).ids() == old(self).ids(),
            r matches Some(s) ==> final(self).scenarios() == old(self).scenarios().update(old(self).slot_of(id@), *final(s)),
            r matches Some(s) ==> final(self).network() == old(self).network(),
            r matches Some(s) ==> final(self).spec_validator() == old(self).spec_validator(),
    {
        match self.find(id) {
            Some(k) => {
                let slot = &mut self.slots[k];
                Some(&mut slot.scenario)
            },
            None => None,
        }
    }

    /// The path of the loaded road network, if any.
    pub fn road_network(&self) -> (r: Option<&str>)
        ensures
            match r {
                Some(p) => self.network() == Some(p@),
                None => self.network() is None,
            },
    {
        match &self.current_road_network {
            Some(p) => Some(p.as_str()),
            None => None,
        }
    }

    /// The loaded road network, if any.
    pub fn road_validator(&self) -> (r: Option<&OpenDriveValidator>)
        ensures
            match r {
                Some(v) => self.spec_validator() == Some(*v),
                None => self.spec_validator() is None,
            },
    {
        match &self.road_validator {
            Some(v) => Some(v),
            None => None,
        }
    }

    /// Makes `validator`, read from `path`, the road network new scenarios are built on.
    pub fn attach_road_network(&mut self, path: &str, validator: OpenDriveValidator)
        ensures
            final(self).ids() == old(self).ids(),
            final(self).scenarios() == old(self).scenarios(),
            final(self).network() == Some(path@),
            final(self).spec_validator() == Some(validator),
    {
        self.road_validator = Some(validator);
        self.current_road_network = Some(owned(path));
    }

    /// Stores a scenario under `id`, in place of one with the same id.
    pub fn insert_scenario(&mut self, id: String, scenario: Scenario)
        ensures
            final(self).network() == old(self).network(),
            final(self).spec_validator() == old(self).spec_validator(),
            old(self).slot_of(id@) >= 0 ==> final(self).ids() == old(self).ids()
                && final(self).scenarios() == old(self).scenarios().update(old(self).slot_of(id@), scenario),
            old(self).slot_of(id@) < 0 ==> final(self).ids() == old(self).ids().push(id@)
                && final(self).scenarios() == old(self).scenarios().push(scenario),
    {
        match self.find(id.as_str()) {
            Some(k) => {
                let ghost before = *self;
                let slot = &mut self.slots[k];
                slot.scenario = scenario;
                assert(self.ids() =~= before.ids());
                assert(self.scenarios() =~= before.scenarios().update(k as int, scenario));
            },
            None => {
                let ghost before = *self;
                let ghost key = id@;
                self.slots.push(ScenarioSlot { id, scenario });
                assert(self.ids() =~= before.ids().push(key));
                assert(self.scenarios() =~= before.scenarios().push(scenario));
            },
        }
    }
}

/// The message for a version that is not supported.
pub open spec fn invalid_version_message(version: Seq<char>) -> Seq<char> {
    "Invalid version: "@ + version + ". Must be 1.0, 1.1, or 1.2"@
}

/// What creating a scenario called `name` with id suffix `suffix` does: a
/// known version gives a fresh scenario under the id `name` + "_" + `suffix`,
/// on the loaded road network if there is one, in place of a scenario of the
/// same id.
pub open spec fn creation(old: &ServerState, new: &ServerState, r: Result<String, String>, name: Seq<char>, version: Seq<char>, suffix: Seq<char>) -> bool {
    match spec_from_label(version) {
        None => outcome(r) == Err::<Seq<char>, Seq<char>>(invalid_version_message(version)) && *new == *old,
        Some(v) => {
            let id = name + "_"@ + suffix;
            let k = old.slot_of(id);
            &&& outcome(r) == Ok::<Seq<char>, Seq<char>>(id)
            &&& new.network() == old.network()
            &&& new.spec_validator() == old.spec_validator()
            &&& new.ids() == (if k >= 0 { old.ids() } else { old.ids().push(id) })
            &&& new.scenarios().len() == (if k >= 0 { old.scenarios().len() as int } else { old.scenarios().len() + 1int })
            &&& forall|j: int| 0 <= j < old.scenarios().len() && j != k ==> new.scenarios()[j] == old.scenarios()[j]
            &&& fresh_scenario(new.scenarios()[if k >= 0 { k } else { old.scenarios().len() as int }], v, old.network())
        },
    }
}

/// A new scenario of version `v` on the road network `path`, if any.
pub open spec fn fresh_scenario(s: Scenario, v: OpenScenarioVersion, path: Option<Seq<char>>) -> bool {
    &&& s.spec_version() == v
    &&& s.spec_entities().len() == 0
    &&& s.spec_initial_positions().len() == 0
    &&& s.spec_initial_speeds().len() == 0
    &&& s.spec_parameters().len() == 0
    &&& s.spec_storyboard().stories@.len() == 0
    &&& s.spec_storyboard().stop_trigger is None
    &&& s.spec_road_network() == path
    &&& s.wf()
}

/// Creates a scenario of `version` (on the loaded road network, if any), under the id
/// `name` + "_" + `suffix`, and gives the id.
pub fn create_scenario_with_suffix(state: &mut ServerState, name: &str, version: &str, suffix: &str) -> (r: Result<String, String>)
    ensures
        creation(old(state), final(state), r, name@, version@, suffix@),
{
    let v = match version_from_label(version) {
        Some(v) => v,
        None => {
            return Err(concat3("Invalid version: ", version, ". Must be 1.0, 1.1, or 1.2"));
        },
    };
    let mut scenario = Scenario::new(v);
    match state.road_network() {
        Some(p) => {
            scenario.set_road_network(p);
        },
        None => {},
    }
    let id = concat3(name, "_", suffix);
    let result = id.clone();
    let ghost before = *state;
    let ghost sc = scenario;
    assert(fresh_scenario(sc, v, state.network()));
    proof {
        state.lemma_lengths();
        crate::text::lemma_first_index_bounds(state.ids(), id@);
    }
    state.insert_scenario(id, scenario);
    proof {
        state.lemma_lengths();
        let k = before.slot_of(result@);
        assert(state.scenarios()[if k >= 0 { k } else { before.scenarios().len() as int }] == sc);
    }
    Ok(result)
}

/// Creates a scenario of `version` (on the loaded road network, if any) under the id
/// `name` + "_" + a fresh random UUID, and gives the id.
pub fn handle_create_scenario(state: &mut ServerState, name: &str, version: &str) -> (r: Result<String, String>)
    ensures
        exists|suffix: Seq<char>| suffix.len() == 36 && #[trigger] creation(old(state), final(state), r, name@, version@, suffix),
{
    let suffix = fresh_uuid();
    create_scenario_with_suffix(state, name, version, suffix.as_str())
}

/// The message for an unknown scenario id.
pub open spec fn unknown_scenario(id: Seq<char>) -> Seq<char> {
    "Scenario not found: "@ + id
}

/// The vehicle categories the tools accept, by lower-case name.
pub open spec fn tool_category(lower: Seq<char>) -> Option<VehicleCategory> {
    match category_of_label(lower) {
        Some(VehicleCategory::Semitrailer) => None,
        Some(VehicleCategory::Train) => None,
        Some(VehicleCategory::Tram) => None,
        other => other,
    }
}

/// Where `s` has its only colon, if it has exactly one.
pub open spec fn single_colon(s: Seq<char>) -> Option<int> {
    if exists|i: int| 0 <= i < s.len() && s[i] == ':' && forall|j: int| 0 <= j < s.len() && j != i ==> s[j] != ':' {
        Some(choose|i: int| 0 <= i < s.len() && s[i] == ':' && forall|j: int| 0 <= j < s.len() && j != i ==> s[j] != ':')
    } else {
        None
    }
}

/// Splits `s` at its only colon, if it has exactly one.
fn split_at_single_colon(s: &str) -> (r: Option<(String, String)>)
    ensures
        match single_colon(s@) {
            Some(i) => r matches Some((a, b)) && a@ == s@.subrange(0, i) && b@ == s@.subrange(i + 1, s@.len() as int),
            None => r is None,
        },
{
    let n = s.unicode_len();
    let mut count: usize = 0;
    let mut at: usize = 0;
    let mut i: usize = 0;
    while i < n
        invariant
            i <= n,
            n == s@.len(),
            count <= i,
            count == 0 ==> forall|j: int| 0 <= j < i ==> s@[j] != ':',
            count >= 1 ==> at < i && s@[at as int] == ':',
            count == 1 ==> forall|j: int| 0 <= j < i && j != at ==> s@[j] != ':',
            count >= 2 ==> exists|j: int| 0 <= j < i && j != at && s@[j] == ':',
        decreases n - i,
    {
        if s.get_char(i) == ':' {
            if count == 0 {
                at = i;
            }
            count = count + 1;
        }
        i = i + 1;
    }
    if count != 1 {
        proof {
            if single_colon(s@) is Some {
                let w = choose|k: int| 0 <= k < s@.len() && s@[k] == ':' && forall|j: int| 0 <= j < s@.len() && j != k ==> s@[j] != ':';
                if count >= 2 {
                    let j2 = choose|j: int| 0 <= j < i && j != at && s@[j] == ':';
                    assert(j2 == w && at as int == w);
                }
            }
        }
        return None;
    }
    proof {
        assert(exists|k: int| 0 <= k < s@.len() && s@[k] == ':' && forall|j: int| 0 <= j < s@.len() && j != k ==> s@[j] != ':') by {
            assert(s@[at as int] == ':');
        }
        let w = choose|k: int| 0 <= k < s@.len() && s@[k] == ':' && forall|j: int| 0 <= j < s@.len() && j != k ==> s@[j] != ':';
        if w != at {
            assert(s@[w] != ':');
        }
    }
    let a = s.substring_char(0, at);
    let b = s.substring_char(at + 1, n);
    Some((owned(a), owned(b)))
}

/// The catalog reference a vehicle tool call names: `path:entry` at a single
/// colon, otherwise the whole text as the path and the vehicle's name as the entry.
pub open spec fn vehicle_catalog(c: Option<CatalogReference>, text: Option<Seq<char>>, name: Seq<char>) -> bool {
    match text {
        None => c is None,
        Some(t) => c matches Some(x) && match single_colon(t) {
            Some(i) => x.path@ == t.subrange(0, i) && x.entry_name@ == t.subrange(i + 1, t.len() as int),
            None => x.path@ == t && x.entry_name@ == name,
        },
    }
}

/// The texts of an optional `&str`.
pub open spec fn opt_view(t: Option<&str>) -> Option<Seq<char>> {
    match t {
        Some(s) => Some(s@),
        None => None,
    }
}

/// Adds a vehicle (category by name, in any case; optional catalog reference)
/// to a scenario, and gives its name.
pub fn handle_add_vehicle(state: &mut ServerState, scenario_id: &str, name: &str, category: &str, catalog: Option<&str>) -> (r: Result<String, String>)
    ensures
        match tool_category(lowercase(category@)) {
            None => outcome(r) == Err::<Seq<char>, Seq<char>>("Invalid vehicle category: "@ + category@) && *final(state) == *old(state),
            Some(c) => if old(state).slot_of(scenario_id@) < 0 {
                outcome(r) == Err::<Seq<char>, Seq<char>>(unknown_scenario(scenario_id@)) && *final(state) == *old(state)
            } else {
                let k = old(state).slot_of(scenario_id@);
                &&& ServerState::only_slot_changed(old(state), final(state), k, |o: Scenario, n: Scenario| Scenario::entity_change(&o, &n, name@,
                    |e: Entity| e matches Entity::Vehicle(v) && v.params.vehicle_category == c && v.params.properties is None
                        && vehicle_catalog(v.params.catalog, opt_view(catalog), name@)))
                &&& outcome(r) == match old(state).scenarios()[k].add_entity_outcome(name@) {
                    Err(e) => Err::<Seq<char>, Seq<char>>(error_message(e)),
                    Ok(_) => Ok(name@),
                }
            },
        },
{
    let vehicle_category = match VehicleCategory::from_name(category) {
        Some(VehicleCategory::Semitrailer) | Some(VehicleCategory::Train) | Some(VehicleCategory::Tram) | None => {
            return Err(concat2("Invalid vehicle category: ", category));
        },
        Some(c) => c,
    };
    let catalog_ref = match catalog {
        None => None,
        Some(path) => match split_at_single_colon(path) {
            Some((p, e)) => Some(CatalogReference { path: p, entry_name: e }),
            None => Some(CatalogReference { path: owned(path), entry_name: owned(name) }),
        },
    };
    let params = VehicleParams { catalog: catalog_ref, vehicle_category, properties: None };
    let k = match state.find(scenario_id) {
        Some(k) => k,
        None => {
            return Err(concat2("Scenario not found: ", scenario_id));
        },
    };
    let ghost before = *state;
    let slot = &mut state.slots[k];
    let result = slot.scenario.add_vehicle(name, params);
    assert(state.ids() =~= before.ids());
    match result {
        Ok(()) => Ok(owned(name)),
        Err(e) => Err(e.message()),
    }
}

/// Finds a scenario, or the "not found" message.
fn locate(state: &ServerState, scenario_id: &str) -> (r: Result<usize, String>)
    ensures
        state.ids().len() == state.scenarios().len(),
        match r {
            Ok(k) => k == state.slot_of(scenario_id@) && k < state.scenarios().len(),
            Err(m) => m@ == unknown_scenario(scenario_id@) && state.slot_of(scenario_id@) < 0,
        },
{
    match state.find(scenario_id) {
        Some(k) => Ok(k),
        None => Err(concat2("Scenario not found: ", scenario_id)),
    }
}

/// What an operation on scenario `id` gives: the "not found" message with
/// nothing changed, or only that scenario changed as `f` says.
pub open spec fn on_scenario(old: &ServerState, new: &ServerState, r: Result<String, String>, id: Seq<char>, f: spec_fn(Scenario, Scenario) -> bool) -> bool {
    if old.slot_of(id) < 0 {
        outcome(r) == Err::<Seq<char>, Seq<char>>(unknown_scenario(id)) && *new == *old
    } else {
        ServerState::only_slot_changed(old, new, old.slot_of(id), f)
    }
}

/// The scenario with this id, when there is one.
pub open spec fn scenario_of(state: &ServerState, id: Seq<char>) -> Scenario {
    state.scenarios()[state.slot_of(id)]
}

/// Sets a world position (pitch and roll zero) as the initial position of an entity.
pub fn handle_set_position(state: &mut ServerState, scenario_id: &str, entity_name: &str, x: Real, y: Real, z: Real, h: Real) -> (r: Result<String, String>)
    ensures
        on_scenario(old(state), final(state), r, scenario_id@, |o: Scenario, n: Scenario| Scenario::position_change(&o, &n,
            entity_name@, Position::World { x, y, z, h, p: Real { bits: 0 }, r: Real { bits: 0 } })),
        old(state).slot_of(scenario_id@) >= 0 ==> outcome(r) == match scenario_of(old(state), scenario_id@).position_outcome(
            entity_name@, Position::World { x, y, z, h, p: Real { bits: 0 }, r: Real { bits: 0 } }) {
            Err(e) => Err::<Seq<char>, Seq<char>>(error_message(e)),
            Ok(_) => Ok("Position set for entity: "@ + entity_name@),
        },
{
    let position = Position::world(x, y, z, h);
    let k = locate(state, scenario_id)?;
    let ghost before = *state;
    let slot = &mut state.slots[k];
    let result = slot.scenario.set_initial_position(entity_name, position);
    assert(state.ids() =~= before.ids());
    match result {
        Ok(()) => Ok(concat2("Position set for entity: ", entity_name)),
        Err(e) => Err(e.message()),
    }
}

/// Mass in kilograms as binary64 bit patterns: 0, 70, 500 and 100000.
pub open spec fn kg(n: int) -> Real {
    if n == 70 {
        Real { bits: 0x4051_8000_0000_0000 }
    } else if n == 500 {
        Real { bits: 0x407F_4000_0000_0000 }
    } else {
        Real { bits: 0x40F8_6A00_0000_0000 }
    }
}

/// The pedestrian parameters a tool call gives: the catalog reference at a
/// single colon, and the mass (70 kg when none is given).
pub open spec fn pedestrian_params(p: PedestrianParams, catalog: Option<Seq<char>>, mass: Option<Real>) -> bool {
    &&& p.model is None
    &&& p.mass == (if mass is Some { mass } else { Some(kg(70)) })
    &&& match catalog {
        None => p.catalog is None,
        Some(t) => p.catalog matches Some(c) && single_colon(t) matches Some(i) && c.path@ == t.subrange(0, i)
            && c.entry_name@ == t.subrange(i + 1, t.len() as int),
    }
}

/// The checks of a pedestrian tool call: the catalog text, then the mass
/// (`mass_text` is how the mass is written).
pub open spec fn pedestrian_check(catalog: Option<Seq<char>>, mass: Option<Real>, mass_text: Seq<char>) -> Option<Seq<char>> {
    if catalog matches Some(t) && single_colon(t) is None {
        Some("Invalid catalog format: '"@ + catalog->0 + "'. Expected 'path:entry_name'"@)
    } else {
        match mass {
            Some(m) => if m.spec_le_zero() {
                Some("Mass must be positive, got: "@ + mass_text)
            } else if kg(500).spec_lt(m) {
                Some("Mass "@ + mass_text + " kg seems unrealistic for a pedestrian. Max: 500 kg"@)
            } else {
                None
            },
            None => None,
        }
    }
}

/// Adds a pedestrian (optional `path:entry` catalog reference and mass) to a
/// scenario, and gives its name. `mass_text` is how the mass is written in messages.
pub fn handle_add_pedestrian(
    state: &mut ServerState,
    scenario_id: &str,
    name: &str,
    catalog: Option<&str>,
    mass: Option<Real>,
    mass_text: &str,
) -> (r: Result<String, String>)
    ensures
        match pedestrian_check(opt_view(catalog), mass, mass_text@) {
            Some(m) => outcome(r) == Err::<Seq<char>, Seq<char>>(m) && *final(state) == *old(state),
            None => {
                &&& on_scenario(old(state), final(state), r, scenario_id@, |o: Scenario, n: Scenario| Scenario::entity_change(&o, &n, name@,
                    |e: Entity| e matches Entity::Pedestrian(p) && pedestrian_params(p.params, opt_view(catalog), mass)))
                &&& old(state).slot_of(scenario_id@) >= 0 ==> outcome(r) == match scenario_of(old(state), scenario_id@).add_entity_outcome(name@) {
                    Err(e) => Err::<Seq<char>, Seq<char>>(error_message(e)),
                    Ok(_) => Ok(name@),
                }
            },
        },
{
    let catalog_ref = match catalog {
        None => None,
        Some(path) => match split_at_single_colon(path) {
            Some((p, e)) => Some(CatalogReference { path: p, entry_name: e }),
            None => {
                return Err(concat3("Invalid catalog format: '", path, "'. Expected 'path:entry_name'"));
            },
        },
    };
    match mass {
        Some(m) => {
            if m.le_zero() {
                return Err(concat2("Mass must be positive, got: ", mass_text));
            }
            if Real::from_bits(0x407F_4000_0000_0000).lt(m) {
                return Err(concat3("Mass ", mass_text, " kg seems unrealistic for a pedestrian. Max: 500 kg"));
            }
        },
        None => {},
    }
    let params = PedestrianParams {
        catalog: catalog_ref,
        model: None,
        mass: if mass.is_some() { mass } else { Some(Real::from_bits(0x4051_8000_0000_0000)) },
    };
    let k = locate(state, scenario_id)?;
    let ghost before = *state;
    let slot = &mut state.slots[k];
    let result = slot.scenario.add_pedestrian(name, params);
    assert(state.ids() =~= before.ids());
    match result {
        Ok(()) => Ok(owned(name)),
        Err(e) => Err(e.message()),
    }
}

/// The object categories the tools accept.
pub open spec fn object_categories() -> Seq<Seq<char>> {
    seq!["barrier"@, "obstacle"@, "pole"@, "tree"@, "vegetation"@, "building"@, "vehicle"@, "none"@]
}

/// The checks of an object tool call: the mass, then the category.
pub open spec fn object_check(category: Seq<char>, mass: Real, mass_text: Seq<char>) -> Option<Seq<char>> {
    if mass.spec_le_zero() {
        Some("Mass must be positive, got: "@ + mass_text)
    } else if kg(100000).spec_lt(mass) {
        Some("Mass "@ + mass_text + " kg seems unrealistic. Max: 100000 kg (100 tons)"@)
    } else if !object_categories().contains(category) {
        Some("Invalid category '"@ + category
            + "'. Valid categories: barrier, obstacle, pole, tree, vegetation, building, vehicle, none"@)
    } else {
        None
    }
}

fn known_object_category(category: &str) -> (b: bool)
    ensures
        b == object_categories().contains(category@),
{
    let b = str_eq(category, "barrier") || str_eq(category, "obstacle") || str_eq(category, "pole") || str_eq(category, "tree")
        || str_eq(category, "vegetation") || str_eq(category, "building") || str_eq(category, "vehicle") || str_eq(category, "none");
    proof {
        let c = object_categories();
        if c.contains(category@) {
            let i = choose|i: int| 0 <= i < c.len() && c[i] == category@;
            assert(c[i] == category@);
        }
        if b {
            assert(c[0] == "barrier"@ && c[1] == "obstacle"@ && c[2] == "pole"@ && c[3] == "tree"@);
            assert(c[4] == "vegetation"@ && c[5] == "building"@ && c[6] == "vehicle"@ && c[7] == "none"@);
        }
    }
    b
}

/// Adds a miscellaneous object of a known category and a mass to a scenario,
/// and gives its name. `mass_text` is how the mass is written in messages.
pub fn handle_add_misc_object(
    state: &mut ServerState,
    scenario_id: &str,
    name: &str,
    category: &str,
    mass: Real,
    mass_text: &str,
) -> (r: Result<String, String>)
    ensures
        match object_check(category@, mass, mass_text@) {
            Some(m) => outcome(r) == Err::<Seq<char>, Seq<char>>(m) && *final(state) == *old(state),
            None => {
                &&& on_scenario(old(state), final(state), r, scenario_id@, |o: Scenario, n: Scenario| Scenario::entity_change(&o, &n, name@,
                    |e: Entity| object_entity(e, category@, mass)))
                &&& old(state).slot_of(scenario_id@) >= 0 ==> outcome(r) == match scenario_of(old(state), scenario_id@).add_entity_outcome(name@) {
                    Err(e) => Err::<Seq<char>, Seq<char>>(error_message(e)),
                    Ok(_) => Ok(name@),
                }
            },
        },
{
    if mass.le_zero() {
        return Err(concat2("Mass must be positive, got: ", mass_text));
    }
    if Real::from_bits(0x40F8_6A00_0000_0000).lt(mass) {
        return Err(concat3("Mass ", mass_text, " kg seems unrealistic. Max: 100000 kg (100 tons)"));
    }
    if !known_object_category(category) {
        return Err(concat3(
            "Invalid category '",
            category,
            "'. Valid categories: barrier, obstacle, pole, tree, vegetation, building, vehicle, none",
        ));
    }
    let params = MiscObjectParams { catalog: None, category: Some(owned(category)), mass: Some(mass) };
    let k = locate(state, scenario_id)?;
    let ghost before = *state;
    let slot = &mut state.slots[k];
    let result = slot.scenario.add_misc_object(name, params);
    assert(state.ids() =~= before.ids());
    match result {
        Ok(()) => Ok(owned(name)),
        Err(e) => Err(e.message()),
    }
}

/// `e` is an object of this category and mass, without catalog reference.
pub open spec fn object_entity(e: Entity, category: Seq<char>, mass: Real) -> bool {
    match e {
        Entity::MiscObject(x) => x.params.catalog is None && x.params.mass == Some(mass) && match x.params.category {
            Some(c) => c@ == category,
            None => false,
        },
        _ => false,
    }
}

/// The stop trigger waits for an element to reach a state, then `delay` seconds.
pub open spec fn element_stop(t: Option<crate::storyboard::StopTrigger>, element_type: Seq<char>, element_ref: Seq<char>, state: Seq<char>, delay: Real) -> bool {
    match t {
        Some(t) => match t.condition {
            crate::storyboard::StopCondition::StoryboardElementState { element_type: et, element_ref: er, state: st, delay: d } =>
                et@ == element_type && er@ == element_ref && st@ == state && d == delay,
            _ => false,
        },
        None => false,
    }
}

/// The checks of a lane position tool call.
pub open spec fn lane_check(lane_id: i32, s: Real, offset: Real, s_text: Seq<char>, offset_text: Seq<char>) -> Option<Seq<char>> {
    if s.spec_lt_zero() {
        Some("Position 's' cannot be negative, got: "@ + s_text)
    } else if lane_id == 0 {
        Some("Lane ID cannot be 0 (center lane is invalid)"@)
    } else if (Real { bits: 0x4024_0000_0000_0000 }).spec_lt(offset) || offset.spec_lt(Real { bits: 0xC024_0000_0000_0000 }) {
        Some("Lateral offset "@ + offset_text + " m seems excessive. Typical range: ±10m"@)
    } else {
        None
    }
}

/// Sets a lane position as the initial position of an entity. `s_text` and
/// `offset_text` are how `s` and `offset` are written in messages.
pub fn handle_set_lane_position(
    state: &mut ServerState,
    scenario_id: &str,
    entity_name: &str,
    road_id: &str,
    lane_id: i32,
    s: Real,
    offset: Real,
    s_text: &str,
    offset_text: &str,
) -> (r: Result<String, String>)
    ensures
        match lane_check(lane_id, s, offset, s_text@, offset_text@) {
            Some(m) => outcome(r) == Err::<Seq<char>, Seq<char>>(m) && *final(state) == *old(state),
            None => exists|p: Position| #[trigger] lane_position(p, road_id@, lane_id, s, offset) && {
                &&& on_scenario(old(state), final(state), r, scenario_id@, |o: Scenario, n: Scenario| Scenario::position_change(&o, &n, entity_name@, p))
                &&& old(state).slot_of(scenario_id@) >= 0 ==> outcome(r) == match scenario_of(old(state), scenario_id@).position_outcome(entity_name@, p) {
                    Err(e) => Err::<Seq<char>, Seq<char>>(error_message(e)),
                    Ok(_) => Ok("Lane position set for entity: "@ + entity_name@),
                }
            },
        },
{
    if s.lt_zero() {
        return Err(concat2("Position 's' cannot be negative, got: ", s_text));
    }
    if lane_id == 0 {
        return Err(owned("Lane ID cannot be 0 (center lane is invalid)"));
    }
    if Real::from_bits(0x4024_0000_0000_0000).lt(offset) || offset.lt(Real::from_bits(0xC024_0000_0000_0000)) {
        return Err(concat3("Lateral offset ", offset_text, " m seems excessive. Typical range: ±10m"));
    }
    let position = Position::lane(road_id, lane_id, s, offset, None);
    let ghost p = position;
    assert(lane_position(p, road_id@, lane_id, s, offset));
    let k = locate(state, scenario_id)?;
    let ghost before = *state;
    let slot = &mut state.slots[k];
    let result = slot.scenario.set_initial_position(entity_name, position);
    assert(state.ids() =~= before.ids());
    match result {
        Ok(()) => Ok(concat2("Lane position set for entity: ", entity_name)),
        Err(e) => Err(e.message()),
    }
}

/// `p` is the lane position the arguments describe, without orientation.
pub open spec fn lane_position(p: Position, road_id: Seq<char>, lane_id: i32, s: Real, offset: Real) -> bool {
    p matches Position::Lane { road_id: rid, lane_id: l, s: s2, offset: o, orientation: or } && rid@ == road_id
        && l == lane_id && s2 == s && o == offset && or is None
}

/// Stops a scenario when the simulation time reaches `seconds`
/// (`seconds_text` is how the time is written in the reply).
pub fn handle_set_stop_time(state: &mut ServerState, scenario_id: &str, seconds: Real, seconds_text: &str) -> (r: Result<String, String>)
    ensures
        on_scenario(old(state), final(state), r, scenario_id@, |o: Scenario, n: Scenario| n.same_but_storyboard(&o)
            && n.spec_storyboard().stories == o.spec_storyboard().stories
            && n.spec_storyboard().stop_trigger == Some(crate::storyboard::StopTrigger {
                condition: crate::storyboard::StopCondition::SimulationTime { seconds } })),
        old(state).slot_of(scenario_id@) >= 0 ==> outcome(r) == Ok::<Seq<char>, Seq<char>>(
            "Set stop time to "@ + seconds_text@ + " seconds"@),
{
    let k = locate(state, scenario_id)?;
    let ghost before = *state;
    let slot = &mut state.slots[k];
    slot.scenario.set_stop_time(seconds);
    assert(state.ids() =~= before.ids());
    Ok(concat3("Set stop time to ", seconds_text, " seconds"))
}

/// Stops a scenario `delay` seconds after a storyboard element reaches a state.
pub fn handle_set_stop_on_element(
    state: &mut ServerState,
    scenario_id: &str,
    element_type: &str,
    element_ref: &str,
    state_name: &str,
    delay: Real,
) -> (r: Result<String, String>)
    ensures
        on_scenario(old(state), final(state), r, scenario_id@, |o: Scenario, n: Scenario| n.same_but_storyboard(&o)
            && n.spec_storyboard().stories == o.spec_storyboard().stories
            && element_stop(n.spec_storyboard().stop_trigger, element_type@, element_ref@, state_name@, delay)),
        old(state).slot_of(scenario_id@) >= 0 ==> outcome(r) == Ok::<Seq<char>, Seq<char>>(
            "Set stop trigger on "@ + element_type@ + " element '"@ + element_ref@ + "' reaching state '"@ + state_name@ + "'"@),
{
    let k = locate(state, scenario_id)?;
    let ghost before = *state;
    let slot = &mut state.slots[k];
    slot.scenario.set_stop_on_element_state(element_type, element_ref, state_name, delay);
    assert(state.ids() =~= before.ids());
    let mut m = concat3("Set stop trigger on ", element_type, " element '");
    m.append(element_ref);
    m.append("' reaching state '");
    m.append(state_name);
    m.append("'");
    Ok(m)
}

/// Inspects the structure of a scenario (see [`crate::inspection`]); `auto_fix`
/// changes nothing, as no issue has a safe automatic fix.
pub fn handle_validate_scenario_structure(state: &ServerState, scenario_id: &str, auto_fix: bool) -> (r: Result<String, String>)
    ensures
        if state.slot_of(scenario_id@) < 0 {
            outcome(r) == Err::<Seq<char>, Seq<char>>("Scenario '"@ + scenario_id@ + "' not found"@)
        } else {
            outcome(r) == Ok::<Seq<char>, Seq<char>>(inspection_report(scenario_issues(scenario_of(state, scenario_id@))))
        },
{
    match state.find(scenario_id) {
        Some(k) => Ok(inspect_scenario(&state.slots[k].scenario)),
        None => Err(concat3("Scenario '", scenario_id, "' not found")),
    }
}

/// Names of the act, maneuver group and maneuver a timed-action tool uses.
pub open spec fn act_of(story: Seq<char>) -> Seq<char> {
    story + "_act"@
}

/// The maneuver group of an entity in the timed-action tools.
pub open spec fn group_of(entity: Seq<char>) -> Seq<char> {
    entity + "_mg"@
}

/// The maneuver of an entity in the timed-action tools.
pub open spec fn maneuver_of(entity: Seq<char>) -> Seq<char> {
    entity + "_maneuver"@
}

/// The five steps that lay out a story for an entity, each taken whatever
/// the one before gave: the story, its act, the entity's maneuver group and
/// maneuver, and the entity as actor.
pub open spec fn scaffold_steps(
    s0: Scenario,
    s1: Scenario,
    s2: Scenario,
    s3: Scenario,
    s4: Scenario,
    s5: Scenario,
    r1: Result<(), ScenarioError>,
    r2: Result<(), ScenarioError>,
    r3: Result<(), ScenarioError>,
    r4: Result<(), ScenarioError>,
    r5: Result<(), ScenarioError>,
    story: Seq<char>,
    entity: Seq<char>,
) -> bool {
    &&& s1.same_but_storyboard(&s0) && story_added(s0.spec_storyboard(), s1.spec_storyboard(), r1, story)
    &&& s2.same_but_storyboard(&s1) && act_added(s1.spec_storyboard(), s2.spec_storyboard(), r2, story, act_of(story))
    &&& s3.same_but_storyboard(&s2) && group_added(s2.spec_storyboard(), s3.spec_storyboard(), r3, story,
        act_of(story), group_of(entity))
    &&& s4.same_but_storyboard(&s3) && maneuver_added(s3.spec_storyboard(), s4.spec_storyboard(), r4, story,
        act_of(story), group_of(entity), maneuver_of(entity))
    &&& Scenario::actor_step(&s4, &s5, r5, story, act_of(story), group_of(entity), entity)
}

/// `s5` is `s0` after the five layout steps.
pub open spec fn scaffolded(s0: Scenario, s5: Scenario, story: Seq<char>, entity: Seq<char>) -> bool {
    exists|s1: Scenario, s2: Scenario, s3: Scenario, s4: Scenario, r1: Result<(), ScenarioError>, r2: Result<(), ScenarioError>,
        r3: Result<(), ScenarioError>, r4: Result<(), ScenarioError>, r5: Result<(), ScenarioError>|
        #[trigger] scaffold_steps(s0, s1, s2, s3, s4, s5, r1, r2, r3, r4, r5, story, entity)
}

/// Lays out the story, act, maneuver group, maneuver and actor for an entity;
/// what each step refuses is passed over.
fn scaffold(sc: &mut Scenario, story: &str, entity: &str)
    ensures
        scaffolded(*old(sc), *final(sc), story@, entity@),
        old(sc).wf() ==> final(sc).wf(),
{
    let act = concat2(story, "_act");
    let mg = concat2(entity, "_mg");
    let maneuver = concat2(entity, "_maneuver");
    let ghost s0 = *sc;
    let r1 = sc.add_story(story);
    let ghost s1 = *sc;
    let r2 = sc.add_act(story, act.as_str());
    let ghost s2 = *sc;
    let r3 = sc.add_maneuver_group(story, act.as_str(), mg.as_str());
    let ghost s3 = *sc;
    let r4 = sc.add_maneuver(story, act.as_str(), mg.as_str(), maneuver.as_str());
    let ghost s4 = *sc;
    let r5 = sc.add_actor(story, act.as_str(), mg.as_str(), entity);
    assert(scaffold_steps(s0, s1, s2, s3, s4, *sc, r1, r2, r3, r4, r5, story@, entity@));
}

/// `t` is one group of one condition: the simulation time passes `seconds`
/// (written `text`), on the rising edge, without delay.
pub open spec fn time_trigger(t: Trigger, seconds: Real, text: Seq<char>, delay: Real) -> bool {
    &&& t.condition_groups@.len() == 1
    &&& t.condition_groups@[0].conditions@.len() == 1
    &&& t.condition_groups@[0].conditions@[0].name@ == "SimTime_"@ + text
    &&& t.condition_groups@[0].conditions@[0].delay == delay
    &&& t.condition_groups@[0].conditions@[0].condition_edge == ConditionEdge::Rising
    &&& t.condition_groups@[0].conditions@[0].kind == ConditionKind::ByValue(
        ByValueCondition::SimulationTime { value: seconds, rule: Rule::GreaterThan })
}

/// A trigger on the simulation time passing `seconds`, after `delay`.
fn after_time(seconds: Real, seconds_text: &str, delay: Real) -> (t: Trigger)
    ensures
        time_trigger(t, seconds, seconds_text@, delay),
{
    let mut condition = Condition::simulation_time(seconds, Rule::GreaterThan, seconds_text);
    condition.delay = delay;
    condition.condition_edge = ConditionEdge::Rising;
    let mut conditions = Vec::new();
    conditions.push(condition);
    let t = Trigger::new(ConditionGroup::new(conditions));
    assert(t.condition_groups@[0].conditions@ =~= seq![condition]);
    t
}

/// The part of a timed-action reply that names the hierarchy used.
pub open spec fn hierarchy_text(story: Seq<char>, entity: Seq<char>, event: Seq<char>) -> Seq<char> {
    "\nCreated hierarchy: story='"@ + story + "', act='"@ + act_of(story) + "', maneuver_group='"@ + group_of(entity)
        + "', maneuver='"@ + maneuver_of(entity) + "', event='"@ + event + "'"@
}

/// The closing line of a timed-action reply without start time.
pub open spec fn no_start_warning() -> Seq<char> {
    "\n⚠️  Warning: No start trigger set. Act will not execute unless you call set_trigger_time or set_collision_trigger."@
}

/// What starting the act at a time gives after the action was added: without
/// a time nothing changes and the reply warns; with one the act's start
/// trigger is set and the reply says when the act starts, or why not.
pub open spec fn start_step(s6: Scenario, n: Scenario, r: Result<String, String>, story: Seq<char>, start: Option<Real>, start_text: Seq<char>, text: Seq<char>) -> bool {
    match start {
        None => n == s6 && outcome(r) == Ok::<Seq<char>, Seq<char>>(text + no_start_warning()),
        Some(t) => exists|tg: Trigger, r7: Result<(), ScenarioError>| #[trigger] start_set(s6, n, r, tg, r7, story, t, start_text, text),
    }
}

/// The act of `story` got a trigger at time `t` (written `tt`), with result `r7`.
pub open spec fn start_set(s6: Scenario, n: Scenario, r: Result<String, String>, trigger: Trigger, r7: Result<(), ScenarioError>, story: Seq<char>, t: Real, tt: Seq<char>, text: Seq<char>) -> bool {
    &&& time_trigger(trigger, t, tt, Real { bits: 0 })
    &&& n.same_but_storyboard(&s6)
    &&& act_trigger_set(s6.spec_storyboard(), n.spec_storyboard(), r7, story, act_of(story), trigger)
    &&& outcome(r) == match r7 {
        Err(e) => Err::<Seq<char>, Seq<char>>("Failed to set Act trigger: "@ + error_message(e@)),
        Ok(_) => Ok(text + "\nAuto-set start trigger: Act starts at t="@ + tt + "s"@),
    }
}

/// Starts the act of `story` at `start`, if given, and finishes the reply `text`.
fn start_act(sc: &mut Scenario, story: &str, start: Option<Real>, start_text: &str, text: String) -> (r: Result<String, String>)
    ensures
        start_step(*old(sc), *final(sc), r, story@, start, start_text@, text@),
        old(sc).wf() ==> final(sc).wf(),
{
    match start {
        None => {
            let mut m = text;
            m.append("\n⚠️  Warning: No start trigger set. Act will not execute unless you call set_trigger_time or set_collision_trigger.");
            Ok(m)
        },
        Some(t) => {
            let ghost s6 = *sc;
            let trigger = after_time(t, start_text, Real::zero());
            let ghost tg = trigger;
            let act = concat2(story, "_act");
            let r7 = sc.set_act_start_trigger(story, act.as_str(), trigger);
            let result = match &r7 {
                Err(e) => Err(concat2("Failed to set Act trigger: ", e.message().as_str())),
                Ok(()) => {
                    let mut m = text;
                    m.append("\nAuto-set start trigger: Act starts at t=");
                    m.append(start_text);
                    m.append("s");
                    Ok(m)
                },
            };
            assert(start_set(s6, *sc, result, tg, r7, story@, t, start_text@, text@));
            result
        },
    }
}

/// What a timed-action tool does to the scenario `o`: lay out the story,
/// add the action (whose checks give `check`) to the event, then start the
/// act at the given time. `text` is the reply when all goes well.
pub open spec fn timed_action_tool(
    o: Scenario,
    n: Scenario,
    r: Result<String, String>,
    story: Seq<char>,
    entity: Seq<char>,
    event: Seq<char>,
    action: Action,
    check: Option<ScenarioErrorView>,
    start: Option<Real>,
    start_text: Seq<char>,
    text: Seq<char>,
) -> bool {
    exists|s5: Scenario, s6: Scenario, r6: Result<(), ScenarioError>|
        #[trigger] timed_action_steps(o, s5, s6, r6, n, r, story, entity, event, action, check, start, start_text, text)
}

/// The steps of a timed-action tool, through `s5` and `s6`.
pub open spec fn timed_action_steps(
    o: Scenario,
    s5: Scenario,
    s6: Scenario,
    r6: Result<(), ScenarioError>,
    n: Scenario,
    r: Result<String, String>,
    story: Seq<char>,
    entity: Seq<char>,
    event: Seq<char>,
    action: Action,
    check: Option<ScenarioErrorView>,
    start: Option<Real>,
    start_text: Seq<char>,
    text: Seq<char>,
) -> bool {
    &&& scaffolded(o, s5, story, entity)
    &&& Scenario::action_outcome(&s5, &s6, r6, check, story, act_of(story), group_of(entity), maneuver_of(entity), event, action)
    &&& match r6 {
        Err(e) => outcome(r) == Err::<Seq<char>, Seq<char>>(error_message(e@)) && n == s6,
        Ok(_) => start_step(s6, n, r, story, start, start_text, text + hierarchy_text(story, entity, event)),
    }
}

fn hierarchy_reply(text: String, story: &str, entity: &str, event: &str) -> (r: String)
    ensures
        r@ == text@ + hierarchy_text(story@, entity@, event@),
{
    let mut m = text;
    m.append("\nCreated hierarchy: story='");
    m.append(story);
    m.append("', act='");
    m.append(story);
    m.append("_act', maneuver_group='");
    m.append(entity);
    m.append("_mg', maneuver='");
    m.append(entity);
    m.append("_maneuver', event='");
    m.append(event);
    m.append("'");
    proof {
        reveal_strlit("\nCreated hierarchy: story='");
        reveal_strlit("', act='");
        reveal_strlit("_act', maneuver_group='");
        reveal_strlit("_mg', maneuver='");
        reveal_strlit("_maneuver', event='");
        reveal_strlit("'");
        reveal_strlit("_act");
        reveal_strlit("_mg");
        reveal_strlit("_maneuver");
        reveal_strlit("', maneuver_group='");
        reveal_strlit("', maneuver='");
        reveal_strlit("', event='");
    }
    assert(m@ =~= text@ + hierarchy_text(story@, entity@, event@));
    m
}


/// Adds a linear speed change to `speed` over `duration` seconds for an
/// entity, laying out story `story_name`, act `story_name`_act, maneuver group
/// `entity`_mg, maneuver `entity`_maneuver and event "speed_event" where they
/// are missing, and starts the act at `start_time` when one is given. The
/// `_text` arguments are how the numbers are written in the reply.
pub fn handle_add_speed_action(
    state: &mut ServerState,
    scenario_id: &str,
    entity_name: &str,
    story_name: &str,
    speed: Real,
    duration: Real,
    start_time: Option<Real>,
    speed_text: &str,
    duration_text: &str,
    start_time_text: &str,
) -> (r: Result<String, String>)
    ensures
        on_scenario(old(state), final(state), r, scenario_id@, |o: Scenario, n: Scenario| timed_action_tool(o, n, r,
            story_name@, entity_name@, "speed_event"@, Action::Speed(SpeedAction { target_speed: speed, dynamics:
            linear_over(duration) }), speed_check(speed, linear_over(duration)), start_time, start_time_text@,
            "Speed action added: "@ + speed_text@ + " m/s over "@ + duration_text@ + " seconds"@)),
{
    let k = locate(state, scenario_id)?;
    let ghost before = *state;
    let slot = &mut state.slots[k];
    let sc = &mut slot.scenario;
    let ghost s0 = *sc;
    scaffold(sc, story_name, entity_name);
    let ghost s5 = *sc;
    let act = concat2(story_name, "_act");
    let mg = concat2(entity_name, "_mg");
    let maneuver = concat2(entity_name, "_maneuver");
    let dynamics = TransitionDynamics { shape: DynamicsShape::Linear, dimension: DynamicsDimension::Time, value: duration };
    let r6 = sc.add_speed_action(story_name, act.as_str(), mg.as_str(), maneuver.as_str(), "speed_event", speed, dynamics);
    let ghost s6 = *sc;
    let result = match &r6 {
        Err(e) => Err(e.message()),
        Ok(()) => {
            let mut m = concat3("Speed action added: ", speed_text, " m/s over ");
            m.append(duration_text);
            m.append(" seconds");
            let m = hierarchy_reply(m, story_name, entity_name, "speed_event");
            start_act(sc, story_name, start_time, start_time_text, m)
        },
    };
    assert(timed_action_steps(s0, s5, s6, r6, *sc, result, story_name@, entity_name@, "speed_event"@,
        Action::Speed(SpeedAction { target_speed: speed, dynamics: linear_over(duration) }),
        speed_check(speed, linear_over(duration)), start_time, start_time_text@,
        "Speed action added: "@ + speed_text@ + " m/s over "@ + duration_text@ + " seconds"@));
    assert(state.ids() =~= before.ids());
    result
}

/// Linear dynamics over `duration` seconds.
pub open spec fn linear_over(duration: Real) -> TransitionDynamics {
    TransitionDynamics { shape: DynamicsShape::Linear, dimension: DynamicsDimension::Time, value: duration }
}

/// Adds a linear lane change to lane offset `target_lane` over `duration`
/// seconds for an entity, laying out the story as
/// [`handle_add_speed_action`] does (event "lane_change_event"), and starts
/// the act at `start_time` when one is given.
pub fn handle_add_lane_change_action(
    state: &mut ServerState,
    scenario_id: &str,
    entity_name: &str,
    story_name: &str,
    target_lane: Real,
    duration: Real,
    start_time: Option<Real>,
    target_lane_text: &str,
    duration_text: &str,
    start_time_text: &str,
) -> (r: Result<String, String>)
    ensures
        on_scenario(old(state), final(state), r, scenario_id@, |o: Scenario, n: Scenario| timed_action_tool(o, n, r,
            story_name@, entity_name@, "lane_change_event"@, Action::LaneChange(LaneChangeAction {
            target_lane_offset: target_lane, transition_duration: duration, shape: TransitionShape::Linear }),
            duration_check(duration), start_time, start_time_text@,
            "Lane change action added: target lane offset "@ + target_lane_text@ + " over "@ + duration_text@ + " seconds"@)),
{
    let k = locate(state, scenario_id)?;
    let ghost before = *state;
    let slot = &mut state.slots[k];
    let sc = &mut slot.scenario;
    let ghost s0 = *sc;
    scaffold(sc, story_name, entity_name);
    let ghost s5 = *sc;
    let act = concat2(story_name, "_act");
    let mg = concat2(entity_name, "_mg");
    let maneuver = concat2(entity_name, "_maneuver");
    let r6 = sc.add_lane_change_action(story_name, act.as_str(), mg.as_str(), maneuver.as_str(), "lane_change_event",
        target_lane, duration, TransitionShape::Linear);
    let ghost s6 = *sc;
    let result = match &r6 {
        Err(e) => Err(e.message()),
        Ok(()) => {
            let mut m = concat3("Lane change action added: target lane offset ", target_lane_text, " over ");
            m.append(duration_text);
            m.append(" seconds");
            let m = hierarchy_reply(m, story_name, entity_name, "lane_change_event");
            start_act(sc, story_name, start_time, start_time_text, m)
        },
    };
    assert(timed_action_steps(s0, s5, s6, r6, *sc, result, story_name@, entity_name@, "lane_change_event"@,
        Action::LaneChange(LaneChangeAction { target_lane_offset: target_lane, transition_duration: duration,
        shape: TransitionShape::Linear }), duration_check(duration), start_time, start_time_text@,
        "Lane change action added: target lane offset "@ + target_lane_text@ + " over "@ + duration_text@ + " seconds"@));
    assert(state.ids() =~= before.ids());
    result
}


/// The message for a missing maneuver group of an event trigger.
pub open spec fn missing_group_message() -> Seq<char> {
    "Missing 'maneuver_group' parameter. Event triggers require: maneuver_group, maneuver, and event_name. For auto-generated names from add_speed_action/add_lane_change_action, use pattern '{entity}_mg' (e.g., 'ego_mg')."@
}

/// The message for a missing maneuver of an event trigger.
pub open spec fn missing_maneuver_message() -> Seq<char> {
    "Missing 'maneuver' parameter. Event triggers require: maneuver_group, maneuver, and event_name. For auto-generated names, use pattern '{entity}_maneuver' (e.g., 'ego_maneuver')."@
}

/// The message for a missing event name of an event trigger.
pub open spec fn missing_event_message() -> Seq<char> {
    "Missing 'event_name' parameter. Event triggers require: maneuver_group, maneuver, and event_name. For auto-generated names, use pattern '{entity}_event' (e.g., 'ego_event')."@
}

/// The checks of a trigger tool call: the element type is "Act" or "Event",
/// and an event is named in full.
pub open spec fn element_check(element_type: Seq<char>, mg: Option<Seq<char>>, mn: Option<Seq<char>>, ev: Option<Seq<char>>) -> Option<Seq<char>> {
    if element_type != "Act"@ && element_type != "Event"@ {
        Some("element_type must be 'Act' or 'Event' (got '"@ + element_type
            + "'). Expected: Set to 'Act' for Act-level triggers or 'Event' for Event-level triggers."@)
    } else if element_type == "Event"@ && mg is None {
        Some(missing_group_message())
    } else if element_type == "Event"@ && mn is None {
        Some(missing_maneuver_message())
    } else if element_type == "Event"@ && ev is None {
        Some(missing_event_message())
    } else {
        None
    }
}

/// What setting `trigger` as the start trigger of the act, or of the event,
/// gives on a scenario found: the storyboard changed as the setter says, and
/// the reply.
pub open spec fn trigger_placed(
    o: Scenario,
    n: Scenario,
    r: Result<String, String>,
    r7: Result<(), ScenarioError>,
    element_type: Seq<char>,
    story: Seq<char>,
    act: Seq<char>,
    mg: Seq<char>,
    mn: Seq<char>,
    ev: Seq<char>,
    trigger: Trigger,
    description: Seq<char>,
) -> bool {
    &&& n.same_but_storyboard(&o)
    &&& if element_type == "Act"@ {
        &&& act_trigger_set(o.spec_storyboard(), n.spec_storyboard(), r7, story, act, trigger)
        &&& outcome(r) == match r7 {
            Err(e) => Err::<Seq<char>, Seq<char>>("Failed to set Act trigger: "@ + error_message(e@)),
            Ok(_) => Ok("Set "@ + description + " for Act '"@ + act + "' in story '"@ + story + "'"@),
        }
    } else {
        &&& event_trigger_set(o.spec_storyboard(), n.spec_storyboard(), r7, story, act, mg, mn, ev, trigger)
        &&& outcome(r) == match r7 {
            Err(e) => Err::<Seq<char>, Seq<char>>("Failed to set Event trigger: "@ + error_message(e@)),
            Ok(_) => Ok("Set "@ + description + " for Event '"@ + ev + "' (in maneuver '"@ + mn + "')"@),
        }
    }
}

/// The name an optional name stands for when it is given.
pub open spec fn given(t: Option<Seq<char>>) -> Seq<char> {
    match t {
        Some(x) => x,
        None => Seq::empty(),
    }
}

/// What a trigger tool call does: its checks, then the scenario lookup, then
/// the trigger placed on the act or the event.
pub open spec fn element_trigger_tool(
    old: &ServerState,
    new: &ServerState,
    r: Result<String, String>,
    scenario_id: Seq<char>,
    element_type: Seq<char>,
    story: Seq<char>,
    act: Seq<char>,
    mg: Option<Seq<char>>,
    mn: Option<Seq<char>>,
    ev: Option<Seq<char>>,
    trigger: Trigger,
    description: Seq<char>,
) -> bool {
    match element_check(element_type, mg, mn, ev) {
        Some(m) => outcome(r) == Err::<Seq<char>, Seq<char>>(m) && *new == *old,
        None => if old.slot_of(scenario_id) < 0 {
            outcome(r) == Err::<Seq<char>, Seq<char>>("Scenario '"@ + scenario_id + "' not found"@) && *new == *old
        } else {
            ServerState::only_slot_changed(old, new, old.slot_of(scenario_id), |o: Scenario, n: Scenario|
                exists|r7: Result<(), ScenarioError>| #[trigger] trigger_placed(o, n, r, r7, element_type, story, act,
                    given(mg), given(mn), given(ev), trigger, description))
        },
    }
}

/// Sets `trigger` as the start trigger of an act, or of an event when
/// `element_type` is "Event"; `description` names the trigger in the reply.
fn set_element_trigger(
    state: &mut ServerState,
    scenario_id: &str,
    element_type: &str,
    story_name: &str,
    act_name: &str,
    maneuver_group: Option<&str>,
    maneuver: Option<&str>,
    event_name: Option<&str>,
    trigger: Trigger,
    description: &str,
) -> (r: Result<String, String>)
    ensures
        element_trigger_tool(old(state), final(state), r, scenario_id@, element_type@, story_name@, act_name@,
            opt_view(maneuver_group), opt_view(maneuver), opt_view(event_name), trigger, description@),
{
    let is_act = str_eq(element_type, "Act");
    let is_event = str_eq(element_type, "Event");
    if !is_act && !is_event {
        return Err(concat3(
            "element_type must be 'Act' or 'Event' (got '",
            element_type,
            "'). Expected: Set to 'Act' for Act-level triggers or 'Event' for Event-level triggers.",
        ));
    }
    let mut mg: &str = "";
    let mut mn: &str = "";
    let mut ev: &str = "";
    if is_event {
        mg = match maneuver_group {
            Some(x) => x,
            None => {
                return Err(owned(
                    "Missing 'maneuver_group' parameter. Event triggers require: maneuver_group, maneuver, and event_name. For auto-generated names from add_speed_action/add_lane_change_action, use pattern '{entity}_mg' (e.g., 'ego_mg').",
                ));
            },
        };
        mn = match maneuver {
            Some(x) => x,
            None => {
                return Err(owned(
                    "Missing 'maneuver' parameter. Event triggers require: maneuver_group, maneuver, and event_name. For auto-generated names, use pattern '{entity}_maneuver' (e.g., 'ego_maneuver').",
                ));
            },
        };
        ev = match event_name {
            Some(x) => x,
            None => {
                return Err(owned(
                    "Missing 'event_name' parameter. Event triggers require: maneuver_group, maneuver, and event_name. For auto-generated names, use pattern '{entity}_event' (e.g., 'ego_event').",
                ));
            },
        };
    }
    let k = match state.find(scenario_id) {
        Some(k) => k,
        None => {
            return Err(concat3("Scenario '", scenario_id, "' not found"));
        },
    };
    let ghost before = *state;
    let slot = &mut state.slots[k];
    let sc = &mut slot.scenario;
    let ghost o = *sc;
    let ghost tg = trigger;
    if is_act {
        let r7 = sc.set_act_start_trigger(story_name, act_name, trigger);
        let result = match &r7 {
            Err(e) => Err(concat2("Failed to set Act trigger: ", e.message().as_str())),
            Ok(()) => {
                let mut m = concat3("Set ", description, " for Act '");
                m.append(act_name);
                m.append("' in story '");
                m.append(story_name);
                m.append("'");
                Ok(m)
            },
        };
        assert(trigger_placed(o, *sc, result, r7, element_type@, story_name@, act_name@,
            given(opt_view(maneuver_group)), given(opt_view(maneuver)), given(opt_view(event_name)), tg, description@));
        assert(state.ids() =~= before.ids());
        result
    } else {
        let r7 = sc.set_event_start_trigger(story_name, act_name, mg, mn, ev, trigger);
        let result = match &r7 {
            Err(e) => Err(concat2("Failed to set Event trigger: ", e.message().as_str())),
            Ok(()) => {
                let mut m = concat3("Set ", description, " for Event '");
                m.append(ev);
                m.append("' (in maneuver '");
                m.append(mn);
                m.append("')");
                Ok(m)
            },
        };
        assert(trigger_placed(o, *sc, result, r7, element_type@, story_name@, act_name@,
            given(opt_view(maneuver_group)), given(opt_view(maneuver)), given(opt_view(event_name)), tg, description@));
        assert(state.ids() =~= before.ids());
        result
    }
}

/// The checks of a time trigger tool call: the time, then the delay, each
/// with how it is written.
pub open spec fn time_check(time: Real, delay: Real, time_text: Seq<char>, delay_text: Seq<char>) -> Option<Seq<char>> {
    if time.spec_lt_zero() {
        Some("time_seconds must be non-negative (got "@ + time_text
            + "). Expected: Use a positive simulation time value (e.g., 5.0 for 5 seconds)."@)
    } else if delay.spec_lt_zero() {
        Some("delay_seconds must be non-negative (got "@ + delay_text
            + "). Expected: Use a positive delay value or omit for immediate trigger."@)
    } else {
        None
    }
}

/// The delay of a trigger tool call: as given, or none.
pub open spec fn delay_or_zero(delay: Option<Real>) -> Real {
    match delay {
        Some(d) => d,
        None => Real { bits: 0 },
    }
}

/// Starts an act or an event when the simulation time passes
/// `time_seconds`, after `delay_seconds` (none when not given).
/// `time_text` and `delay_text` are how the time and the delay (0 when none
/// is given) are written in the condition's name and the reply.
pub fn handle_set_trigger_time(
    state: &mut ServerState,
    scenario_id: &str,
    element_type: &str,
    story_name: &str,
    act_name: &str,
    maneuver_group: Option<&str>,
    maneuver: Option<&str>,
    event_name: Option<&str>,
    time_seconds: Real,
    delay_seconds: Option<Real>,
    time_text: &str,
    delay_text: &str,
) -> (r: Result<String, String>)
    ensures
        match time_check(time_seconds, delay_or_zero(delay_seconds), time_text@, delay_text@) {
            Some(m) => outcome(r) == Err::<Seq<char>, Seq<char>>(m) && *final(state) == *old(state),
            None => exists|t: Trigger| #[trigger] time_trigger(t, time_seconds, time_text@, delay_or_zero(delay_seconds))
                && element_trigger_tool(old(state), final(state), r, scenario_id@, element_type@, story_name@, act_name@,
                    opt_view(maneuver_group), opt_view(maneuver), opt_view(event_name), t,
                    "time-based trigger at t="@ + time_text@ + "s (delay: "@ + delay_text@ + "s)"@),
        },
{
    if time_seconds.lt_zero() {
        return Err(concat3(
            "time_seconds must be non-negative (got ",
            time_text,
            "). Expected: Use a positive simulation time value (e.g., 5.0 for 5 seconds).",
        ));
    }
    let delay = match delay_seconds {
        Some(d) => d,
        None => Real::zero(),
    };
    if delay.lt_zero() {
        return Err(concat3(
            "delay_seconds must be non-negative (got ",
            delay_text,
            "). Expected: Use a positive delay value or omit for immediate trigger.",
        ));
    }
    let mut description = concat3("time-based trigger at t=", time_text, "s (delay: ");
    description.append(delay_text);
    description.append("s)");
    let trigger = after_time(time_seconds, time_text, delay);
    let ghost tg = trigger;
    let r = set_element_trigger(state, scenario_id, element_type, story_name, act_name, maneuver_group, maneuver,
        event_name, trigger, description.as_str());
    assert(time_trigger(tg, time_seconds, time_text@, delay_or_zero(delay_seconds)));
    r
}


/// The rule a trigger tool call names, by its lower-case form.
pub open spec fn entities_rule_of(lower: Seq<char>) -> Option<TriggeringEntitiesRule> {
    if lower == "any"@ {
        Some(TriggeringEntitiesRule::Any)
    } else if lower == "all"@ {
        Some(TriggeringEntitiesRule::All)
    } else {
        None
    }
}

/// The checks of a collision trigger tool call: the rule, then the watched
/// entities (at least one, none twice), then the delay.
pub open spec fn collision_check(rule: Seq<char>, refs: Seq<Seq<char>>, delay: Real, delay_text: Seq<char>) -> Option<Seq<char>> {
    if entities_rule_of(lowercase(rule)) is None {
        Some("trigger_rule must be 'any' or 'all' (got '"@ + rule
            + "'). Expected: Use 'any' if at least one entity should trigger, or 'all' if all entities must trigger."@)
    } else if refs.len() == 0 {
        Some("entity_refs must contain at least one entity. Expected: Provide an array of entity names to monitor (e.g., ['ego', 'vehicle2'])."@)
    } else if !distinct(refs) {
        Some("entity_refs contains duplicate entities. Expected: Each entity should appear only once in the array."@)
    } else if delay.spec_lt_zero() {
        Some("delay_seconds must be non-negative (got "@ + delay_text
            + "). Expected: Use a positive delay value or omit for immediate trigger."@)
    } else {
        None
    }
}

/// `t` is one group of one condition: the entities `refs` (any or all of
/// them, by `rule`) collide with `target`, after `delay`, on every change.
pub open spec fn collision_trigger(t: Trigger, rule: TriggeringEntitiesRule, refs: Seq<Seq<char>>, target: Seq<char>, delay: Real) -> bool {
    &&& t.condition_groups@.len() == 1
    &&& t.condition_groups@[0].conditions@.len() == 1
    &&& t.condition_groups@[0].conditions@[0].name@ == "Collision_"@ + target
    &&& t.condition_groups@[0].conditions@[0].delay == delay
    &&& t.condition_groups@[0].conditions@[0].condition_edge == ConditionEdge::NoEdge
    &&& match t.condition_groups@[0].conditions@[0].kind {
        ConditionKind::ByEntity(b) => b.triggering_entities.rule == rule
            && views(b.triggering_entities.entity_refs@) == refs && match b.entity_condition {
            EntityCondition::Collision(x) => x.target_entity_ref@ == target,
            _ => false,
        },
        _ => false,
    }
}

/// Starts an act or an event when the entities `entity_refs` (any or all of
/// them, by `trigger_rule`, read without regard to case) collide with
/// `target_entity_ref`, after `delay` (none when not given). `delay_text` is
/// how the delay (0 when none is given) is written in the reply.
pub fn handle_set_collision_trigger(
    state: &mut ServerState,
    scenario_id: &str,
    element_type: &str,
    story_name: &str,
    act_name: &str,
    maneuver_group: Option<&str>,
    maneuver: Option<&str>,
    event_name: Option<&str>,
    entity_refs: Vec<String>,
    target_entity_ref: &str,
    trigger_rule: &str,
    delay: Option<Real>,
    delay_text: &str,
) -> (r: Result<String, String>)
    ensures
        match collision_check(trigger_rule@, views(entity_refs@), delay_or_zero(delay), delay_text@) {
            Some(m) => outcome(r) == Err::<Seq<char>, Seq<char>>(m) && *final(state) == *old(state),
            None => exists|t: Trigger| #[trigger] collision_trigger(t, entities_rule_of(lowercase(trigger_rule@))->0,
                views(entity_refs@), target_entity_ref@, delay_or_zero(delay))
                && element_trigger_tool(old(state), final(state), r, scenario_id@, element_type@, story_name@, act_name@,
                    opt_view(maneuver_group), opt_view(maneuver), opt_view(event_name), t,
                    "collision trigger: "@ + trigger_rule@ + " of ["@ + joined(views(entity_refs@)) + "] collide with '"@
                        + target_entity_ref@ + "' (delay: "@ + delay_text@ + "s)"@),
        },
{
    let lower = to_lowercase(trigger_rule);
    let rule = if str_eq(lower.as_str(), "any") {
        TriggeringEntitiesRule::Any
    } else if str_eq(lower.as_str(), "all") {
        TriggeringEntitiesRule::All
    } else {
        return Err(concat3(
            "trigger_rule must be 'any' or 'all' (got '",
            trigger_rule,
            "'). Expected: Use 'any' if at least one entity should trigger, or 'all' if all entities must trigger.",
        ));
    };
    if entity_refs.len() == 0 {
        return Err(owned(
            "entity_refs must contain at least one entity. Expected: Provide an array of entity names to monitor (e.g., ['ego', 'vehicle2']).",
        ));
    }
    if has_repeats(&entity_refs) {
        return Err(owned(
            "entity_refs contains duplicate entities. Expected: Each entity should appear only once in the array.",
        ));
    }
    let d = match delay {
        Some(d) => d,
        None => Real::zero(),
    };
    if d.lt_zero() {
        return Err(concat3(
            "delay_seconds must be non-negative (got ",
            delay_text,
            "). Expected: Use a positive delay value or omit for immediate trigger.",
        ));
    }
    let mut description = concat3("collision trigger: ", trigger_rule, " of [");
    description.append(join_texts(&entity_refs).as_str());
    description.append("] collide with '");
    description.append(target_entity_ref);
    description.append("' (delay: ");
    description.append(delay_text);
    description.append("s)");
    let ghost refs = views(entity_refs@);
    let mut condition = Condition::collision(entity_refs, target_entity_ref, rule);
    condition.delay = d;
    let mut conditions = Vec::new();
    conditions.push(condition);
    let trigger = Trigger::new(ConditionGroup::new(conditions));
    assert(trigger.condition_groups@[0].conditions@ =~= seq![condition]);
    let ghost tg = trigger;
    assert(collision_trigger(tg, rule, refs, target_entity_ref@, d));
    assert(rule == entities_rule_of(lowercase(trigger_rule@))->0);
    assert(d == delay_or_zero(delay));
    assert(description@ == "collision trigger: "@ + trigger_rule@ + " of ["@ + joined(refs) + "] collide with '"@
        + target_entity_ref@ + "' (delay: "@ + delay_text@ + "s)"@);
    let r = set_element_trigger(state, scenario_id, element_type, story_name, act_name, maneuver_group, maneuver,
        event_name, trigger, description.as_str());
    assert(collision_check(trigger_rule@, views(entity_refs@), delay_or_zero(delay), delay_text@) is None);
    r
}

/// How the delay and the value of the `k`-th condition of a listing are
/// written; empty where `texts` gives none.
pub open spec fn texts_at(texts: Seq<(String, String)>, k: int) -> (Seq<char>, Seq<char>) {
    if 0 <= k < texts.len() {
        (texts[k].0@, texts[k].1@)
    } else {
        (Seq::empty(), Seq::empty())
    }
}

/// The conditions of all groups, group after group.
pub open spec fn all_conditions(groups: Seq<ConditionGroup>) -> Seq<Condition>
    decreases groups.len(),
{
    if groups.len() == 0 {
        Seq::empty()
    } else {
        all_conditions(groups.drop_last()) + groups.last().conditions@
    }
}

/// One description per condition, with the texts given for it.
pub open spec fn condition_lines(cs: Seq<Condition>, texts: Seq<(String, String)>) -> Seq<Seq<char>> {
    Seq::new(cs.len(), |k: int| condition_description(cs[k], texts_at(texts, k).0, texts_at(texts, k).1))
}

/// The items, one per line.
pub open spec fn lines_joined(items: Seq<Seq<char>>) -> Seq<char>
    decreases items.len(),
{
    if items.len() == 0 {
        Seq::empty()
    } else if items.len() == 1 {
        items[0]
    } else {
        lines_joined(items.drop_last()) + "\n"@ + items.last()
    }
}

/// The listing of the start trigger `t` of the act or event `name`.
pub open spec fn trigger_listing(kind: Seq<char>, name: Seq<char>, t: Option<Trigger>, texts: Seq<(String, String)>) -> Seq<char> {
    match t {
        None => "No trigger set for "@ + kind + " '"@ + name + "'"@,
        Some(t) => {
            let lines = condition_lines(all_conditions(t.condition_groups@), texts);
            if lines.len() == 0 {
                "Trigger exists but has no conditions for "@ + kind + " '"@ + name + "'"@
            } else {
                "Triggers for "@ + kind + " '"@ + name + "':\n"@ + lines_joined(lines)
            }
        },
    }
}

/// The start trigger a listing call asks for, or the message of why it cannot be had.
pub open spec fn listed_trigger(
    sb: Storyboard,
    kind: Seq<char>,
    act: Seq<char>,
    story: Option<Seq<char>>,
    mg: Option<Seq<char>>,
    mn: Option<Seq<char>>,
    ev: Option<Seq<char>>,
) -> Result<Option<Trigger>, Seq<char>> {
    if kind == "Act"@ {
        match act_start_trigger_of(sb, act) {
            Ok(t) => Ok(t),
            Err(e) => Err(error_message(e)),
        }
    } else if story is None {
        Err("story_name required for Event triggers"@)
    } else if mg is None {
        Err("maneuver_group required for Event triggers"@)
    } else if mn is None {
        Err("maneuver required for Event triggers"@)
    } else if ev is None {
        Err("event_name required for Event triggers"@)
    } else {
        match event_start_trigger_of(sb, story->0, act, mg->0, mn->0, ev->0) {
            Ok(t) => Ok(t),
            Err(e) => Err(error_message(e)),
        }
    }
}

/// The reply of a trigger listing call.
pub open spec fn list_triggers_reply(
    state: &ServerState,
    id: Seq<char>,
    kind: Seq<char>,
    act: Seq<char>,
    story: Option<Seq<char>>,
    mg: Option<Seq<char>>,
    mn: Option<Seq<char>>,
    ev: Option<Seq<char>>,
    texts: Seq<(String, String)>,
) -> Result<Seq<char>, Seq<char>> {
    if kind != "Act"@ && kind != "Event"@ {
        Err("element_type must be 'Act' or 'Event' (got '"@ + kind + "')"@)
    } else if state.slot_of(id) < 0 {
        Err("Scenario '"@ + id + "' not found"@)
    } else {
        match listed_trigger(scenario_of(state, id).spec_storyboard(), kind, act, story, mg, mn, ev) {
            Err(m) => Err(m),
            Ok(t) => Ok(trigger_listing(kind, act, t, texts)),
        }
    }
}

/// Lists the conditions of the start trigger `t` of the act or event `name`.
fn describe_trigger(kind: &str, name: &str, t: &Option<Trigger>, texts: &Vec<(String, String)>) -> (r: String)
    ensures
        r@ == trigger_listing(kind@, name@, *t, texts@),
{
    let t = match t {
        None => {
            let mut m = concat3("No trigger set for ", kind, " '");
            m.append(name);
            m.append("'");
            return m;
        },
        Some(t) => t,
    };
    let groups = &t.condition_groups;
    let mut body = String::new();
    let mut started = false;
    let mut k: usize = 0;
    let ghost mut count: int = 0;
    let mut i: usize = 0;
    while i < groups.len()
        invariant
            i <= groups@.len(),
            count == all_conditions(groups@.subrange(0, i as int)).len(),
            started == (count > 0),
            k == if count < texts@.len() { count } else { texts@.len() as int },
            body@ == lines_joined(condition_lines(all_conditions(groups@.subrange(0, i as int)), texts@)),
        decreases groups@.len() - i,
    {
        let ghost done = all_conditions(groups@.subrange(0, i as int));
        assert(groups@.subrange(0, i + 1).drop_last() =~= groups@.subrange(0, i as int));
        assert(all_conditions(groups@.subrange(0, i + 1)) == done + groups@[i as int].conditions@);
        let conditions = &groups[i].conditions;
        let mut j: usize = 0;
        while j < conditions.len()
            invariant
                j <= conditions@.len(),
                conditions@ == groups@[i as int].conditions@,
                count == done.len() + j,
                started == (count > 0),
                k == if count < texts@.len() { count } else { texts@.len() as int },
                body@ == lines_joined(condition_lines(done + conditions@.subrange(0, j as int), texts@)),
            decreases conditions@.len() - j,
        {
            let (delay_text, value_text) = if k < texts.len() {
                (texts[k].0.as_str(), texts[k].1.as_str())
            } else {
                ("", "")
            };
            proof {
                reveal_strlit("");
            }
            assert(texts_at(texts@, count) == (delay_text@, value_text@));
            let line = format_condition_description(&conditions[j], delay_text, value_text);
            let ghost before = condition_lines(done + conditions@.subrange(0, j as int), texts@);
            let ghost upto = done + conditions@.subrange(0, j + 1);
            let ghost after = condition_lines(upto, texts@);
            assert(after.drop_last() =~= before);
            assert(upto[count] == conditions@[j as int]);
            assert(after[count] == line@);
            assert(after.len() == count + 1);
            if started {
                body.append("\n");
            }
            body.append(line.as_str());
            assert(body@ =~= lines_joined(after));
            j = j + 1;
            proof {
                count = count + 1;
            }
            if k < texts.len() {
                k = k + 1;
            }
            started = true;
        }
        assert(conditions@.subrange(0, j as int) =~= conditions@);
        i = i + 1;
    }
    assert(groups@.subrange(0, groups@.len() as int) =~= groups@);
    if !started {
        let mut m = concat3("Trigger exists but has no conditions for ", kind, " '");
        m.append(name);
        m.append("'");
        m
    } else {
        let mut m = concat3("Triggers for ", kind, " '");
        m.append(name);
        m.append("':\n");
        m.append(body.as_str());
        m
    }
}

/// Lists the conditions of the start trigger of an act (the first of that
/// name, stories taken in order) or of an event, one line each. `texts`
/// gives, condition after condition (group after group), how its delay and
/// its value (a simulation time or a speed) are written.
pub fn handle_list_triggers(
    state: &ServerState,
    scenario_id: &str,
    element_type: &str,
    act_name: &str,
    story_name: Option<&str>,
    maneuver_group: Option<&str>,
    maneuver: Option<&str>,
    event_name: Option<&str>,
    texts: &Vec<(String, String)>,
) -> (r: Result<String, String>)
    ensures
        outcome(r) == list_triggers_reply(state, scenario_id@, element_type@, act_name@, opt_view(story_name),
            opt_view(maneuver_group), opt_view(maneuver), opt_view(event_name), texts@),
{
    let is_act = str_eq(element_type, "Act");
    if !is_act && !str_eq(element_type, "Event") {
        return Err(concat3("element_type must be 'Act' or 'Event' (got '", element_type, "')"));
    }
    let sc = match state.scenario(scenario_id) {
        Some(sc) => sc,
        None => {
            return Err(concat3("Scenario '", scenario_id, "' not found"));
        },
    };
    let sb = sc.storyboard();
    let found = if is_act {
        sb.act_start_trigger(act_name)
    } else {
        let story = match story_name {
            Some(x) => x,
            None => {
                return Err(owned("story_name required for Event triggers"));
            },
        };
        let mg = match maneuver_group {
            Some(x) => x,
            None => {
                return Err(owned("maneuver_group required for Event triggers"));
            },
        };
        let mn = match maneuver {
            Some(x) => x,
            None => {
                return Err(owned("maneuver required for Event triggers"));
            },
        };
        let ev = match event_name {
            Some(x) => x,
            None => {
                return Err(owned("event_name required for Event triggers"));
            },
        };
        sb.event_start_trigger(story, act_name, mg, mn, ev)
    };
    match found {
        Err(e) => Err(e.message()),
        Ok(t) => Ok(describe_trigger(element_type, act_name, t, texts)),
    }
}

/// Why a position check refused a position.
#[derive(Debug)]
pub enum PositionRefusal {
    /// No road network is loaded.
    NoNetwork,
    /// The road or `s` does not fit.
    Position(ValidationError),
    /// The lane does not fit.
    Lane(ValidationError),
}

/// Checks a lane position (road, lane, `s`) against the loaded road network:
/// the network must be loaded, then the road and `s` must fit, then the lane.
pub fn handle_validate_position(state: &ServerState, road_id: &str, lane_id: i32, s: Real) -> (r: Result<(), PositionRefusal>)
    ensures
        match state.spec_validator() {
            None => r matches Err(PositionRefusal::NoNetwork),
            Some(v) => match v.spec_validate_road_position(road_id@, s) {
                Err(e) => r matches Err(PositionRefusal::Position(x)) && x@ == e,
                Ok(_) => match v.spec_validate_lane_position(road_id@, lane_id) {
                    Err(e) => r matches Err(PositionRefusal::Lane(x)) && x@ == e,
                    Ok(_) => r is Ok,
                },
            },
        },
{
    let v = match state.road_validator() {
        Some(v) => v,
        None => {
            return Err(PositionRefusal::NoNetwork);
        },
    };
    match v.validate_road_position(road_id, s) {
        Err(e) => {
            return Err(PositionRefusal::Position(e));
        },
        Ok(()) => {},
    }
    match v.validate_lane_position(road_id, lane_id) {
        Err(e) => Err(PositionRefusal::Lane(e)),
        Ok(()) => Ok(()),
    }
}

} // verus!

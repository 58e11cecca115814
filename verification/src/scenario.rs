//! The scenario builder: entities, parameters, initial state and storyboard.
use vstd::prelude::*;
use crate::entities::{
    Entity, MiscObject, MiscObjectParams, Pedestrian, PedestrianParams, Vehicle, VehicleParams,
    entity_names,
};
use crate::error::{ScenarioError, ScenarioErrorView, blank_name_reason, blank_reference_reason};
use crate::position::Position;
use crate::quantity::Real;
use crate::storyboard::{
    AccelerationAction, Action, AssignRouteAction, DistanceAction, DynamicsDimension, DynamicsShape,
    FollowTrajectoryAction, LaneChangeAction, LaneOffsetAction, LongitudinalDistanceAction, PositionAction, Route,
    SpeedAction, SpeedProfileAction, SpeedProfileEntry, StopCondition, StopTrigger, Story, Storyboard,
    SynchronizeAction, TargetPosition, TargetPositionMaster, TimingMode, Trajectory, TransitionDynamics,
    TransitionShape, Trigger, ByEntityCondition, CollisionCondition, Condition, ConditionEdge, ConditionGroup,
    ConditionKind, CoordinateSystem, EntityCondition, ReachPositionCondition, RelativeDistanceCondition,
    RelativeDistanceType, Rule, StandStillCondition, TimeHeadwayCondition, TimeToCollisionCondition,
    TriggeringEntities, TriggeringEntitiesRule,
};
use crate::editing::{
    act_added, act_trigger_set, action_added, actor_added, event_trigger_set, group_added, maneuver_added, story_added, trigger_put,
    storyboard_wf,
};
use crate::text::{
    blank, concat2, concat3, decimal, decimal_string, distinct, first_index, is_blank, lemma_first_index, lemma_first_index_bounds,
    owned, spec_trim, str_eq, trim, views,
};
use crate::version::OpenScenarioVersion;

verus! {

/// A declared scenario parameter with its default value.
#[derive(Clone, Debug, PartialEq)]
pub struct ParameterDeclaration {
    pub name: String,
    pub parameter_type: ParameterType,
    pub value: String,
}

/// The type of a scenario parameter.
#[derive(Clone, Copy, Debug, PartialEq, Eq, Structural)]
pub enum ParameterType {
    Integer,
    Double,
    String,
    Boolean,
    UnsignedInt,
    UnsignedShort,
    DateTime,
}

/// Where an entity starts.
#[derive(Clone, Debug)]
pub struct InitialPosition {
    pub entity: String,
    pub position: Position,
}

/// How fast an entity starts (m/s).
#[derive(Clone, Debug)]
pub struct InitialSpeed {
    pub entity: String,
    pub speed: Real,
}

/// An OpenSCENARIO scenario under construction.
pub struct Scenario {
    version: OpenScenarioVersion,
    entities: Vec<Entity>,
    initial_positions: Vec<InitialPosition>,
    initial_speeds: Vec<InitialSpeed>,
    parameters: Vec<ParameterDeclaration>,
    storyboard: Storyboard,
    road_network: Option<String>,
}

pub open spec fn position_keys(s: Seq<InitialPosition>) -> Seq<Seq<char>> {
    s.map_values(|p: InitialPosition| p.entity@)
}

pub open spec fn speed_keys(s: Seq<InitialSpeed>) -> Seq<Seq<char>> {
    s.map_values(|p: InitialSpeed| p.entity@)
}

pub open spec fn parameter_names(s: Seq<ParameterDeclaration>) -> Seq<Seq<char>> {
    s.map_values(|p: ParameterDeclaration| p.name@)
}

impl Scenario {
    pub closed spec fn spec_version(&self) -> OpenScenarioVersion {
        self.version
    }

    pub closed spec fn spec_entities(&self) -> Seq<Entity> {
        self.entities@
    }

    pub closed spec fn spec_initial_positions(&self) -> Seq<InitialPosition> {
        self.initial_positions@
    }

    pub closed spec fn spec_initial_speeds(&self) -> Seq<InitialSpeed> {
        self.initial_speeds@
    }

    pub closed spec fn spec_parameters(&self) -> Seq<ParameterDeclaration> {
        self.parameters@
    }

    pub closed spec fn spec_storyboard(&self) -> Storyboard {
        self.storyboard
    }

    pub closed spec fn spec_road_network(&self) -> Option<Seq<char>> {
        match self.road_network {
            Some(r) => Some(r@),
            None => None,
        }
    }

    /// The names of the entities, in the order they were added.
    pub open spec fn names(&self) -> Seq<Seq<char>> {
        entity_names(self.spec_entities())
    }

    /// An entity of this exact name exists.
    pub open spec fn has_entity(&self, name: Seq<char>) -> bool {
        self.names().contains(name)
    }

    /// The entity that `p` is relative to, if any, exists.
    pub open spec fn knows_reference(&self, p: Position) -> bool {
        match p.spec_referenced_entity() {
            Some(r) => self.has_entity(r),
            None => true,
        }
    }

    /// Everything but the storyboard is as in `other`.
    pub open spec fn same_but_storyboard(&self, other: &Scenario) -> bool {
        &&& self.spec_version() == other.spec_version()
        &&& self.spec_entities() == other.spec_entities()
        &&& self.spec_initial_positions() == other.spec_initial_positions()
        &&& self.spec_initial_speeds() == other.spec_initial_speeds()
        &&& self.spec_parameters() == other.spec_parameters()
        &&& self.spec_road_network() == other.spec_road_network()
    }

    /// Everything but the entity list is as in `other`.
    pub open spec fn same_but_entities(&self, other: &Scenario) -> bool {
        &&& self.spec_version() == other.spec_version()
        &&& self.spec_storyboard() == other.spec_storyboard()
        &&& self.spec_initial_positions() == other.spec_initial_positions()
        &&& self.spec_initial_speeds() == other.spec_initial_speeds()
        &&& self.spec_parameters() == other.spec_parameters()
        &&& self.spec_road_network() == other.spec_road_network()
    }

    /// The invariant that the builder keeps: entity names are trimmed; entity names, parameter names,
    /// story names, act names within a story and maneuver-group names within an
    /// act are distinct; every initial position and speed belongs to an entity,
    /// once; every relative initial position refers to an entity.
    pub open spec fn wf(&self) -> bool {
        &&& forall|i: int| 0 <= i < self.names().len() ==> spec_trim(#[trigger] self.names()[i]) == self.names()[i]
        &&& distinct(self.names())
        &&& distinct(parameter_names(self.spec_parameters()))
        &&& distinct(position_keys(self.spec_initial_positions()))
        &&& distinct(speed_keys(self.spec_initial_speeds()))
        &&& forall|i: int| 0 <= i < self.spec_initial_positions().len() ==> self.has_entity(
            #[trigger] self.spec_initial_positions()[i].entity@)
        &&& forall|i: int| 0 <= i < self.spec_initial_positions().len() ==> self.knows_reference(
            #[trigger] self.spec_initial_positions()[i].position)
        &&& forall|i: int| 0 <= i < self.spec_initial_speeds().len() ==> self.has_entity(
            #[trigger] self.spec_initial_speeds()[i].entity@)
        &&& storyboard_wf(self.spec_storyboard())
    }

    /// A change of the storyboard alone keeps the invariant when the new
    /// storyboard keeps its own.
    pub proof fn lemma_storyboard_change_keeps_wf(old: &Scenario, new: &Scenario)
        requires
            old.wf(),
            new.same_but_storyboard(old),
            storyboard_wf(new.spec_storyboard()),
        ensures
            new.wf(),
    {
        assert(new.names() == old.names());
    }

    /// A scenario of the given version with no entities, parameters or stories.
    pub fn new(version: OpenScenarioVersion) -> (r: Self)
        ensures
            r.spec_version() == version,
            r.spec_entities().len() == 0,
            r.spec_initial_positions().len() == 0,
            r.spec_initial_speeds().len() == 0,
            r.spec_parameters().len() == 0,
            r.spec_storyboard().stories@.len() == 0,
            r.spec_storyboard().stop_trigger is None,
            r.spec_road_network() is None,
            r.wf(),
    {
        Scenario {
            version,
            entities: Vec::new(),
            initial_positions: Vec::new(),
            initial_speeds: Vec::new(),
            parameters: Vec::new(),
            storyboard: Storyboard::new(),
            road_network: None,
        }
    }

    /// The standard version of the scenario.
    pub fn version(&self) -> (r: OpenScenarioVersion)
        ensures
            r == self.spec_version(),
    {
        self.version
    }

    /// The declared parameters, in declaration order.
    pub fn parameters(&self) -> (r: &Vec<ParameterDeclaration>)
        ensures
            r@ == self.spec_parameters(),
    {
        &self.parameters
    }

    /// A scenario made of parts read from a document.
    pub fn assemble(
        version: OpenScenarioVersion,
        entities: Vec<Entity>,
        initial_positions: Vec<InitialPosition>,
        initial_speeds: Vec<InitialSpeed>,
        road_network: Option<String>,
        parameters: Vec<ParameterDeclaration>,
        storyboard: Storyboard,
    ) -> (r: Scenario)
        ensures
            r.spec_version() == version,
            r.spec_entities() == entities@,
            r.spec_initial_positions() == initial_positions@,
            r.spec_initial_speeds() == initial_speeds@,
            r.spec_parameters() == parameters@,
            r.spec_storyboard() == storyboard,
            r.spec_road_network() == (match road_network {
                Some(x) => Some(x@),
                None => None,
            }),
    {
        Scenario { version, entities, initial_positions, initial_speeds, parameters, storyboard, road_network }
    }

    /// The storyboard.
    pub fn storyboard(&self) -> (r: &Storyboard)
        ensures
            *r == self.spec_storyboard(),
    {
        &self.storyboard
    }

    /// The stories, in the order they were added.
    pub fn stories(&self) -> (r: &Vec<Story>)
        ensures
            r@ == self.spec_storyboard().stories@,
    {
        &self.storyboard.stories
    }

    /// The road network file, if one was set.
    pub fn road_network(&self) -> (r: Option<&str>)
        ensures
            match r {
                Some(s) => self.spec_road_network() == Some(s@),
                None => self.spec_road_network() is None,
            },
    {
        match &self.road_network {
            Some(s) => Some(s.as_str()),
            None => None,
        }
    }

    /// Sets the road network file of the scenario.
    pub fn set_road_network(&mut self, path: &str)
        ensures
            final(self).spec_road_network() == Some(path@),
            final(self).spec_version() == old(self).spec_version(),
            final(self).spec_entities() == old(self).spec_entities(),
            final(self).spec_initial_positions() == old(self).spec_initial_positions(),
            final(self).spec_initial_speeds() == old(self).spec_initial_speeds(),
            final(self).spec_parameters() == old(self).spec_parameters(),
            final(self).spec_storyboard() == old(self).spec_storyboard(),
            old(self).wf() ==> final(self).wf(),
    {
        self.road_network = Some(owned(path));
    }

    fn entity_index(&self, name: &str) -> (r: Option<usize>)
        ensures
            match r {
                Some(i) => first_index(self.names(), name@) == i && i < self.spec_entities().len(),
                None => first_index(self.names(), name@) == -1 && !self.has_entity(name@),
            },
    {
        let ghost names = self.names();
        let mut i: usize = 0;
        while i < self.entities.len()
            invariant
                i <= self.entities@.len(),
                names == self.names(),
                forall|j: int| 0 <= j < i ==> names[j] != name@,
            decreases self.entities@.len() - i,
        {
            assert(names[i as int] == self.entities@[i as int].spec_name());
            if str_eq(self.entities[i].name(), name) {
                proof { lemma_first_index(names, name@, i as int); }
                return Some(i);
            }
            i = i + 1;
        }
        proof {
            lemma_first_index(names, name@, i as int);
            lemma_first_index_bounds(names, name@);
        }
        None
    }

    /// Whether an entity of this exact name exists.
    pub fn contains_entity(&self, name: &str) -> (b: bool)
        ensures
            b == self.has_entity(name@),
    {
        let r = self.entity_index(name);
        proof {
            if let Some(i) = r {
                lemma_first_index_bounds(self.names(), name@);
            }
        }
        r.is_some()
    }

    /// The entity of this exact name.
    pub fn get_entity(&self, name: &str) -> (r: Option<&Entity>)
        ensures
            match r {
                Some(e) => first_index(self.names(), name@) >= 0 && *e == self.spec_entities()[first_index(self.names(), name@)],
                None => !self.has_entity(name@),
            },
    {
        match self.entity_index(name) {
            Some(i) => Some(&self.entities[i]),
            None => None,
        }
    }

    /// The entities, in the order they were added.
    pub fn entities(&self) -> (r: &Vec<Entity>)
        ensures
            r@ == self.spec_entities(),
    {
        &self.entities
    }

    /// The names of the entities, in the order they were added.
    pub fn entity_names(&self) -> (r: Vec<String>)
        ensures
            views(r@) == self.names(),
    {
        let mut r: Vec<String> = Vec::new();
        let mut i: usize = 0;
        while i < self.entities.len()
            invariant
                i <= self.entities@.len(),
                r@.len() == i,
                forall|j: int| 0 <= j < i ==> r@[j]@ == self.entities@[j].spec_name(),
            decreases self.entities@.len() - i,
        {
            r.push(owned(self.entities[i].name()));
            i = i + 1;
        }
        assert(views(r@) =~= self.names());
        r
    }

    /// What adding an entity called `name` gives: an error for a blank name or
    /// a name (after trimming) that is taken, otherwise the trimmed name.
    pub open spec fn add_entity_outcome(&self, name: Seq<char>) -> Result<Seq<char>, ScenarioErrorView> {
        if is_blank(name) {
            Err(ScenarioErrorView::InvalidValue { field: "entity name"@, reason: blank_name_reason() })
        } else if self.has_entity(spec_trim(name)) {
            Err(ScenarioErrorView::EntityConflict { name: spec_trim(name), existing_location: None })
        } else {
            Ok(spec_trim(name))
        }
    }

    /// How the scenario changes when an entity is added: not at all when the
    /// name is refused; otherwise the entity (as `entity` says) is added last.
    pub open spec fn entity_change(old: &Scenario, new: &Scenario, name: Seq<char>, entity: spec_fn(Entity) -> bool) -> bool {
        match old.add_entity_outcome(name) {
            Err(_) => *new == *old,
            Ok(trimmed) => {
                &&& new.same_but_entities(old)
                &&& new.spec_entities().len() == old.spec_entities().len() + 1
                &&& new.spec_entities().drop_last() == old.spec_entities()
                &&& new.spec_entities().last().spec_name() == trimmed
                &&& entity(new.spec_entities().last())
            },
        }
    }

    /// The relation between the scenario before and after adding an entity.
    pub open spec fn entity_added(old: &Scenario, new: &Scenario, r: Result<(), ScenarioError>, name: Seq<char>, entity: spec_fn(Entity) -> bool) -> bool {
        &&& Scenario::entity_change(old, new, name, entity)
        &&& match old.add_entity_outcome(name) {
            Err(e) => r matches Err(err) && err@ == e,
            Ok(_) => r is Ok,
        }
    }

    fn check_new_entity(&self, name: &str) -> (r: Result<String, ScenarioError>)
        ensures
            match self.add_entity_outcome(name@) {
                Err(e) => r matches Err(err) && err@ == e,
                Ok(t) => r matches Ok(s) && s@ == t,
            },
    {
        if blank(name) {
            return Err(ScenarioError::InvalidValue {
                field: owned("entity name"),
                reason: owned("name cannot be empty or whitespace-only"),
            });
        }
        let trimmed = trim(name);
        if self.contains_entity(trimmed.as_str()) {
            return Err(ScenarioError::EntityConflict { name: trimmed, existing_location: None });
        }
        Ok(trimmed)
    }

    proof fn lemma_push_entity_keeps_wf(old: &Scenario, new: &Scenario)
        requires
            old.wf(),
            new.same_but_entities(old),
            new.spec_entities().len() == old.spec_entities().len() + 1,
            new.spec_entities().drop_last() == old.spec_entities(),
            !old.has_entity(new.spec_entities().last().spec_name()),
            spec_trim(new.spec_entities().last().spec_name()) == new.spec_entities().last().spec_name(),
        ensures
            new.wf(),
            forall|n: Seq<char>| old.has_entity(n) ==> new.has_entity(n),
    {
        let on = old.names();
        let nn = new.names();
        assert(nn.drop_last() =~= on);
        assert forall|i: int| 0 <= i < nn.len() implies spec_trim(#[trigger] nn[i]) == nn[i] by {
            if i < on.len() {
                assert(on[i] == nn[i]);
            } else {
                assert(nn[i] == new.spec_entities().last().spec_name());
            }
        }
        assert forall|n: Seq<char>| old.has_entity(n) implies new.has_entity(n) by {
            let k = choose|k: int| 0 <= k < on.len() && on[k] == n;
            assert(nn[k] == n);
        }
        assert forall|i: int, j: int| 0 <= i < j < nn.len() implies nn[i] != nn[j] by {
            if j == nn.len() - 1 {
                assert(on[i] == nn[i]);
            } else {
                assert(on[i] == nn[i] && on[j] == nn[j]);
            }
        }
    }

    /// Adds a vehicle under its trimmed name.
    pub fn add_vehicle(&mut self, name: &str, params: VehicleParams) -> (r: Result<(), ScenarioError>)
        ensures
            Scenario::entity_added(old(self), final(self), r, name@, |e: Entity| e matches Entity::Vehicle(v) && v.params == params),
            old(self).wf() ==> final(self).wf(),
    {
        let trimmed = self.check_new_entity(name)?;
        proof { crate::text::lemma_trim_idempotent(name@); }
        let ghost before = *self;
        self.entities.push(Entity::Vehicle(Vehicle { name: trimmed, params }));
        proof {
            assert(self.spec_entities().drop_last() =~= before.spec_entities());
            if before.wf() {
                Scenario::lemma_push_entity_keeps_wf(&before, self);
            }
        }
        Ok(())
    }

    /// Adds a pedestrian under its trimmed name.
    pub fn add_pedestrian(&mut self, name: &str, params: PedestrianParams) -> (r: Result<(), ScenarioError>)
        ensures
            Scenario::entity_added(old(self), final(self), r, name@, |e: Entity| e matches Entity::Pedestrian(p) && p.params == params),
            old(self).wf() ==> final(self).wf(),
    {
        let trimmed = self.check_new_entity(name)?;
        proof { crate::text::lemma_trim_idempotent(name@); }
        let ghost before = *self;
        self.entities.push(Entity::Pedestrian(Pedestrian { name: trimmed, params }));
        proof {
            assert(self.spec_entities().drop_last() =~= before.spec_entities());
            if before.wf() {
                Scenario::lemma_push_entity_keeps_wf(&before, self);
            }
        }
        Ok(())
    }

    /// Adds a miscellaneous object under its trimmed name.
    pub fn add_misc_object(&mut self, name: &str, params: MiscObjectParams) -> (r: Result<(), ScenarioError>)
        ensures
            Scenario::entity_added(old(self), final(self), r, name@, |e: Entity| e matches Entity::MiscObject(m) && m.params == params),
            old(self).wf() ==> final(self).wf(),
    {
        let trimmed = self.check_new_entity(name)?;
        proof { crate::text::lemma_trim_idempotent(name@); }
        let ghost before = *self;
        self.entities.push(Entity::MiscObject(MiscObject { name: trimmed, params }));
        proof {
            assert(self.spec_entities().drop_last() =~= before.spec_entities());
            if before.wf() {
                Scenario::lemma_push_entity_keeps_wf(&before, self);
            }
        }
        Ok(())
    }
}


/// The error that leaves the scenario untouched.
pub open spec fn rejected(old: &Scenario, new: &Scenario, r: Result<(), ScenarioError>, e: ScenarioErrorView) -> bool {
    r matches Err(x) && x@ == e && *new == *old
}

/// An `InvalidValue` error.
pub open spec fn invalid_value(field: Seq<char>, reason: Seq<char>) -> ScenarioErrorView {
    ScenarioErrorView::InvalidValue { field, reason }
}

/// The first of the entries of `s` keyed `key`, or -1.
pub open spec fn position_index(s: Seq<InitialPosition>, key: Seq<char>) -> int {
    first_index(position_keys(s), key)
}

/// The first of the entries of `s` keyed `key`, or -1.
pub open spec fn speed_index(s: Seq<InitialSpeed>, key: Seq<char>) -> int {
    first_index(speed_keys(s), key)
}

impl Scenario {
    /// The storyboard changed as `f` says and nothing else did.
    pub open spec fn story_step(old: &Scenario, new: &Scenario, f: spec_fn(Storyboard, Storyboard) -> bool) -> bool {
        new.same_but_storyboard(old) && f(old.spec_storyboard(), new.spec_storyboard())
    }

    /// What declaring a parameter does: a conflict when the name is taken,
    /// otherwise the declaration is added last and nothing else changes.
    pub open spec fn parameter_added(old: &Scenario, new: &Scenario, r: Result<(), ScenarioError>, name: Seq<char>, parameter_type: ParameterType, value: Seq<char>) -> bool {
        if parameter_names(old.spec_parameters()).contains(name) {
            rejected(old, new, r, ScenarioErrorView::ParameterConflict { name })
        } else {
            &&& r is Ok
            &&& new.spec_version() == old.spec_version()
            &&& new.spec_entities() == old.spec_entities()
            &&& new.spec_initial_positions() == old.spec_initial_positions()
            &&& new.spec_initial_speeds() == old.spec_initial_speeds()
            &&& new.spec_storyboard() == old.spec_storyboard()
            &&& new.spec_road_network() == old.spec_road_network()
            &&& new.spec_parameters().len() == old.spec_parameters().len() + 1
            &&& new.spec_parameters().drop_last() == old.spec_parameters()
            &&& new.spec_parameters().last().name@ == name
            &&& new.spec_parameters().last().parameter_type == parameter_type
            &&& new.spec_parameters().last().value@ == value
        }
    }

    /// Declares a parameter; its name must be new.
    pub fn add_parameter(&mut self, name: &str, parameter_type: ParameterType, value: &str) -> (r: Result<(), ScenarioError>)
        ensures
            Scenario::parameter_added(old(self), final(self), r, name@, parameter_type, value@),
            old(self).wf() ==> final(self).wf(),
    {
        let mut i: usize = 0;
        while i < self.parameters.len()
            invariant
                i <= self.parameters@.len(),
                forall|j: int| 0 <= j < i ==> self.parameters@[j].name@ != name@,
            decreases self.parameters@.len() - i,
        {
            if str_eq(self.parameters[i].name.as_str(), name) {
                assert(parameter_names(self.parameters@)[i as int] == name@);
                return Err(ScenarioError::ParameterConflict { name: owned(name) });
            }
            i = i + 1;
        }
        let ghost before = *self;
        self.parameters.push(ParameterDeclaration { name: owned(name), parameter_type, value: owned(value) });
        proof {
            let on = parameter_names(before.parameters@);
            let nn = parameter_names(self.parameters@);
            assert(nn =~= on.push(name@));
            assert(self.parameters@.drop_last() =~= before.parameters@);
            if on.contains(name@) {
                let k = choose|k: int| 0 <= k < on.len() && on[k] == name@;
                assert(before.parameters@[k].name@ == name@);
            }
            if distinct(on) {
                assert forall|a: int, b: int| 0 <= a < b < nn.len() implies nn[a] != nn[b] by {
                    if b == nn.len() - 1 {
                        assert(on[a] == nn[a]);
                        assert(before.parameters@[a].name@ == on[a]);
                    } else {
                        assert(on[a] == nn[a] && on[b] == nn[b]);
                    }
                }
            }
        }
        Ok(())
    }

    /// What setting an initial position of `entity` gives: an error for a
    /// blank name, a missing entity or a missing reference entity; otherwise
    /// the trimmed name it is stored under.
    pub open spec fn position_outcome(&self, entity: Seq<char>, position: Position) -> Result<Seq<char>, ScenarioErrorView> {
        if is_blank(entity) {
            Err(invalid_value("entity reference"@, blank_reference_reason()))
        } else if !self.has_entity(spec_trim(entity)) {
            Err(ScenarioErrorView::EntityNotFound { entity: spec_trim(entity), context: "set_initial_position"@ })
        } else {
            match position.spec_referenced_entity() {
                Some(r) => if self.has_entity(r) {
                    Ok(spec_trim(entity))
                } else {
                    Err(ScenarioErrorView::EntityNotFound { entity: r, context: "Position for entity '"@ + spec_trim(entity) + "'"@ })
                },
                None => Ok(spec_trim(entity)),
            }
        }
    }

    fn find_position(&self, entity: &str) -> (r: Option<usize>)
        ensures
            match r {
                Some(i) => position_index(self.spec_initial_positions(), entity@) == i && i < self.spec_initial_positions().len(),
                None => position_index(self.spec_initial_positions(), entity@) == -1,
            },
    {
        let ghost keys = position_keys(self.initial_positions@);
        let mut i: usize = 0;
        while i < self.initial_positions.len()
            invariant
                i <= self.initial_positions@.len(),
                keys == position_keys(self.initial_positions@),
                forall|j: int| 0 <= j < i ==> keys[j] != entity@,
            decreases self.initial_positions@.len() - i,
        {
            assert(keys[i as int] == self.initial_positions@[i as int].entity@);
            if str_eq(self.initial_positions[i].entity.as_str(), entity) {
                proof { lemma_first_index(keys, entity@, i as int); }
                return Some(i);
            }
            i = i + 1;
        }
        proof { lemma_first_index(keys, entity@, i as int); }
        None
    }

    fn find_speed(&self, entity: &str) -> (r: Option<usize>)
        ensures
            match r {
                Some(i) => speed_index(self.spec_initial_speeds(), entity@) == i && i < self.spec_initial_speeds().len(),
                None => speed_index(self.spec_initial_speeds(), entity@) == -1,
            },
    {
        let ghost keys = speed_keys(self.initial_speeds@);
        let mut i: usize = 0;
        while i < self.initial_speeds.len()
            invariant
                i <= self.initial_speeds@.len(),
                keys == speed_keys(self.initial_speeds@),
                forall|j: int| 0 <= j < i ==> keys[j] != entity@,
            decreases self.initial_speeds@.len() - i,
        {
            assert(keys[i as int] == self.initial_speeds@[i as int].entity@);
            if str_eq(self.initial_speeds[i].entity.as_str(), entity) {
                proof { lemma_first_index(keys, entity@, i as int); }
                return Some(i);
            }
            i = i + 1;
        }
        proof { lemma_first_index(keys, entity@, i as int); }
        None
    }

    /// The initial position of `entity`, if one is set.
    pub fn get_initial_position(&self, entity: &str) -> (r: Option<&Position>)
        ensures
            match r {
                Some(p) => position_index(self.spec_initial_positions(), entity@) >= 0
                    && *p == self.spec_initial_positions()[position_index(self.spec_initial_positions(), entity@)].position,
                None => position_index(self.spec_initial_positions(), entity@) == -1,
            },
    {
        match self.find_position(entity) {
            Some(i) => Some(&self.initial_positions[i].position),
            None => None,
        }
    }

    /// The initial positions, one per entity.
    pub fn initial_positions(&self) -> (r: &Vec<InitialPosition>)
        ensures
            r@ == self.spec_initial_positions(),
    {
        &self.initial_positions
    }

    /// The initial speed of `entity`, if one is set.
    pub fn get_initial_speed(&self, entity: &str) -> (r: Option<Real>)
        ensures
            match r {
                Some(v) => speed_index(self.spec_initial_speeds(), entity@) >= 0
                    && v == self.spec_initial_speeds()[speed_index(self.spec_initial_speeds(), entity@)].speed,
                None => speed_index(self.spec_initial_speeds(), entity@) == -1,
            },
    {
        match self.find_speed(entity) {
            Some(i) => Some(self.initial_speeds[i].speed),
            None => None,
        }
    }

    /// The initial speeds, one per entity.
    pub fn initial_speeds(&self) -> (r: &Vec<InitialSpeed>)
        ensures
            r@ == self.spec_initial_speeds(),
    {
        &self.initial_speeds
    }

    /// `new` is `old` with `position` stored for the entity `key`: in place of
    /// its earlier position, or at the end.
    pub open spec fn position_stored(old: &Scenario, new: &Scenario, key: Seq<char>, position: Position) -> bool {
        let old_p = old.spec_initial_positions();
        let new_p = new.spec_initial_positions();
        let k = position_index(old_p, key);
        &&& new.spec_version() == old.spec_version()
        &&& new.spec_entities() == old.spec_entities()
        &&& new.spec_initial_speeds() == old.spec_initial_speeds()
        &&& new.spec_parameters() == old.spec_parameters()
        &&& new.spec_storyboard() == old.spec_storyboard()
        &&& new.spec_road_network() == old.spec_road_network()
        &&& if k >= 0 {
            &&& new_p.len() == old_p.len()
            &&& forall|j: int| 0 <= j < old_p.len() && j != k ==> new_p[j] == old_p[j]
            &&& new_p[k].entity@ == key
            &&& new_p[k].position == position
        } else {
            &&& new_p.len() == old_p.len() + 1
            &&& new_p.drop_last() == old_p
            &&& new_p.last().entity@ == key
            &&& new_p.last().position == position
        }
    }

    /// How the scenario changes when the initial position of `entity` is set:
    /// not at all when it is refused, otherwise the position is stored.
    pub open spec fn position_change(old: &Scenario, new: &Scenario, entity: Seq<char>, position: Position) -> bool {
        match old.position_outcome(entity, position) {
            Err(_) => *new == *old,
            Ok(key) => Scenario::position_stored(old, new, key, position),
        }
    }

    /// Sets (or replaces) where an entity starts.
    #[verifier::spinoff_prover]
    #[verifier::rlimit(30)]
    pub fn set_initial_position(&mut self, entity: &str, position: Position) -> (r: Result<(), ScenarioError>)
        ensures
            Scenario::position_change(old(self), final(self), entity@, position),
            match old(self).position_outcome(entity@, position) {
                Err(e) => r matches Err(x) && x@ == e,
                Ok(_) => r is Ok,
            },
            old(self).wf() ==> final(self).wf(),
    {
        if blank(entity) {
            return Err(ScenarioError::InvalidValue {
                field: owned("entity reference"),
                reason: owned("entity name cannot be empty or whitespace-only"),
            });
        }
        let key = trim(entity);
        if !self.contains_entity(key.as_str()) {
            return Err(ScenarioError::EntityNotFound { entity: key, context: owned("set_initial_position") });
        }
        match position.referenced_entity() {
            Some(other) => {
                if !self.contains_entity(other) {
                    return Err(ScenarioError::EntityNotFound {
                        entity: owned(other),
                        context: concat3("Position for entity '", key.as_str(), "'"),
                    });
                }
            },
            None => {},
        }
        let ghost before = *self;
        let ghost keys = position_keys(self.initial_positions@);
        proof { lemma_first_index_bounds(keys, key@); }
        match self.find_position(key.as_str()) {
            Some(k) => {
                let e = self.initial_positions[k].entity.clone();
                self.initial_positions.set(k, InitialPosition { entity: e, position });
                proof {
                    assert(position_keys(self.initial_positions@) =~= keys);
                }
            },
            None => {
                self.initial_positions.push(InitialPosition { entity: key, position });
                proof {
                    let nk = position_keys(self.initial_positions@);
                    assert(nk =~= keys.push(key@));
                    assert(self.initial_positions@.drop_last() =~= before.initial_positions@);
                    if distinct(keys) {
                        assert forall|a: int, b: int| 0 <= a < b < nk.len() implies nk[a] != nk[b] by {
                            if b == nk.len() - 1 {
                                assert(keys[a] == nk[a]);
                            } else {
                                assert(keys[a] == nk[a] && keys[b] == nk[b]);
                            }
                        }
                    }
                }
            },
        }
        proof {
            if before.wf() {
                assert forall|i: int| 0 <= i < self.initial_positions@.len() implies before.has_entity(
                    #[trigger] self.initial_positions@[i].entity@) && before.knows_reference(self.initial_positions@[i].position) by {
                    if i < before.initial_positions@.len() && self.initial_positions@[i] == before.initial_positions@[i] {
                    } else {
                        assert(self.initial_positions@[i].entity@ == key@);
                        assert(self.initial_positions@[i].position == position);
                    }
                }
            }
        }
        Ok(())
    }

    /// Sets (or replaces) how fast an entity starts.
    #[verifier::spinoff_prover]
    #[verifier::rlimit(30)]
    pub fn set_initial_speed(&mut self, entity: &str, speed: Real) -> (r: Result<(), ScenarioError>)
        ensures
            if is_blank(entity@) {
                rejected(old(self), final(self), r, invalid_value("entity reference"@, blank_reference_reason()))
            } else if !old(self).has_entity(spec_trim(entity@)) {
                rejected(old(self), final(self), r, ScenarioErrorView::EntityNotFound {
                    entity: spec_trim(entity@), context: "set_initial_speed"@ })
            } else {
                let key = spec_trim(entity@);
                let old_s = old(self).spec_initial_speeds();
                let new_s = final(self).spec_initial_speeds();
                let k = speed_index(old_s, key);
                &&& r is Ok
                &&& final(self).spec_version() == old(self).spec_version()
                &&& final(self).spec_entities() == old(self).spec_entities()
                &&& final(self).spec_initial_positions() == old(self).spec_initial_positions()
                &&& final(self).spec_parameters() == old(self).spec_parameters()
                &&& final(self).spec_storyboard() == old(self).spec_storyboard()
                &&& final(self).spec_road_network() == old(self).spec_road_network()
                &&& if k >= 0 {
                    &&& new_s.len() == old_s.len()
                    &&& forall|j: int| 0 <= j < old_s.len() && j != k ==> new_s[j] == old_s[j]
                    &&& new_s[k].entity@ == key
                    &&& new_s[k].speed == speed
                } else {
                    &&& new_s.len() == old_s.len() + 1
                    &&& new_s.drop_last() == old_s
                    &&& new_s.last().entity@ == key
                    &&& new_s.last().speed == speed
                }
            },
            old(self).wf() ==> final(self).wf(),
    {
        if blank(entity) {
            return Err(ScenarioError::InvalidValue {
                field: owned("entity reference"),
                reason: owned("entity name cannot be empty or whitespace-only"),
            });
        }
        let key = trim(entity);
        if !self.contains_entity(key.as_str()) {
            return Err(ScenarioError::EntityNotFound { entity: key, context: owned("set_initial_speed") });
        }
        let ghost before = *self;
        let ghost keys = speed_keys(self.initial_speeds@);
        proof { lemma_first_index_bounds(keys, key@); }
        match self.find_speed(key.as_str()) {
            Some(k) => {
                let e = self.initial_speeds[k].entity.clone();
                self.initial_speeds.set(k, InitialSpeed { entity: e, speed });
                proof {
                    assert(speed_keys(self.initial_speeds@) =~= keys);
                }
            },
            None => {
                self.initial_speeds.push(InitialSpeed { entity: key, speed });
                proof {
                    let nk = speed_keys(self.initial_speeds@);
                    assert(nk =~= keys.push(key@));
                    assert(self.initial_speeds@.drop_last() =~= before.initial_speeds@);
                    if distinct(keys) {
                        assert forall|a: int, b: int| 0 <= a < b < nk.len() implies nk[a] != nk[b] by {
                            if b == nk.len() - 1 {
                                assert(keys[a] == nk[a]);
                            } else {
                                assert(keys[a] == nk[a] && keys[b] == nk[b]);
                            }
                        }
                    }
                }
            },
        }
        proof {
            if before.wf() {
                assert forall|i: int| 0 <= i < self.initial_speeds@.len() implies before.has_entity(
                    #[trigger] self.initial_speeds@[i].entity@) by {
                    if i < before.initial_speeds@.len() && self.initial_speeds@[i] == before.initial_speeds@[i] {
                    } else {
                        assert(self.initial_speeds@[i].entity@ == key@);
                    }
                }
            }
        }
        Ok(())
    }
}


impl Scenario {
    /// Adds an empty story under the trimmed name; the name must be new.
    pub fn add_story(&mut self, name: &str) -> (r: Result<(), ScenarioError>)
        ensures
            final(self).same_but_storyboard(old(self)),
            story_added(old(self).spec_storyboard(), final(self).spec_storyboard(), r, name@),
            old(self).wf() ==> final(self).wf(),
    {
        let ghost before = *self;
        let r = self.storyboard.add_story(name);
        proof {
            if before.wf() {
                Scenario::lemma_storyboard_change_keeps_wf(&before, self);
            }
        }
        r
    }

    /// Adds an empty act to a story; its name must be new in the story.
    pub fn add_act(&mut self, story: &str, name: &str) -> (r: Result<(), ScenarioError>)
        ensures
            final(self).same_but_storyboard(old(self)),
            act_added(old(self).spec_storyboard(), final(self).spec_storyboard(), r, story@, name@),
            old(self).wf() ==> final(self).wf(),
    {
        let ghost before = *self;
        let r = self.storyboard.add_act(story, name);
        proof {
            if before.wf() {
                Scenario::lemma_storyboard_change_keeps_wf(&before, self);
            }
        }
        r
    }

    /// Sets the start trigger of an act.
    pub fn set_act_start_trigger(&mut self, story: &str, act: &str, trigger: Trigger) -> (r: Result<(), ScenarioError>)
        ensures
            final(self).same_but_storyboard(old(self)),
            act_trigger_set(old(self).spec_storyboard(), final(self).spec_storyboard(), r, story@, act@, trigger),
            old(self).wf() ==> final(self).wf(),
    {
        let ghost before = *self;
        let r = self.storyboard.set_act_start_trigger(story, act, trigger);
        proof {
            if before.wf() {
                Scenario::lemma_storyboard_change_keeps_wf(&before, self);
            }
        }
        r
    }

    /// Sets the start trigger of an existing event.
    pub fn set_event_start_trigger(
        &mut self,
        story: &str,
        act: &str,
        maneuver_group: &str,
        maneuver: &str,
        event: &str,
        trigger: Trigger,
    ) -> (r: Result<(), ScenarioError>)
        ensures
            final(self).same_but_storyboard(old(self)),
            event_trigger_set(old(self).spec_storyboard(), final(self).spec_storyboard(), r, story@, act@,
                maneuver_group@, maneuver@, event@, trigger),
            old(self).wf() ==> final(self).wf(),
    {
        let ghost before = *self;
        let r = self.storyboard.set_event_start_trigger(story, act, maneuver_group, maneuver, event, trigger);
        proof {
            if before.wf() {
                Scenario::lemma_storyboard_change_keeps_wf(&before, self);
            }
        }
        r
    }

    /// Adds an empty maneuver group to an act; its name must be new in the act.
    pub fn add_maneuver_group(&mut self, story: &str, act: &str, name: &str) -> (r: Result<(), ScenarioError>)
        ensures
            final(self).same_but_storyboard(old(self)),
            group_added(old(self).spec_storyboard(), final(self).spec_storyboard(), r, story@, act@, name@),
            old(self).wf() ==> final(self).wf(),
    {
        let ghost before = *self;
        let r = self.storyboard.add_maneuver_group(story, act, name);
        proof {
            if before.wf() {
                Scenario::lemma_storyboard_change_keeps_wf(&before, self);
            }
        }
        r
    }

    /// What adding `entity` as an actor gives: an error for a blank or unknown
    /// entity, otherwise the trimmed name added to the maneuver group.
    pub open spec fn actor_step(old: &Scenario, new: &Scenario, r: Result<(), ScenarioError>, story: Seq<char>, act: Seq<char>, mg: Seq<char>, entity: Seq<char>) -> bool {
        if is_blank(entity) {
            rejected(old, new, r, invalid_value("entity reference"@, blank_reference_reason()))
        } else if !old.has_entity(spec_trim(entity)) {
            rejected(old, new, r, ScenarioErrorView::EntityNotFound { entity: spec_trim(entity), context: "add_actor"@ })
        } else {
            &&& new.same_but_storyboard(old)
            &&& actor_added(old.spec_storyboard(), new.spec_storyboard(), r, story, act, mg, spec_trim(entity))
        }
    }

    /// Adds an existing entity (trimmed name) as an actor of a maneuver group,
    /// unless the group has it already.
    pub fn add_actor(&mut self, story: &str, act: &str, mg: &str, entity: &str) -> (r: Result<(), ScenarioError>)
        ensures
            Scenario::actor_step(old(self), final(self), r, story@, act@, mg@, entity@),
            old(self).wf() ==> final(self).wf(),
    {
        if blank(entity) {
            return Err(ScenarioError::InvalidValue {
                field: owned("entity reference"),
                reason: owned("entity name cannot be empty or whitespace-only"),
            });
        }
        let name = trim(entity);
        if !self.contains_entity(name.as_str()) {
            return Err(ScenarioError::EntityNotFound { entity: name, context: owned("add_actor") });
        }
        let ghost before = *self;
        let r = self.storyboard.add_group_actor(story, act, mg, name.as_str());
        proof {
            if before.wf() {
                Scenario::lemma_storyboard_change_keeps_wf(&before, self);
            }
        }
        r
    }

    /// Adds an empty maneuver at the end of a maneuver group; its name must be new there.
    pub fn add_maneuver(&mut self, story: &str, act: &str, mg: &str, name: &str) -> (r: Result<(), ScenarioError>)
        ensures
            final(self).same_but_storyboard(old(self)),
            maneuver_added(old(self).spec_storyboard(), final(self).spec_storyboard(), r, story@, act@, mg@, name@),
            old(self).wf() ==> final(self).wf(),
    {
        let ghost before = *self;
        let r = self.storyboard.add_maneuver(story, act, mg, name);
        proof {
            if before.wf() {
                Scenario::lemma_storyboard_change_keeps_wf(&before, self);
            }
        }
        r
    }

    /// Stops the simulation when its time reaches `seconds`.
    pub fn set_stop_time(&mut self, seconds: Real)
        ensures
            final(self).same_but_storyboard(old(self)),
            final(self).spec_storyboard().stories == old(self).spec_storyboard().stories,
            final(self).spec_storyboard().stop_trigger == Some(StopTrigger { condition: StopCondition::SimulationTime { seconds } }),
            old(self).wf() ==> final(self).wf(),
    {
        self.storyboard.set_stop_trigger(StopTrigger::simulation_time(seconds));
    }

    /// Stops the simulation `delay` seconds after a storyboard element reaches a state.
    pub fn set_stop_on_element_state(&mut self, element_type: &str, element_ref: &str, state: &str, delay: Real)
        ensures
            final(self).same_but_storyboard(old(self)),
            final(self).spec_storyboard().stories == old(self).spec_storyboard().stories,
            final(self).spec_storyboard().stop_trigger matches Some(t) && t.condition matches
                StopCondition::StoryboardElementState { element_type: et, element_ref: er, state: st, delay: d }
                && et@ == element_type@ && er@ == element_ref@ && st@ == state@ && d == delay,
            old(self).wf() ==> final(self).wf(),
    {
        self.storyboard.set_stop_trigger(StopTrigger::storyboard_element_state(element_type, element_ref, state, delay));
    }
}


/// The checks of a speed action.
pub open spec fn speed_check(target_speed: Real, dynamics: TransitionDynamics) -> Option<ScenarioErrorView> {
    if target_speed.spec_lt_zero() {
        Some(invalid_value("target_speed"@, "speed cannot be negative"@))
    } else if dynamics.value.spec_le_zero() {
        Some(invalid_value("dynamics.value"@, "dynamics value must be positive"@))
    } else {
        None
    }
}

/// The check of a duration that must be positive.
pub open spec fn duration_check(duration: Real) -> Option<ScenarioErrorView> {
    if duration.spec_le_zero() {
        Some(invalid_value("duration"@, "duration must be positive"@))
    } else {
        None
    }
}

/// The dynamics of an acceleration: those given, or linear over `duration` seconds.
pub open spec fn acceleration_dynamics(duration: Real, dynamics: Option<TransitionDynamics>) -> TransitionDynamics {
    match dynamics {
        Some(d) => d,
        None => TransitionDynamics { shape: DynamicsShape::Linear, dimension: DynamicsDimension::Time, value: duration },
    }
}

/// The checks of an acceleration action.
pub open spec fn acceleration_check(duration: Real, dynamics: Option<TransitionDynamics>) -> Option<ScenarioErrorView> {
    if duration.spec_le_zero() {
        Some(invalid_value("duration"@, "duration must be positive"@))
    } else if acceleration_dynamics(duration, dynamics).value.spec_le_zero() {
        Some(invalid_value("dynamics.value"@, "dynamics value must be positive"@))
    } else {
        None
    }
}

/// The check of optional dynamics.
pub open spec fn dynamics_check(dynamics: Option<TransitionDynamics>) -> Option<ScenarioErrorView> {
    match dynamics {
        Some(d) => if d.value.spec_le_zero() {
            Some(invalid_value("dynamics.value"@, "dynamics value must be positive"@))
        } else {
            None
        },
        None => None,
    }
}

/// The checks of a trajectory action with `n` vertices.
pub open spec fn trajectory_check(n: nat, offset: Option<Real>) -> Option<ScenarioErrorView> {
    if n < 2 {
        Some(invalid_value("trajectory.vertices"@, "trajectory must have at least 2 vertices (got "@ + decimal(n) + ")"@))
    } else {
        match offset {
            Some(o) => if o.spec_lt_zero() {
                Some(invalid_value("initial_distance_offset"@, "offset must be non-negative"@))
            } else {
                None
            },
            None => None,
        }
    }
}

/// The check of a route with `n` waypoints.
pub open spec fn route_check(n: nat) -> Option<ScenarioErrorView> {
    if n < 2 {
        Some(invalid_value("route.waypoints"@, "route must have at least 2 waypoints (got "@ + decimal(n) + ")"@))
    } else {
        None
    }
}

/// The first bad point of a speed profile from `i` on, in order.
pub open spec fn waypoint_error(w: Seq<(Real, Real)>, i: int) -> Option<ScenarioErrorView>
    decreases w.len() - i,
{
    if i < 0 || i >= w.len() {
        None
    } else if w[i].0.spec_lt_zero() {
        Some(invalid_value("waypoint["@ + decimal(i as nat) + "].position"@, "Position cannot be negative"@))
    } else if w[i].1.spec_lt_zero() {
        Some(invalid_value("waypoint["@ + decimal(i as nat) + "].speed"@, "Speed cannot be negative"@))
    } else {
        waypoint_error(w, i + 1)
    }
}

/// The checks of a speed profile.
pub open spec fn profile_check(w: Seq<(Real, Real)>) -> Option<ScenarioErrorView> {
    if w.len() == 0 {
        Some(invalid_value("waypoints"@, "Speed profile must have at least one waypoint"@))
    } else {
        waypoint_error(w, 0)
    }
}

/// `a` is the speed profile of the points `w`.
pub open spec fn profile_action(a: Action, w: Seq<(Real, Real)>, following_mode: bool) -> bool {
    a matches Action::SpeedProfile(p) && p.following_mode == following_mode && p.entries@.len() == w.len()
        && forall|i: int| 0 <= i < w.len() ==> (#[trigger] p.entries@[i]).position == w[i].0 && p.entries@[i].speed == w[i].1
}

impl Scenario {
    /// The checks of a synchronize action.
    pub open spec fn synchronize_check(&self, entity_ref: Seq<char>, master: Seq<char>, final_speed: Option<Real>) -> Option<ScenarioErrorView> {
        if !self.has_entity(entity_ref) {
            Some(ScenarioErrorView::EntityNotFound { entity: entity_ref, context: "SynchronizeAction entity_ref"@ })
        } else if !self.has_entity(master) {
            Some(ScenarioErrorView::EntityNotFound { entity: master, context: "SynchronizeAction master_entity_ref"@ })
        } else {
            match final_speed {
                Some(v) => if v.spec_lt_zero() {
                    Some(invalid_value("final_speed"@, "final_speed cannot be negative"@))
                } else {
                    None
                },
                None => None,
            }
        }
    }

    /// The check of a longitudinal distance action.
    pub open spec fn longitudinal_check(&self, entity_ref: Seq<char>) -> Option<ScenarioErrorView> {
        if !self.has_entity(entity_ref) {
            Some(ScenarioErrorView::EntityNotFound {
                entity: entity_ref,
                context: "Referenced entity for LongitudinalDistanceAction"@,
            })
        } else {
            None
        }
    }

    /// The checks of a distance action: the distance is not negative, then
    /// the reference entity exists.
    pub open spec fn distance_check(&self, entity_ref: Seq<char>, distance: Real) -> Option<ScenarioErrorView> {
        if distance.spec_lt_zero() {
            Some(invalid_value("distance"@, "distance cannot be negative"@))
        } else if !self.has_entity(entity_ref) {
            Some(ScenarioErrorView::EntityNotFound { entity: entity_ref, context: "Referenced entity for DistanceAction"@ })
        } else {
            None
        }
    }

    /// What adding an action gives once its checks passed.
    pub open spec fn action_step(
        old: &Scenario,
        new: &Scenario,
        r: Result<(), ScenarioError>,
        story: Seq<char>,
        act: Seq<char>,
        mg: Seq<char>,
        maneuver: Seq<char>,
        event: Seq<char>,
        action: Action,
    ) -> bool {
        new.same_but_storyboard(old) && action_added(old.spec_storyboard(), new.spec_storyboard(), r, story, act,
            mg, maneuver, event, action)
    }

    /// What adding an action gives: the first failed check, or the action added.
    pub open spec fn action_outcome(
        old: &Scenario,
        new: &Scenario,
        r: Result<(), ScenarioError>,
        check: Option<ScenarioErrorView>,
        story: Seq<char>,
        act: Seq<char>,
        mg: Seq<char>,
        maneuver: Seq<char>,
        event: Seq<char>,
        action: Action,
    ) -> bool {
        match check {
            Some(e) => rejected(old, new, r, e),
            None => Scenario::action_step(old, new, r, story, act, mg, maneuver, event, action),
        }
    }

    fn push_action(&mut self, story: &str, act: &str, mg: &str, maneuver: &str, event: &str, action: Action) -> (r: Result<(), ScenarioError>)
        ensures
            Scenario::action_step(old(self), final(self), r, story@, act@, mg@, maneuver@, event@, action),
            old(self).wf() ==> final(self).wf(),
    {
        let ghost before = *self;
        let r = self.storyboard.add_action(story, act, mg, maneuver, event, action);
        proof {
            if before.wf() {
                Scenario::lemma_storyboard_change_keeps_wf(&before, self);
            }
        }
        r
    }

    /// Adds a speed change to an event (created when missing).
    pub fn add_speed_action(
        &mut self,
        story: &str,
        act: &str,
        mg: &str,
        maneuver: &str,
        event: &str,
        target_speed: Real,
        dynamics: TransitionDynamics,
    ) -> (r: Result<(), ScenarioError>)
        ensures
            Scenario::action_outcome(old(self), final(self), r, speed_check(target_speed, dynamics), story@, act@,
                mg@, maneuver@, event@, Action::Speed(SpeedAction { target_speed, dynamics })),
            old(self).wf() ==> final(self).wf(),
    {
        if target_speed.lt_zero() {
            return Err(ScenarioError::InvalidValue {
                field: owned("target_speed"),
                reason: owned("speed cannot be negative"),
            });
        }
        if dynamics.value.le_zero() {
            return Err(ScenarioError::InvalidValue {
                field: owned("dynamics.value"),
                reason: owned("dynamics value must be positive"),
            });
        }
        self.push_action(story, act, mg, maneuver, event, Action::Speed(SpeedAction { target_speed, dynamics }))
    }

    /// Adds a lane change to an event (created when missing).
    pub fn add_lane_change_action(
        &mut self,
        story: &str,
        act: &str,
        mg: &str,
        maneuver: &str,
        event: &str,
        target_lane_offset: Real,
        duration: Real,
        shape: TransitionShape,
    ) -> (r: Result<(), ScenarioError>)
        ensures
            Scenario::action_outcome(old(self), final(self), r, duration_check(duration), story@, act@, mg@,
                maneuver@, event@, Action::LaneChange(LaneChangeAction {
                    target_lane_offset, transition_duration: duration, shape })),
            old(self).wf() ==> final(self).wf(),
    {
        if duration.le_zero() {
            return Err(ScenarioError::InvalidValue {
                field: owned("duration"),
                reason: owned("duration must be positive"),
            });
        }
        self.push_action(story, act, mg, maneuver, event, Action::LaneChange(LaneChangeAction {
            target_lane_offset,
            transition_duration: duration,
            shape,
        }))
    }

    /// Adds an acceleration to an event (created when missing); without
    /// dynamics it is linear over `duration` seconds.
    pub fn add_acceleration_action(
        &mut self,
        story: &str,
        act: &str,
        mg: &str,
        maneuver: &str,
        event: &str,
        acceleration: Real,
        duration: Real,
        dynamics: Option<TransitionDynamics>,
    ) -> (r: Result<(), ScenarioError>)
        ensures
            Scenario::action_outcome(old(self), final(self), r, acceleration_check(duration, dynamics), story@,
                act@, mg@, maneuver@, event@, Action::Acceleration(AccelerationAction {
                    value: acceleration, dynamics: acceleration_dynamics(duration, dynamics) })),
            old(self).wf() ==> final(self).wf(),
    {
        if duration.le_zero() {
            return Err(ScenarioError::InvalidValue {
                field: owned("duration"),
                reason: owned("duration must be positive"),
            });
        }
        let final_dynamics = match dynamics {
            Some(d) => d,
            None => TransitionDynamics { shape: DynamicsShape::Linear, dimension: DynamicsDimension::Time, value: duration },
        };
        if final_dynamics.value.le_zero() {
            return Err(ScenarioError::InvalidValue {
                field: owned("dynamics.value"),
                reason: owned("dynamics value must be positive"),
            });
        }
        self.push_action(story, act, mg, maneuver, event, Action::Acceleration(AccelerationAction {
            value: acceleration,
            dynamics: final_dynamics,
        }))
    }

    /// Adds a lane offset to an event (created when missing).
    pub fn add_lane_offset_action(
        &mut self,
        story: &str,
        act: &str,
        mg: &str,
        maneuver: &str,
        event: &str,
        target_offset: Real,
        continuous: bool,
        dynamics: Option<TransitionDynamics>,
    ) -> (r: Result<(), ScenarioError>)
        ensures
            Scenario::action_outcome(old(self), final(self), r, dynamics_check(dynamics), story@, act@, mg@,
                maneuver@, event@, Action::LaneOffset(LaneOffsetAction { target_offset, continuous, dynamics })),
            old(self).wf() ==> final(self).wf(),
    {
        match dynamics {
            Some(d) => {
                if d.value.le_zero() {
                    return Err(ScenarioError::InvalidValue {
                        field: owned("dynamics.value"),
                        reason: owned("dynamics value must be positive"),
                    });
                }
            },
            None => {},
        }
        self.push_action(story, act, mg, maneuver, event, Action::LaneOffset(LaneOffsetAction {
            target_offset,
            continuous,
            dynamics,
        }))
    }

    /// Adds a trajectory to follow to an event (created when missing).
    pub fn add_follow_trajectory_action(
        &mut self,
        story: &str,
        act: &str,
        mg: &str,
        maneuver: &str,
        event: &str,
        trajectory: Trajectory,
        timing_mode: TimingMode,
        initial_distance_offset: Option<Real>,
    ) -> (r: Result<(), ScenarioError>)
        ensures
            Scenario::action_outcome(old(self), final(self), r, trajectory_check(trajectory.vertices@.len(),
                initial_distance_offset), story@, act@, mg@, maneuver@, event@, Action::FollowTrajectory(
                FollowTrajectoryAction { trajectory, timing_mode, initial_distance_offset })),
            old(self).wf() ==> final(self).wf(),
    {
        let n = trajectory.vertices.len();
        if n < 2 {
            let count = decimal_string(n as u64);
            return Err(ScenarioError::InvalidValue {
                field: owned("trajectory.vertices"),
                reason: concat3("trajectory must have at least 2 vertices (got ", count.as_str(), ")"),
            });
        }
        match initial_distance_offset {
            Some(o) => {
                if o.lt_zero() {
                    return Err(ScenarioError::InvalidValue {
                        field: owned("initial_distance_offset"),
                        reason: owned("offset must be non-negative"),
                    });
                }
            },
            None => {},
        }
        self.push_action(story, act, mg, maneuver, event, Action::FollowTrajectory(FollowTrajectoryAction {
            trajectory,
            timing_mode,
            initial_distance_offset,
        }))
    }

    /// Assigns a route in an event (created when missing).
    pub fn add_assign_route_action(
        &mut self,
        story: &str,
        act: &str,
        mg: &str,
        maneuver: &str,
        event: &str,
        route: Route,
    ) -> (r: Result<(), ScenarioError>)
        ensures
            Scenario::action_outcome(old(self), final(self), r, route_check(route.waypoints@.len()), story@, act@,
                mg@, maneuver@, event@, Action::AssignRoute(AssignRouteAction { route })),
            old(self).wf() ==> final(self).wf(),
    {
        let n = route.waypoints.len();
        if n < 2 {
            let count = decimal_string(n as u64);
            return Err(ScenarioError::InvalidValue {
                field: owned("route.waypoints"),
                reason: concat3("route must have at least 2 waypoints (got ", count.as_str(), ")"),
            });
        }
        self.push_action(story, act, mg, maneuver, event, Action::AssignRoute(AssignRouteAction { route }))
    }

    /// Adds a synchronization with a master entity to an event (created when missing).
    pub fn add_synchronize_action(
        &mut self,
        story: &str,
        act: &str,
        mg: &str,
        maneuver: &str,
        event: &str,
        entity_ref: String,
        master_entity_ref: String,
        target_position_master: TargetPositionMaster,
        target_position: TargetPosition,
        final_speed: Option<Real>,
    ) -> (r: Result<(), ScenarioError>)
        ensures
            Scenario::action_outcome(old(self), final(self), r, old(self).synchronize_check(entity_ref@,
                master_entity_ref@, final_speed), story@, act@, mg@, maneuver@, event@, Action::Synchronize(
                SynchronizeAction { entity_ref, master_entity_ref, target_position_master, target_position, final_speed })),
            old(self).wf() ==> final(self).wf(),
    {
        if !self.contains_entity(entity_ref.as_str()) {
            return Err(ScenarioError::EntityNotFound { entity: entity_ref, context: owned("SynchronizeAction entity_ref") });
        }
        if !self.contains_entity(master_entity_ref.as_str()) {
            return Err(ScenarioError::EntityNotFound {
                entity: master_entity_ref,
                context: owned("SynchronizeAction master_entity_ref"),
            });
        }
        match final_speed {
            Some(v) => {
                if v.lt_zero() {
                    return Err(ScenarioError::InvalidValue {
                        field: owned("final_speed"),
                        reason: owned("final_speed cannot be negative"),
                    });
                }
            },
            None => {},
        }
        self.push_action(story, act, mg, maneuver, event, Action::Synchronize(SynchronizeAction {
            entity_ref,
            master_entity_ref,
            target_position_master,
            target_position,
            final_speed,
        }))
    }

    /// Adds a teleport to a position to an event (created when missing).
    pub fn add_position_action(&mut self, story: &str, act: &str, mg: &str, maneuver: &str, event: &str, position: Position) -> (r: Result<(), ScenarioError>)
        ensures
            Scenario::action_step(old(self), final(self), r, story@, act@, mg@, maneuver@, event@,
                Action::Position(PositionAction { position })),
            old(self).wf() ==> final(self).wf(),
    {
        self.push_action(story, act, mg, maneuver, event, Action::Position(PositionAction { position }))
    }

    /// Adds keeping a distance to another entity to an event (created when missing).
    pub fn add_distance_action(
        &mut self,
        story: &str,
        act: &str,
        mg: &str,
        maneuver: &str,
        event: &str,
        entity_ref: String,
        distance: Real,
        freespace: bool,
    ) -> (r: Result<(), ScenarioError>)
        ensures
            Scenario::action_outcome(old(self), final(self), r, old(self).distance_check(entity_ref@, distance), story@,
                act@, mg@, maneuver@, event@, Action::Distance(DistanceAction { entity_ref, distance, freespace })),
            old(self).wf() ==> final(self).wf(),
    {
        if distance.lt_zero() {
            return Err(ScenarioError::InvalidValue {
                field: owned("distance"),
                reason: owned("distance cannot be negative"),
            });
        }
        if !self.contains_entity(entity_ref.as_str()) {
            return Err(ScenarioError::EntityNotFound {
                entity: entity_ref,
                context: owned("Referenced entity for DistanceAction"),
            });
        }
        self.push_action(story, act, mg, maneuver, event, Action::Distance(DistanceAction { entity_ref, distance, freespace }))
    }

    /// Adds keeping a longitudinal distance to an existing entity to an event (created when missing).
    pub fn add_longitudinal_distance_action(
        &mut self,
        story: &str,
        act: &str,
        mg: &str,
        maneuver: &str,
        event: &str,
        entity_ref: String,
        distance: Real,
        freespace: bool,
        continuous: bool,
        dynamics: Option<TransitionDynamics>,
    ) -> (r: Result<(), ScenarioError>)
        ensures
            Scenario::action_outcome(old(self), final(self), r, old(self).longitudinal_check(entity_ref@), story@,
                act@, mg@, maneuver@, event@, Action::LongitudinalDistance(LongitudinalDistanceAction {
                    entity_ref, distance, freespace, continuous, dynamics })),
            old(self).wf() ==> final(self).wf(),
    {
        if !self.contains_entity(entity_ref.as_str()) {
            return Err(ScenarioError::EntityNotFound {
                entity: entity_ref,
                context: owned("Referenced entity for LongitudinalDistanceAction"),
            });
        }
        self.push_action(story, act, mg, maneuver, event, Action::LongitudinalDistance(LongitudinalDistanceAction {
            entity_ref,
            distance,
            freespace,
            continuous,
            dynamics,
        }))
    }

    /// Adds a speed profile, points of (time or distance, speed), to an event (created when missing).
    pub fn add_speed_profile_action(
        &mut self,
        story: &str,
        act: &str,
        mg: &str,
        maneuver: &str,
        event: &str,
        waypoints: Vec<(Real, Real)>,
        following_mode: bool,
    ) -> (r: Result<(), ScenarioError>)
        ensures
            match profile_check(waypoints@) {
                Some(e) => rejected(old(self), final(self), r, e),
                None => exists|a: Action| #[trigger] profile_action(a, waypoints@, following_mode)
                    && Scenario::action_step(old(self), final(self), r, story@, act@, mg@, maneuver@, event@, a),
            },
            old(self).wf() ==> final(self).wf(),
    {
        if waypoints.len() == 0 {
            return Err(ScenarioError::InvalidValue {
                field: owned("waypoints"),
                reason: owned("Speed profile must have at least one waypoint"),
            });
        }
        let mut i: usize = 0;
        while i < waypoints.len()
            invariant
                i <= waypoints@.len(),
                waypoint_error(waypoints@, 0) == waypoint_error(waypoints@, i as int),
            decreases waypoints@.len() - i,
        {
            let (position, speed) = waypoints[i];
            if position.lt_zero() {
                let index = decimal_string(i as u64);
                return Err(ScenarioError::InvalidValue {
                    field: concat3("waypoint[", index.as_str(), "].position"),
                    reason: owned("Position cannot be negative"),
                });
            }
            if speed.lt_zero() {
                let index = decimal_string(i as u64);
                return Err(ScenarioError::InvalidValue {
                    field: concat3("waypoint[", index.as_str(), "].speed"),
                    reason: owned("Speed cannot be negative"),
                });
            }
            i = i + 1;
        }
        let mut entries: Vec<SpeedProfileEntry> = Vec::new();
        let mut j: usize = 0;
        while j < waypoints.len()
            invariant
                j <= waypoints@.len(),
                entries@.len() == j,
                forall|k: int| 0 <= k < j ==> (#[trigger] entries@[k]).position == waypoints@[k].0
                    && entries@[k].speed == waypoints@[k].1,
            decreases waypoints@.len() - j,
        {
            let (position, speed) = waypoints[j];
            entries.push(SpeedProfileEntry { position, speed });
            j = j + 1;
        }
        let action = Action::SpeedProfile(SpeedProfileAction { entries, following_mode });
        assert(profile_action(action, waypoints@, following_mode));
        self.push_action(story, act, mg, maneuver, event, action)
    }
}


/// `t` has one group of one condition: named after the event, with the given
/// delay and edge, firing when `watched` (the one triggering entity) meets `cond`.
pub open spec fn entity_trigger(
    t: Trigger,
    event: Seq<char>,
    watched: Seq<char>,
    cond: EntityCondition,
    edge: ConditionEdge,
    delay: Real,
) -> bool {
    &&& t.condition_groups@.len() == 1
    &&& t.condition_groups@[0].conditions@.len() == 1
    &&& t.condition_groups@[0].conditions@[0].name@ == event + "Condition"@
    &&& t.condition_groups@[0].conditions@[0].delay == delay
    &&& t.condition_groups@[0].conditions@[0].condition_edge == edge
    &&& t.condition_groups@[0].conditions@[0].kind matches ConditionKind::ByEntity(b)
        && b.entity_condition == cond
        && b.triggering_entities.rule == TriggeringEntitiesRule::Any
        && views(b.triggering_entities.entity_refs@) == seq![watched]
}

/// The error when `v` is negative.
pub open spec fn negative_error(v: Real, field: Seq<char>, reason: Seq<char>) -> Option<ScenarioErrorView> {
    if v.spec_lt_zero() {
        Some(invalid_value(field, reason))
    } else {
        None
    }
}

/// The error when `v` is not positive.
pub open spec fn nonpositive_error(v: Real, field: Seq<char>, reason: Seq<char>) -> Option<ScenarioErrorView> {
    if v.spec_le_zero() {
        Some(invalid_value(field, reason))
    } else {
        None
    }
}

impl Scenario {
    /// The checks of an event condition: the value first, then the watched
    /// entity, then the other entity, if any.
    pub open spec fn watch_check(&self, value_error: Option<ScenarioErrorView>, watched: Seq<char>, other: Option<Seq<char>>) -> Option<ScenarioErrorView> {
        match value_error {
            Some(e) => Some(e),
            None => if !self.has_entity(watched) {
                Some(ScenarioErrorView::InvalidEntityRef { entity: watched, available: self.names() })
            } else {
                match other {
                    Some(o) => if !self.has_entity(o) {
                        Some(ScenarioErrorView::InvalidEntityRef { entity: o, available: self.names() })
                    } else {
                        None
                    },
                    None => None,
                }
            },
        }
    }

    /// What adding an event with a condition gives: the first failed check,
    /// or the event's start trigger set (the event created when missing).
    pub open spec fn condition_outcome(
        old: &Scenario,
        new: &Scenario,
        r: Result<(), ScenarioError>,
        check: Option<ScenarioErrorView>,
        story: Seq<char>,
        act: Seq<char>,
        mg: Seq<char>,
        maneuver: Seq<char>,
        event: Seq<char>,
        watched: Seq<char>,
        cond: EntityCondition,
        edge: ConditionEdge,
        delay: Real,
    ) -> bool {
        match check {
            Some(e) => rejected(old, new, r, e),
            None => new.same_but_storyboard(old) && exists|t: Trigger| #[trigger] entity_trigger(t, event, watched, cond, edge, delay)
                && trigger_put(old.spec_storyboard(), new.spec_storyboard(), r, story, act, mg, maneuver, event, t),
        }
    }

    /// A missing entity reported as `EntityNotFound`, as the short forms of the
    /// condition adders report it; other checks as they are.
    pub open spec fn as_not_found(check: Option<ScenarioErrorView>) -> Option<ScenarioErrorView> {
        match check {
            Some(ScenarioErrorView::InvalidEntityRef { entity, available }) => Some(ScenarioErrorView::EntityNotFound {
                entity,
                context: "entity condition"@,
            }),
            other => other,
        }
    }

    fn not_found(r: Result<(), ScenarioError>) -> (out: Result<(), ScenarioError>)
        ensures
            match r {
                Err(ScenarioError::InvalidEntityRef { entity, available }) => out matches Err(x) && x@ == (
                    ScenarioErrorView::EntityNotFound { entity: entity@, context: "entity condition"@ }),
                _ => out == r,
            },
    {
        match r {
            Err(ScenarioError::InvalidEntityRef { entity, available }) => Err(ScenarioError::EntityNotFound {
                entity,
                context: owned("entity condition"),
            }),
            other => other,
        }
    }

    fn check_watched(&self, watched: &str) -> (r: Result<(), ScenarioError>)
        ensures
            if self.has_entity(watched@) {
                r is Ok
            } else {
                r matches Err(x) && x@ == (ScenarioErrorView::InvalidEntityRef { entity: watched@, available: self.names() })
            },
    {
        if self.contains_entity(watched) {
            Ok(())
        } else {
            Err(ScenarioError::InvalidEntityRef { entity: owned(watched), available: self.entity_names() })
        }
    }

    fn put_condition_event(
        &mut self,
        story: &str,
        act: &str,
        mg: &str,
        maneuver: &str,
        event: &str,
        watched: String,
        cond: EntityCondition,
        edge: ConditionEdge,
        delay: Real,
    ) -> (r: Result<(), ScenarioError>)
        ensures
            final(self).same_but_storyboard(old(self)),
            exists|t: Trigger| #[trigger] entity_trigger(t, event@, watched@, cond, edge, delay)
                && trigger_put(old(self).spec_storyboard(), final(self).spec_storyboard(), r, story@, act@, mg@,
                    maneuver@, event@, t),
            old(self).wf() ==> final(self).wf(),
    {
        let ghost w = watched@;
        let mut refs: Vec<String> = Vec::new();
        refs.push(watched);
        proof { assert(views(refs@) =~= seq![w]); }
        let condition = Condition {
            name: concat2(event, "Condition"),
            delay,
            condition_edge: edge,
            kind: ConditionKind::ByEntity(ByEntityCondition {
                triggering_entities: TriggeringEntities { rule: TriggeringEntitiesRule::Any, entity_refs: refs },
                entity_condition: cond,
            }),
        };
        let mut conditions: Vec<Condition> = Vec::new();
        conditions.push(condition);
        let trigger = Trigger::new(ConditionGroup::new(conditions));
        let ghost t = trigger;
        assert(entity_trigger(t, event@, w, cond, edge, delay));
        let ghost before = *self;
        let r = self.storyboard.put_trigger(story, act, mg, maneuver, event, trigger);
        proof {
            if before.wf() {
                Scenario::lemma_storyboard_change_keeps_wf(&before, self);
            }
        }
        r
    }

    /// Adds an event that starts when `entity_ref` comes within `tolerance` metres of `position`.
    pub fn add_event_with_reach_position_condition(
        &mut self,
        story: &str,
        act: &str,
        mg: &str,
        maneuver: &str,
        event: &str,
        entity_ref: String,
        position: Position,
        tolerance: Real,
    ) -> (r: Result<(), ScenarioError>)
        ensures
            Scenario::condition_outcome(old(self), final(self), r, Scenario::as_not_found(old(self).watch_check(
                negative_error(tolerance, "tolerance"@, "tolerance cannot be negative"@), entity_ref@, None)), story@,
                act@, mg@, maneuver@, event@, entity_ref@, EntityCondition::ReachPosition(ReachPositionCondition {
                    position, tolerance }), ConditionEdge::NoEdge, Real { bits: 0 }),
            old(self).wf() ==> final(self).wf(),
    {
        Scenario::not_found(self.add_event_with_reach_position_condition_advanced(story, act, mg, maneuver, event, entity_ref, position,
            tolerance, ConditionEdge::NoEdge, Real::zero()))
    }

    /// Like [`Scenario::add_event_with_reach_position_condition`], with the edge and delay given.
    pub fn add_event_with_reach_position_condition_advanced(
        &mut self,
        story: &str,
        act: &str,
        mg: &str,
        maneuver: &str,
        event: &str,
        entity_ref: String,
        position: Position,
        tolerance: Real,
        edge: ConditionEdge,
        delay: Real,
    ) -> (r: Result<(), ScenarioError>)
        ensures
            Scenario::condition_outcome(old(self), final(self), r, old(self).watch_check(
                negative_error(tolerance, "tolerance"@, "tolerance cannot be negative"@), entity_ref@, None), story@,
                act@, mg@, maneuver@, event@, entity_ref@, EntityCondition::ReachPosition(ReachPositionCondition {
                    position, tolerance }), edge, delay),
            old(self).wf() ==> final(self).wf(),
    {
        if tolerance.lt_zero() {
            return Err(ScenarioError::InvalidValue {
                field: owned("tolerance"),
                reason: owned("tolerance cannot be negative"),
            });
        }
        self.check_watched(entity_ref.as_str())?;
        let cond = EntityCondition::ReachPosition(ReachPositionCondition { position, tolerance });
        self.put_condition_event(story, act, mg, maneuver, event, entity_ref, cond, edge, delay)
    }

    /// Adds an event that starts when the time to collision of `entity_ref`
    /// with `target_entity_ref` compares to `ttc_value` by `rule`.
    pub fn add_event_with_ttc_condition(
        &mut self,
        story: &str,
        act: &str,
        mg: &str,
        maneuver: &str,
        event: &str,
        entity_ref: String,
        target_entity_ref: String,
        ttc_value: Real,
        rule: Rule,
    ) -> (r: Result<(), ScenarioError>)
        ensures
            Scenario::condition_outcome(old(self), final(self), r, Scenario::as_not_found(old(self).watch_check(
                negative_error(ttc_value, "ttc_value"@, "TTC value cannot be negative"@), entity_ref@,
                Some(target_entity_ref@))), story@, act@, mg@, maneuver@, event@, entity_ref@,
                EntityCondition::TimeToCollision(TimeToCollisionCondition { target_entity_ref, value: ttc_value, rule }),
                ConditionEdge::NoEdge, Real { bits: 0 }),
            old(self).wf() ==> final(self).wf(),
    {
        Scenario::not_found(self.add_event_with_ttc_condition_advanced(story, act, mg, maneuver, event, entity_ref, target_entity_ref,
            ttc_value, rule, ConditionEdge::NoEdge, Real::zero()))
    }

    /// Like [`Scenario::add_event_with_ttc_condition`], with the edge and delay given.
    pub fn add_event_with_ttc_condition_advanced(
        &mut self,
        story: &str,
        act: &str,
        mg: &str,
        maneuver: &str,
        event: &str,
        entity_ref: String,
        target_entity_ref: String,
        ttc_value: Real,
        rule: Rule,
        edge: ConditionEdge,
        delay: Real,
    ) -> (r: Result<(), ScenarioError>)
        ensures
            Scenario::condition_outcome(old(self), final(self), r, old(self).watch_check(
                negative_error(ttc_value, "ttc_value"@, "TTC value cannot be negative"@), entity_ref@,
                Some(target_entity_ref@)), story@, act@, mg@, maneuver@, event@, entity_ref@,
                EntityCondition::TimeToCollision(TimeToCollisionCondition { target_entity_ref, value: ttc_value, rule }),
                edge, delay),
            old(self).wf() ==> final(self).wf(),
    {
        if ttc_value.lt_zero() {
            return Err(ScenarioError::InvalidValue {
                field: owned("ttc_value"),
                reason: owned("TTC value cannot be negative"),
            });
        }
        self.check_watched(entity_ref.as_str())?;
        self.check_watched(target_entity_ref.as_str())?;
        let cond = EntityCondition::TimeToCollision(TimeToCollisionCondition { target_entity_ref, value: ttc_value, rule });
        self.put_condition_event(story, act, mg, maneuver, event, entity_ref, cond, edge, delay)
    }

    /// Adds an event that starts when `entity_ref` collides with `target_entity_ref`.
    pub fn add_event_with_collision_condition(
        &mut self,
        story: &str,
        act: &str,
        mg: &str,
        maneuver: &str,
        event: &str,
        entity_ref: String,
        target_entity_ref: String,
    ) -> (r: Result<(), ScenarioError>)
        ensures
            Scenario::condition_outcome(old(self), final(self), r, Scenario::as_not_found(old(self).watch_check(None, entity_ref@,
                Some(target_entity_ref@))), story@, act@, mg@, maneuver@, event@, entity_ref@,
                EntityCondition::Collision(CollisionCondition { target_entity_ref }), ConditionEdge::NoEdge,
                Real { bits: 0 }),
            old(self).wf() ==> final(self).wf(),
    {
        Scenario::not_found(self.add_event_with_collision_condition_advanced(story, act, mg, maneuver, event, entity_ref, target_entity_ref,
            ConditionEdge::NoEdge, Real::zero()))
    }

    /// Like [`Scenario::add_event_with_collision_condition`], with the edge and delay given.
    pub fn add_event_with_collision_condition_advanced(
        &mut self,
        story: &str,
        act: &str,
        mg: &str,
        maneuver: &str,
        event: &str,
        entity_ref: String,
        target_entity_ref: String,
        edge: ConditionEdge,
        delay: Real,
    ) -> (r: Result<(), ScenarioError>)
        ensures
            Scenario::condition_outcome(old(self), final(self), r, old(self).watch_check(None, entity_ref@,
                Some(target_entity_ref@)), story@, act@, mg@, maneuver@, event@, entity_ref@,
                EntityCondition::Collision(CollisionCondition { target_entity_ref }), edge, delay),
            old(self).wf() ==> final(self).wf(),
    {
        self.check_watched(entity_ref.as_str())?;
        self.check_watched(target_entity_ref.as_str())?;
        let cond = EntityCondition::Collision(CollisionCondition { target_entity_ref });
        self.put_condition_event(story, act, mg, maneuver, event, entity_ref, cond, edge, delay)
    }

    /// Adds an event that starts when the distance from `entity_ref` to
    /// `reference_entity_ref` (in entity coordinates) compares to `distance_value` by `rule`.
    pub fn add_event_with_relative_distance_condition(
        &mut self,
        story: &str,
        act: &str,
        mg: &str,
        maneuver: &str,
        event: &str,
        entity_ref: String,
        reference_entity_ref: String,
        distance_value: Real,
        rule: Rule,
        distance_type: RelativeDistanceType,
        freespace: bool,
    ) -> (r: Result<(), ScenarioError>)
        ensures
            Scenario::condition_outcome(old(self), final(self), r, Scenario::as_not_found(old(self).watch_check(
                negative_error(distance_value, "distance_value"@, "Distance value cannot be negative"@), entity_ref@,
                Some(reference_entity_ref@))), story@, act@, mg@, maneuver@, event@, entity_ref@,
                EntityCondition::RelativeDistance(RelativeDistanceCondition {
                    entity_ref: reference_entity_ref, value: distance_value, rule, distance_type, freespace,
                    coordinate_system: Some(CoordinateSystem::Entity) }), ConditionEdge::NoEdge, Real { bits: 0 }),
            old(self).wf() ==> final(self).wf(),
    {
        Scenario::not_found(self.add_event_with_relative_distance_condition_advanced(story, act, mg, maneuver, event, entity_ref,
            reference_entity_ref, distance_value, rule, distance_type, freespace, ConditionEdge::NoEdge, Real::zero(),
            CoordinateSystem::Entity))
    }

    /// Like [`Scenario::add_event_with_relative_distance_condition`], with the
    /// edge, delay and coordinate system given.
    pub fn add_event_with_relative_distance_condition_advanced(
        &mut self,
        story: &str,
        act: &str,
        mg: &str,
        maneuver: &str,
        event: &str,
        entity_ref: String,
        reference_entity_ref: String,
        distance_value: Real,
        rule: Rule,
        distance_type: RelativeDistanceType,
        freespace: bool,
        edge: ConditionEdge,
        delay: Real,
        coordinate_system: CoordinateSystem,
    ) -> (r: Result<(), ScenarioError>)
        ensures
            Scenario::condition_outcome(old(self), final(self), r, old(self).watch_check(
                negative_error(distance_value, "distance_value"@, "Distance value cannot be negative"@), entity_ref@,
                Some(reference_entity_ref@)), story@, act@, mg@, maneuver@, event@, entity_ref@,
                EntityCondition::RelativeDistance(RelativeDistanceCondition {
                    entity_ref: reference_entity_ref, value: distance_value, rule, distance_type, freespace,
                    coordinate_system: Some(coordinate_system) }), edge, delay),
            old(self).wf() ==> final(self).wf(),
    {
        if distance_value.lt_zero() {
            return Err(ScenarioError::InvalidValue {
                field: owned("distance_value"),
                reason: owned("Distance value cannot be negative"),
            });
        }
        self.check_watched(entity_ref.as_str())?;
        self.check_watched(reference_entity_ref.as_str())?;
        let cond = EntityCondition::RelativeDistance(RelativeDistanceCondition {
            entity_ref: reference_entity_ref,
            value: distance_value,
            rule,
            distance_type,
            freespace,
            coordinate_system: Some(coordinate_system),
        });
        self.put_condition_event(story, act, mg, maneuver, event, entity_ref, cond, edge, delay)
    }

    /// Adds an event that starts when the time headway of `entity_ref` to
    /// `lead_entity_ref` compares to `time_headway_value` by `rule`.
    pub fn add_event_with_time_headway_condition(
        &mut self,
        story: &str,
        act: &str,
        mg: &str,
        maneuver: &str,
        event: &str,
        entity_ref: String,
        lead_entity_ref: String,
        time_headway_value: Real,
        rule: Rule,
        freespace: bool,
    ) -> (r: Result<(), ScenarioError>)
        ensures
            Scenario::condition_outcome(old(self), final(self), r, old(self).watch_check(
                nonpositive_error(time_headway_value, "time_headway_value"@, "Time headway value must be positive"@),
                entity_ref@, Some(lead_entity_ref@)), story@, act@, mg@, maneuver@, event@, entity_ref@,
                EntityCondition::TimeHeadway(TimeHeadwayCondition {
                    entity_ref: lead_entity_ref, value: time_headway_value, rule, freespace }), ConditionEdge::NoEdge,
                Real { bits: 0 }),
            old(self).wf() ==> final(self).wf(),
    {
        if time_headway_value.le_zero() {
            return Err(ScenarioError::InvalidValue {
                field: owned("time_headway_value"),
                reason: owned("Time headway value must be positive"),
            });
        }
        self.add_event_with_time_headway_condition_advanced(story, act, mg, maneuver, event, entity_ref, lead_entity_ref,
            time_headway_value, rule, freespace, ConditionEdge::NoEdge, Real::zero())
    }

    /// Like [`Scenario::add_event_with_time_headway_condition`], with the edge and delay given.
    pub fn add_event_with_time_headway_condition_advanced(
        &mut self,
        story: &str,
        act: &str,
        mg: &str,
        maneuver: &str,
        event: &str,
        entity_ref: String,
        lead_entity_ref: String,
        time_headway_value: Real,
        rule: Rule,
        freespace: bool,
        edge: ConditionEdge,
        delay: Real,
    ) -> (r: Result<(), ScenarioError>)
        ensures
            Scenario::condition_outcome(old(self), final(self), r, old(self).watch_check(
                negative_error(time_headway_value, "time_headway_value"@, "Time headway value must be non-negative"@),
                entity_ref@, Some(lead_entity_ref@)), story@, act@, mg@, maneuver@, event@, entity_ref@,
                EntityCondition::TimeHeadway(TimeHeadwayCondition {
                    entity_ref: lead_entity_ref, value: time_headway_value, rule, freespace }), edge, delay),
            old(self).wf() ==> final(self).wf(),
    {
        if time_headway_value.lt_zero() {
            return Err(ScenarioError::InvalidValue {
                field: owned("time_headway_value"),
                reason: owned("Time headway value must be non-negative"),
            });
        }
        self.check_watched(entity_ref.as_str())?;
        self.check_watched(lead_entity_ref.as_str())?;
        let cond = EntityCondition::TimeHeadway(TimeHeadwayCondition {
            entity_ref: lead_entity_ref,
            value: time_headway_value,
            rule,
            freespace,
        });
        self.put_condition_event(story, act, mg, maneuver, event, entity_ref, cond, edge, delay)
    }

    /// Adds an event that starts when `entity_ref` has stood still for `duration` seconds.
    pub fn add_event_with_standstill_condition(
        &mut self,
        story: &str,
        act: &str,
        mg: &str,
        maneuver: &str,
        event: &str,
        entity_ref: String,
        duration: Real,
    ) -> (r: Result<(), ScenarioError>)
        ensures
            Scenario::condition_outcome(old(self), final(self), r, Scenario::as_not_found(old(self).watch_check(
                negative_error(duration, "duration"@, "Duration must be non-negative"@), entity_ref@, None)), story@,
                act@, mg@, maneuver@, event@, entity_ref@, EntityCondition::StandStill(StandStillCondition { duration }),
                ConditionEdge::NoEdge, Real { bits: 0 }),
            old(self).wf() ==> final(self).wf(),
    {
        Scenario::not_found(self.add_event_with_standstill_condition_advanced(story, act, mg, maneuver, event, entity_ref, duration,
            ConditionEdge::NoEdge, Real::zero()))
    }

    /// Like [`Scenario::add_event_with_standstill_condition`], with the edge and delay given.
    pub fn add_event_with_standstill_condition_advanced(
        &mut self,
        story: &str,
        act: &str,
        mg: &str,
        maneuver: &str,
        event: &str,
        entity_ref: String,
        duration: Real,
        edge: ConditionEdge,
        delay: Real,
    ) -> (r: Result<(), ScenarioError>)
        ensures
            Scenario::condition_outcome(old(self), final(self), r, old(self).watch_check(
                negative_error(duration, "duration"@, "Duration must be non-negative"@), entity_ref@, None), story@,
                act@, mg@, maneuver@, event@, entity_ref@, EntityCondition::StandStill(StandStillCondition { duration }),
                edge, delay),
            old(self).wf() ==> final(self).wf(),
    {
        if duration.lt_zero() {
            return Err(ScenarioError::InvalidValue {
                field: owned("duration"),
                reason: owned("Duration must be non-negative"),
            });
        }
        self.check_watched(entity_ref.as_str())?;
        let cond = EntityCondition::StandStill(StandStillCondition { duration });
        self.put_condition_event(story, act, mg, maneuver, event, entity_ref, cond, edge, delay)
    }
}

} // verus!

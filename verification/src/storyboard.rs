//! The storyboard: stories, acts, maneuver groups, maneuvers, events,
//! actions, triggers and conditions.
use vstd::prelude::*;
use crate::quantity::Real;
use crate::position::Position;
use crate::text::{first_index, lemma_first_index, str_eq, owned};

verus! {

/// A story: a named collection of acts (act names are keys; adding an act
/// under an existing name replaces it).
#[derive(Clone, Debug)]
pub struct Story {
    pub name: String,
    pub acts: Vec<Act>,
}

/// An act: maneuver groups (keyed by name) and an optional start trigger.
#[derive(Clone, Debug)]
pub struct Act {
    pub name: String,
    pub maneuver_groups: Vec<ManeuverGroup>,
    pub start_trigger: Option<Trigger>,
}

/// A maneuver group: the actors it moves and its maneuvers.
#[derive(Clone, Debug)]
pub struct ManeuverGroup {
    pub name: String,
    pub actors: Vec<String>,
    pub maneuvers: Vec<Maneuver>,
}

/// A maneuver: a sequence of events.
#[derive(Clone, Debug)]
pub struct Maneuver {
    pub name: String,
    pub events: Vec<Event>,
}

/// An event: actions run when its start trigger fires.
#[derive(Clone, Debug)]
pub struct Event {
    pub name: String,
    pub actions: Vec<Action>,
    pub start_trigger: Option<Trigger>,
}

/// Any private action of the storyboard.
#[derive(Clone, Debug)]
pub enum Action {
    Speed(SpeedAction),
    LaneChange(LaneChangeAction),
    LaneOffset(LaneOffsetAction),
    Position(PositionAction),
    Distance(DistanceAction),
    Acceleration(AccelerationAction),
    SpeedProfile(SpeedProfileAction),
    LongitudinalDistance(LongitudinalDistanceAction),
    FollowTrajectory(FollowTrajectoryAction),
    AssignRoute(AssignRouteAction),
    Synchronize(SynchronizeAction),
}

/// Change speed to `target_speed` (m/s) with the given dynamics.
#[derive(Clone, Debug)]
pub struct SpeedAction {
    pub target_speed: Real,
    pub dynamics: TransitionDynamics,
}

/// Change lane by `target_lane_offset` over `transition_duration` seconds.
#[derive(Clone, Debug)]
pub struct LaneChangeAction {
    pub target_lane_offset: Real,
    pub transition_duration: Real,
    pub shape: TransitionShape,
}

/// Move laterally within the lane to `target_offset` metres.
#[derive(Clone, Debug)]
pub struct LaneOffsetAction {
    pub target_offset: Real,
    pub continuous: bool,
    pub dynamics: Option<TransitionDynamics>,
}

/// Teleport to a position.
#[derive(Clone, Debug)]
pub struct PositionAction {
    pub position: Position,
}

/// Keep a distance to another entity.
#[derive(Clone, Debug)]
pub struct DistanceAction {
    pub entity_ref: String,
    pub distance: Real,
    pub freespace: bool,
}

/// Accelerate at `value` m/s² (negative to decelerate).
#[derive(Clone, Debug)]
pub struct AccelerationAction {
    pub value: Real,
    pub dynamics: TransitionDynamics,
}

/// One point of a speed profile.
#[derive(Clone, Debug)]
pub struct SpeedProfileEntry {
    /// Time (s) or distance (m) of the point.
    pub position: Real,
    /// Speed (m/s) at the point.
    pub speed: Real,
}

/// Follow a sequence of speeds.
#[derive(Clone, Debug)]
pub struct SpeedProfileAction {
    pub entries: Vec<SpeedProfileEntry>,
    /// True when the points are time-based, false when distance-based.
    pub following_mode: bool,
}

/// Shape of a lane-change transition.
#[derive(Clone, Copy, Debug, PartialEq, Eq, Structural)]
pub enum TransitionShape {
    Linear,
    Cubic,
    Sinusoidal,
    Step,
}

/// Shape of a dynamics transition.
#[derive(Clone, Copy, Debug, PartialEq, Eq, Structural)]
pub enum DynamicsShape {
    Linear,
    Cubic,
    Sinusoidal,
    Step,
}

/// What the `value` of dynamics measures.
#[derive(Clone, Copy, Debug, PartialEq, Eq, Structural)]
pub enum DynamicsDimension {
    Time,
    Distance,
    Rate,
}

/// How a transition proceeds.
#[derive(Clone, Copy, Debug)]
pub struct TransitionDynamics {
    pub shape: DynamicsShape,
    pub dimension: DynamicsDimension,
    pub value: Real,
}

/// Keep a longitudinal distance to another entity.
#[derive(Clone, Debug)]
pub struct LongitudinalDistanceAction {
    pub entity_ref: String,
    pub distance: Real,
    pub freespace: bool,
    pub continuous: bool,
    pub dynamics: Option<TransitionDynamics>,
}

/// Follow a trajectory.
#[derive(Clone, Debug)]
pub struct FollowTrajectoryAction {
    pub trajectory: Trajectory,
    pub timing_mode: TimingMode,
    pub initial_distance_offset: Option<Real>,
}

/// A path through vertices.
#[derive(Clone, Debug)]
pub struct Trajectory {
    pub name: String,
    pub closed: bool,
    pub vertices: Vec<Vertex>,
}

/// A point of a trajectory.
#[derive(Clone, Debug)]
pub struct Vertex {
    pub time: Real,
    pub position: Position,
}

/// Whether trajectory vertex times are used.
#[derive(Clone, Copy, Debug, PartialEq, Eq, Structural)]
pub enum TimingMode {
    Timing,
    /// Vertex times are ignored (`none` in the standard).
    Untimed,
}

/// Assign a route.
#[derive(Clone, Debug)]
pub struct AssignRouteAction {
    pub route: Route,
}

/// A route through waypoints.
#[derive(Clone, Debug)]
pub struct Route {
    pub name: String,
    pub closed: bool,
    pub waypoints: Vec<Waypoint>,
}

/// A point of a route.
#[derive(Clone, Debug)]
pub struct Waypoint {
    pub position: Position,
    pub route_strategy: Option<String>,
}

/// Arrive at a position together with a master entity.
#[derive(Clone, Debug)]
pub struct SynchronizeAction {
    pub entity_ref: String,
    pub master_entity_ref: String,
    pub target_position_master: TargetPositionMaster,
    pub target_position: TargetPosition,
    pub final_speed: Option<Real>,
}

/// Where the master entity is headed.
#[derive(Clone, Debug)]
pub struct TargetPositionMaster {
    pub position: Position,
}

/// Where the synchronized entity is headed.
#[derive(Clone, Debug)]
pub enum TargetPosition {
    World(Position),
    Relative(TargetPositionRelative),
}

/// A target given relative to an entity.
#[derive(Clone, Debug)]
pub struct TargetPositionRelative {
    pub entity_ref: String,
    pub dx: Real,
    pub dy: Real,
    pub dz: Real,
}

/// The top of the storyboard: stories keyed by name, and an optional stop trigger.
#[derive(Clone, Debug)]
pub struct Storyboard {
    pub stories: Vec<Story>,
    pub stop_trigger: Option<StopTrigger>,
}

/// When the whole simulation stops.
#[derive(Clone, Debug)]
pub struct StopTrigger {
    pub condition: StopCondition,
}

/// The condition of a stop trigger.
#[derive(Clone, Debug)]
pub enum StopCondition {
    SimulationTime { seconds: Real },
    StoryboardElementState { element_type: String, element_ref: String, state: String, delay: Real },
}

/// Condition groups, OR-ed together.
#[derive(Clone, Debug, PartialEq)]
pub struct Trigger {
    pub condition_groups: Vec<ConditionGroup>,
}

/// Conditions, AND-ed together.
#[derive(Clone, Debug, PartialEq)]
pub struct ConditionGroup {
    pub conditions: Vec<Condition>,
}

/// A named condition with delay and edge.
#[derive(Clone, Debug, PartialEq)]
pub struct Condition {
    pub name: String,
    pub delay: Real,
    pub condition_edge: ConditionEdge,
    pub kind: ConditionKind,
}

/// On which change of its value a condition fires.
#[derive(Clone, Copy, Debug, PartialEq, Eq, Structural)]
pub enum ConditionEdge {
    /// Fires whenever the condition holds (`none` in the standard).
    NoEdge,
    Rising,
    Falling,
    RisingOrFalling,
}

/// A condition on values or on entities.
#[derive(Clone, Debug, PartialEq)]
pub enum ConditionKind {
    ByValue(ByValueCondition),
    ByEntity(ByEntityCondition),
}

/// Conditions on simulation values.
#[derive(Clone, Debug, PartialEq)]
pub enum ByValueCondition {
    SimulationTime { value: Real, rule: Rule },
    StoryboardElementState { element_type: String, element_ref: String, state: String },
    Parameter(ParameterCondition),
}

/// A condition on a parameter value.
#[derive(Clone, Debug, PartialEq)]
pub struct ParameterCondition {
    pub parameter_ref: String,
    pub value: String,
    pub rule: Rule,
}

/// A comparison rule.
#[derive(Clone, Copy, Debug, PartialEq, Eq, Structural)]
pub enum Rule {
    GreaterThan,
    LessThan,
    EqualTo,
    GreaterOrEqual,
    LessOrEqual,
}

/// Whether any or all triggering entities must meet the condition.
#[derive(Clone, Copy, Debug, PartialEq, Eq, Structural)]
pub enum TriggeringEntitiesRule {
    Any,
    All,
}

/// The entities a condition watches.
#[derive(Clone, Debug, PartialEq)]
pub struct TriggeringEntities {
    pub rule: TriggeringEntitiesRule,
    pub entity_refs: Vec<String>,
}

/// Speed compared with `value`.
#[derive(Clone, Debug, PartialEq)]
pub struct SpeedCondition {
    pub value: Real,
    pub rule: Rule,
}

/// Within `tolerance` metres of a position.
#[derive(Clone, Debug, PartialEq)]
pub struct ReachPositionCondition {
    pub position: Position,
    pub tolerance: Real,
}

/// Time to collision with a target compared with `value`.
#[derive(Clone, Debug, PartialEq)]
pub struct TimeToCollisionCondition {
    pub target_entity_ref: String,
    pub value: Real,
    pub rule: Rule,
}

/// Collision with a target.
#[derive(Clone, Debug, PartialEq)]
pub struct CollisionCondition {
    pub target_entity_ref: String,
}

/// How a relative distance is measured.
#[derive(Clone, Copy, Debug, PartialEq, Eq, Structural)]
pub enum RelativeDistanceType {
    Longitudinal,
    Lateral,
    Euclidean,
}

/// The coordinate system of a distance.
#[derive(Clone, Copy, Debug, PartialEq, Eq, Structural)]
pub enum CoordinateSystem {
    Entity,
    Lane,
    Road,
    Trajectory,
}

/// Distance to an entity compared with `value`.
#[derive(Clone, Debug, PartialEq)]
pub struct RelativeDistanceCondition {
    pub entity_ref: String,
    pub value: Real,
    pub rule: Rule,
    pub distance_type: RelativeDistanceType,
    pub freespace: bool,
    pub coordinate_system: Option<CoordinateSystem>,
}

/// Time headway to an entity compared with `value`.
#[derive(Clone, Debug, PartialEq)]
pub struct TimeHeadwayCondition {
    pub entity_ref: String,
    pub value: Real,
    pub rule: Rule,
    pub freespace: bool,
}

/// Standing still for `duration` seconds.
#[derive(Clone, Debug, PartialEq)]
pub struct StandStillCondition {
    pub duration: Real,
}

/// Conditions on entities.
#[derive(Clone, Debug, PartialEq)]
pub enum EntityCondition {
    Speed(SpeedCondition),
    ReachPosition(ReachPositionCondition),
    TimeToCollision(TimeToCollisionCondition),
    Collision(CollisionCondition),
    RelativeDistance(RelativeDistanceCondition),
    TimeHeadway(TimeHeadwayCondition),
    StandStill(StandStillCondition),
}

/// An entity condition with the entities it watches.
#[derive(Clone, Debug, PartialEq)]
pub struct ByEntityCondition {
    pub triggering_entities: TriggeringEntities,
    pub entity_condition: EntityCondition,
}

// ---------------------------------------------------------------------------
// Names of storyboard elements.

pub open spec fn story_names(s: Seq<Story>) -> Seq<Seq<char>> {
    s.map_values(|x: Story| x.name@)
}

pub open spec fn act_names(s: Seq<Act>) -> Seq<Seq<char>> {
    s.map_values(|x: Act| x.name@)
}

pub open spec fn group_names(s: Seq<ManeuverGroup>) -> Seq<Seq<char>> {
    s.map_values(|x: ManeuverGroup| x.name@)
}

pub open spec fn maneuver_names(s: Seq<Maneuver>) -> Seq<Seq<char>> {
    s.map_values(|x: Maneuver| x.name@)
}

pub open spec fn event_names(s: Seq<Event>) -> Seq<Seq<char>> {
    s.map_values(|x: Event| x.name@)
}

// ---------------------------------------------------------------------------
// Constructors.

impl Story {
    /// An empty story.
    pub fn new(name: &str) -> (r: Self)
        ensures
            r.name@ == name@,
            r.acts@.len() == 0,
    {
        Story { name: owned(name), acts: Vec::new() }
    }
}

impl Act {
    /// An act with no maneuver groups and no start trigger.
    pub fn new(name: &str) -> (r: Self)
        ensures
            r.name@ == name@,
            r.maneuver_groups@.len() == 0,
            r.start_trigger is None,
    {
        Act { name: owned(name), maneuver_groups: Vec::new(), start_trigger: None }
    }

    /// Sets (or replaces) the start trigger.
    pub fn set_start_trigger(&mut self, trigger: Trigger)
        ensures
            final(self).name == old(self).name,
            final(self).maneuver_groups == old(self).maneuver_groups,
            final(self).start_trigger == Some(trigger),
    {
        self.start_trigger = Some(trigger);
    }
}

impl ManeuverGroup {
    /// A maneuver group with no actors and no maneuvers.
    pub fn new(name: &str) -> (r: Self)
        ensures
            r.name@ == name@,
            r.actors@.len() == 0,
            r.maneuvers@.len() == 0,
    {
        ManeuverGroup { name: owned(name), actors: Vec::new(), maneuvers: Vec::new() }
    }
}

impl Maneuver {
    /// A maneuver with no events.
    pub fn new(name: &str) -> (r: Self)
        ensures
            r.name@ == name@,
            r.events@.len() == 0,
    {
        Maneuver { name: owned(name), events: Vec::new() }
    }
}

impl Event {
    /// An event with no actions and no start trigger.
    pub fn new(name: &str) -> (r: Self)
        ensures
            r.name@ == name@,
            r.actions@.len() == 0,
            r.start_trigger is None,
    {
        Event { name: owned(name), actions: Vec::new(), start_trigger: None }
    }

    /// Sets (or replaces) the start trigger.
    pub fn set_start_trigger(&mut self, trigger: Trigger)
        ensures
            final(self).name == old(self).name,
            final(self).actions == old(self).actions,
            final(self).start_trigger == Some(trigger),
    {
        self.start_trigger = Some(trigger);
    }
}

impl Storyboard {
    /// A storyboard with no stories and no stop trigger.
    pub fn new() -> (r: Self)
        ensures
            r.stories@.len() == 0,
            r.stop_trigger is None,
    {
        Storyboard { stories: Vec::new(), stop_trigger: None }
    }

    /// Sets (or replaces) the stop trigger.
    pub fn set_stop_trigger(&mut self, trigger: StopTrigger)
        ensures
            final(self).stories == old(self).stories,
            final(self).stop_trigger == Some(trigger),
    {
        self.stop_trigger = Some(trigger);
    }
}

impl Default for Storyboard {
    fn default() -> (r: Self)
        ensures
            r.stories@.len() == 0,
            r.stop_trigger is None,
    {
        Storyboard::new()
    }
}

impl StopTrigger {
    /// Stop when the simulation time reaches `seconds`.
    pub fn simulation_time(seconds: Real) -> (r: Self)
        ensures
            r.condition == (StopCondition::SimulationTime { seconds }),
    {
        StopTrigger { condition: StopCondition::SimulationTime { seconds } }
    }

    /// Stop when a storyboard element reaches a state.
    pub fn storyboard_element_state(element_type: &str, element_ref: &str, state: &str, delay: Real) -> (r: Self)
        ensures
            r.condition matches StopCondition::StoryboardElementState { element_type: t, element_ref: e, state: s, delay: d }
                && t@ == element_type@ && e@ == element_ref@ && s@ == state@ && d == delay,
    {
        StopTrigger {
            condition: StopCondition::StoryboardElementState {
                element_type: owned(element_type),
                element_ref: owned(element_ref),
                state: owned(state),
                delay,
            },
        }
    }
}

impl Trigger {
    /// A trigger with a single condition group.
    pub fn new(condition_group: ConditionGroup) -> (r: Self)
        ensures
            r.condition_groups@ == seq![condition_group],
    {
        let mut v = Vec::new();
        v.push(condition_group);
        assert(v@ =~= seq![condition_group]);
        Trigger { condition_groups: v }
    }

    /// A trigger with the given condition groups.
    pub fn with_groups(condition_groups: Vec<ConditionGroup>) -> (r: Self)
        ensures
            r.condition_groups == condition_groups,
    {
        Trigger { condition_groups }
    }
}

impl ConditionGroup {
    /// A group of the given conditions.
    pub fn new(conditions: Vec<Condition>) -> (r: Self)
        ensures
            r.conditions == conditions,
    {
        ConditionGroup { conditions }
    }
}

/// Text of the name of a storyboard-element condition.
pub open spec fn element_state_condition_name(element_type: Seq<char>, element_ref: Seq<char>, state: Seq<char>) -> Seq<char> {
    element_type + seq!['_'] + element_ref + seq!['_'] + state
}

impl Condition {
    /// Fires when a storyboard element reaches a state; named "type_ref_state".
    pub fn storyboard_element_state(element_type: &str, element_ref: &str, state: &str) -> (r: Self)
        ensures
            r.name@ == element_state_condition_name(element_type@, element_ref@, state@),
            r.delay.bits == 0,
            r.condition_edge == ConditionEdge::NoEdge,
            r.kind matches ConditionKind::ByValue(ByValueCondition::StoryboardElementState {
                element_type: t, element_ref: e, state: s }) && t@ == element_type@ && e@ == element_ref@
                && s@ == state@,
    {
        let mut name = owned(element_type);
        name.append("_");
        name.append(element_ref);
        name.append("_");
        name.append(state);
        proof {
            reveal_strlit("_");
        }
        assert(name@ =~= element_state_condition_name(element_type@, element_ref@, state@));
        Condition {
            name,
            delay: Real::zero(),
            condition_edge: ConditionEdge::NoEdge,
            kind: ConditionKind::ByValue(ByValueCondition::StoryboardElementState {
                element_type: owned(element_type),
                element_ref: owned(element_ref),
                state: owned(state),
            }),
        }
    }

    /// Fires when the simulation time compares to `seconds` by `rule`; named
    /// "SimTime_" followed by `seconds_text`, the way the time is written.
    pub fn simulation_time(seconds: Real, rule: Rule, seconds_text: &str) -> (r: Self)
        ensures
            r.name@ == "SimTime_"@ + seconds_text@,
            r.delay.bits == 0,
            r.condition_edge == ConditionEdge::NoEdge,
            r.kind == ConditionKind::ByValue(ByValueCondition::SimulationTime { value: seconds, rule }),
    {
        Condition {
            name: crate::text::concat2("SimTime_", seconds_text),
            delay: Real::zero(),
            condition_edge: ConditionEdge::NoEdge,
            kind: ConditionKind::ByValue(ByValueCondition::SimulationTime { value: seconds, rule }),
        }
    }

    /// Fires when the watched entities (any or all of them, by `rule`) collide
    /// with `target`; named "Collision_" followed by the target.
    pub fn collision(entity_refs: Vec<String>, target: &str, rule: TriggeringEntitiesRule) -> (r: Self)
        ensures
            r.name@ == "Collision_"@ + target@,
            r.delay.bits == 0,
            r.condition_edge == ConditionEdge::NoEdge,
            match r.kind {
                ConditionKind::ByEntity(b) => b.triggering_entities.rule == rule
                    && b.triggering_entities.entity_refs@ == entity_refs@ && match b.entity_condition {
                    EntityCondition::Collision(x) => x.target_entity_ref@ == target@,
                    _ => false,
                },
                _ => false,
            },
    {
        Condition {
            name: crate::text::concat2("Collision_", target),
            delay: Real::zero(),
            condition_edge: ConditionEdge::NoEdge,
            kind: ConditionKind::ByEntity(ByEntityCondition {
                triggering_entities: TriggeringEntities { rule, entity_refs },
                entity_condition: EntityCondition::Collision(CollisionCondition { target_entity_ref: owned(target) }),
            }),
        }
    }

    /// Fires when a parameter compares to `value`; named "Param_" followed by the parameter.
    pub fn parameter(parameter_ref: &str, value: &str, rule: Rule) -> (r: Self)
        ensures
            r.name@ == "Param_"@ + parameter_ref@,
            r.delay.bits == 0,
            r.condition_edge == ConditionEdge::NoEdge,
            r.kind matches ConditionKind::ByValue(ByValueCondition::Parameter(p)) && p.parameter_ref@
                == parameter_ref@ && p.value@ == value@ && p.rule == rule,
    {
        let name = crate::text::concat2("Param_", parameter_ref);
        Condition {
            name,
            delay: Real::zero(),
            condition_edge: ConditionEdge::NoEdge,
            kind: ConditionKind::ByValue(ByValueCondition::Parameter(ParameterCondition {
                parameter_ref: owned(parameter_ref),
                value: owned(value),
                rule,
            })),
        }
    }
}

// ---------------------------------------------------------------------------
// Changes to one element of the storyboard.

/// `new` is `old` with only story `si` changed, as `f` relates the two versions.
pub open spec fn only_story_changed(old: Storyboard, new: Storyboard, si: int, f: spec_fn(Story, Story) -> bool) -> bool {
    &&& 0 <= si < old.stories@.len()
    &&& new.stop_trigger == old.stop_trigger
    &&& new.stories@.len() == old.stories@.len()
    &&& forall|j: int| 0 <= j < old.stories@.len() && j != si ==> new.stories@[j] == old.stories@[j]
    &&& f(old.stories@[si], new.stories@[si])
}

/// `new` is `old` with only act `ai` changed.
pub open spec fn only_act_changed(old: Story, new: Story, ai: int, f: spec_fn(Act, Act) -> bool) -> bool {
    &&& 0 <= ai < old.acts@.len()
    &&& new.name == old.name
    &&& new.acts@.len() == old.acts@.len()
    &&& forall|j: int| 0 <= j < old.acts@.len() && j != ai ==> new.acts@[j] == old.acts@[j]
    &&& f(old.acts@[ai], new.acts@[ai])
}

/// `new` is `old` with only maneuver group `gi` changed.
pub open spec fn only_group_changed(old: Act, new: Act, gi: int, f: spec_fn(ManeuverGroup, ManeuverGroup) -> bool) -> bool {
    &&& 0 <= gi < old.maneuver_groups@.len()
    &&& new.name == old.name
    &&& new.start_trigger == old.start_trigger
    &&& new.maneuver_groups@.len() == old.maneuver_groups@.len()
    &&& forall|j: int| 0 <= j < old.maneuver_groups@.len() && j != gi ==> new.maneuver_groups@[j] == old.maneuver_groups@[j]
    &&& f(old.maneuver_groups@[gi], new.maneuver_groups@[gi])
}

/// `new` is `old` with only maneuver `mi` changed.
pub open spec fn only_maneuver_changed(old: ManeuverGroup, new: ManeuverGroup, mi: int, f: spec_fn(Maneuver, Maneuver) -> bool) -> bool {
    &&& 0 <= mi < old.maneuvers@.len()
    &&& new.name == old.name
    &&& new.actors == old.actors
    &&& new.maneuvers@.len() == old.maneuvers@.len()
    &&& forall|j: int| 0 <= j < old.maneuvers@.len() && j != mi ==> new.maneuvers@[j] == old.maneuvers@[j]
    &&& f(old.maneuvers@[mi], new.maneuvers@[mi])
}

/// Only maneuver `(si, ai, gi, mi)` changed, as `f` relates its versions.
pub open spec fn only_maneuver_at(old: Storyboard, new: Storyboard, si: int, ai: int, gi: int, mi: int, f: spec_fn(Maneuver, Maneuver) -> bool) -> bool {
    only_story_changed(old, new, si, |os: Story, ns: Story| only_act_changed(os, ns, ai, |oa: Act, na: Act|
        only_group_changed(oa, na, gi, |og: ManeuverGroup, ng: ManeuverGroup| only_maneuver_changed(og, ng, mi, f))))
}

/// Only maneuver group `(si, ai, gi)` changed, as `f` relates its versions.
pub open spec fn only_group_at(old: Storyboard, new: Storyboard, si: int, ai: int, gi: int, f: spec_fn(ManeuverGroup, ManeuverGroup) -> bool) -> bool {
    only_story_changed(old, new, si, |os: Story, ns: Story| only_act_changed(os, ns, ai, |oa: Act, na: Act|
        only_group_changed(oa, na, gi, f)))
}

/// Only act `(si, ai)` changed, as `f` relates its versions.
pub open spec fn only_act_at(old: Storyboard, new: Storyboard, si: int, ai: int, f: spec_fn(Act, Act) -> bool) -> bool {
    only_story_changed(old, new, si, |os: Story, ns: Story| only_act_changed(os, ns, ai, f))
}

/// `new` holds the events of `old` with `action` added to the first event
/// named `event`, or, when there is none, a new event of that name holding
/// just `action` and no start trigger, added at the end.
pub open spec fn event_got_action(old: Maneuver, new: Maneuver, event: Seq<char>, action: Action) -> bool {
    let k = first_index(event_names(old.events@), event);
    &&& new.name == old.name
    &&& if k >= 0 {
        &&& new.events@.len() == old.events@.len()
        &&& forall|j: int| 0 <= j < old.events@.len() && j != k ==> new.events@[j] == old.events@[j]
        &&& new.events@[k].name == old.events@[k].name
        &&& new.events@[k].actions@ == old.events@[k].actions@.push(action)
        &&& new.events@[k].start_trigger == old.events@[k].start_trigger
    } else {
        &&& new.events@.len() == old.events@.len() + 1
        &&& forall|j: int| 0 <= j < old.events@.len() ==> new.events@[j] == old.events@[j]
        &&& new.events@.last().name@ == event
        &&& new.events@.last().actions@ == seq![action]
        &&& new.events@.last().start_trigger is None
    }
}

/// `new` holds the events of `old` with the start trigger of the first event
/// named `event` set to `trigger`, or, when there is none, a new event of that
/// name with no actions and that trigger, added at the end.
pub open spec fn event_got_trigger(old: Maneuver, new: Maneuver, event: Seq<char>, trigger: Trigger) -> bool {
    let k = first_index(event_names(old.events@), event);
    &&& new.name == old.name
    &&& if k >= 0 {
        &&& new.events@.len() == old.events@.len()
        &&& forall|j: int| 0 <= j < old.events@.len() && j != k ==> new.events@[j] == old.events@[j]
        &&& new.events@[k].name == old.events@[k].name
        &&& new.events@[k].actions == old.events@[k].actions
        &&& new.events@[k].start_trigger == Some(trigger)
    } else {
        &&& new.events@.len() == old.events@.len() + 1
        &&& forall|j: int| 0 <= j < old.events@.len() ==> new.events@[j] == old.events@[j]
        &&& new.events@.last().name@ == event
        &&& new.events@.last().actions@.len() == 0
        &&& new.events@.last().start_trigger == Some(trigger)
    }
}

// ---------------------------------------------------------------------------
// Searching by name (the first element of the name counts).

/// The position of the first story named `name`.
pub fn find_story(stories: &Vec<Story>, name: &str) -> (r: Option<usize>)
    ensures
        match r {
            Some(i) => first_index(story_names(stories@), name@) == i && i < stories@.len(),
            None => first_index(story_names(stories@), name@) == -1,
        },
{
    let ghost names = story_names(stories@);
    let mut i: usize = 0;
    while i < stories.len()
        invariant
            i <= stories@.len(),
            names == story_names(stories@),
            forall|j: int| 0 <= j < i ==> names[j] != name@,
        decreases stories@.len() - i,
    {
        assert(names[i as int] == stories@[i as int].name@);
        if str_eq(stories[i].name.as_str(), name) {
            proof { lemma_first_index(names, name@, i as int); }
            return Some(i);
        }
        i = i + 1;
    }
    proof { lemma_first_index(names, name@, i as int); }
    None
}

/// The position of the first act named `name`.
pub fn find_act(acts: &Vec<Act>, name: &str) -> (r: Option<usize>)
    ensures
        match r {
            Some(i) => first_index(act_names(acts@), name@) == i && i < acts@.len(),
            None => first_index(act_names(acts@), name@) == -1,
        },
{
    let ghost names = act_names(acts@);
    let mut i: usize = 0;
    while i < acts.len()
        invariant
            i <= acts@.len(),
            names == act_names(acts@),
            forall|j: int| 0 <= j < i ==> names[j] != name@,
        decreases acts@.len() - i,
    {
        assert(names[i as int] == acts@[i as int].name@);
        if str_eq(acts[i].name.as_str(), name) {
            proof { lemma_first_index(names, name@, i as int); }
            return Some(i);
        }
        i = i + 1;
    }
    proof { lemma_first_index(names, name@, i as int); }
    None
}

/// The position of the first maneuver group named `name`.
pub fn find_group(groups: &Vec<ManeuverGroup>, name: &str) -> (r: Option<usize>)
    ensures
        match r {
            Some(i) => first_index(group_names(groups@), name@) == i && i < groups@.len(),
            None => first_index(group_names(groups@), name@) == -1,
        },
{
    let ghost names = group_names(groups@);
    let mut i: usize = 0;
    while i < groups.len()
        invariant
            i <= groups@.len(),
            names == group_names(groups@),
            forall|j: int| 0 <= j < i ==> names[j] != name@,
        decreases groups@.len() - i,
    {
        assert(names[i as int] == groups@[i as int].name@);
        if str_eq(groups[i].name.as_str(), name) {
            proof { lemma_first_index(names, name@, i as int); }
            return Some(i);
        }
        i = i + 1;
    }
    proof { lemma_first_index(names, name@, i as int); }
    None
}

/// The position of the first maneuver named `name`.
pub fn find_maneuver(maneuvers: &Vec<Maneuver>, name: &str) -> (r: Option<usize>)
    ensures
        match r {
            Some(i) => first_index(maneuver_names(maneuvers@), name@) == i && i < maneuvers@.len(),
            None => first_index(maneuver_names(maneuvers@), name@) == -1,
        },
{
    let ghost names = maneuver_names(maneuvers@);
    let mut i: usize = 0;
    while i < maneuvers.len()
        invariant
            i <= maneuvers@.len(),
            names == maneuver_names(maneuvers@),
            forall|j: int| 0 <= j < i ==> names[j] != name@,
        decreases maneuvers@.len() - i,
    {
        assert(names[i as int] == maneuvers@[i as int].name@);
        if str_eq(maneuvers[i].name.as_str(), name) {
            proof { lemma_first_index(names, name@, i as int); }
            return Some(i);
        }
        i = i + 1;
    }
    proof { lemma_first_index(names, name@, i as int); }
    None
}

/// The position of the first event named `name`.
pub fn find_event(events: &Vec<Event>, name: &str) -> (r: Option<usize>)
    ensures
        match r {
            Some(i) => first_index(event_names(events@), name@) == i && i < events@.len(),
            None => first_index(event_names(events@), name@) == -1,
        },
{
    let ghost names = event_names(events@);
    let mut i: usize = 0;
    while i < events.len()
        invariant
            i <= events@.len(),
            names == event_names(events@),
            forall|j: int| 0 <= j < i ==> names[j] != name@,
        decreases events@.len() - i,
    {
        assert(names[i as int] == events@[i as int].name@);
        if str_eq(events[i].name.as_str(), name) {
            proof { lemma_first_index(names, name@, i as int); }
            return Some(i);
        }
        i = i + 1;
    }
    proof { lemma_first_index(names, name@, i as int); }
    None
}

impl Maneuver {
    /// Adds `action` to the first event named `event`, creating the event when there is none.
    pub fn add_action_to_event(&mut self, event: &str, action: Action)
        ensures
            event_got_action(*old(self), *final(self), event@, action),
    {
        match find_event(&self.events, event) {
            Some(k) => {
                let ev = &mut self.events[k];
                ev.actions.push(action);
            },
            None => {
                let mut actions = Vec::new();
                actions.push(action);
                assert(actions@ =~= seq![action]);
                self.events.push(Event { name: owned(event), actions, start_trigger: None });
            },
        }
    }

    /// Sets the start trigger of the first event named `event`, creating the
    /// event (with no actions) when there is none.
    pub fn put_event_trigger(&mut self, event: &str, trigger: Trigger)
        ensures
            event_got_trigger(*old(self), *final(self), event@, trigger),
    {
        match find_event(&self.events, event) {
            Some(k) => {
                let ev = &mut self.events[k];
                ev.start_trigger = Some(trigger);
            },
            None => {
                self.events.push(Event { name: owned(event), actions: Vec::new(), start_trigger: Some(trigger) });
            },
        }
    }
}

impl Storyboard {
    /// Mutable access to one maneuver; the rest of the storyboard stays as it was.
    pub fn maneuver_mut(&mut self, si: usize, ai: usize, gi: usize, mi: usize) -> (r: &mut Maneuver)
        requires
            si < old(self).stories@.len(),
            ai < old(self).stories@[si as int].acts@.len(),
            gi < old(self).stories@[si as int].acts@[ai as int].maneuver_groups@.len(),
            mi < old(self).stories@[si as int].acts@[ai as int].maneuver_groups@[gi as int].maneuvers@.len(),
        ensures
            *r == old(self).stories@[si as int].acts@[ai as int].maneuver_groups@[gi as int].maneuvers@[mi as int],
            only_maneuver_at(*old(self), *final(self), si as int, ai as int, gi as int, mi as int,
                |om: Maneuver, nm: Maneuver| nm == *final(r)),
    {
        let story = &mut self.stories[si];
        let act = &mut story.acts[ai];
        let group = &mut act.maneuver_groups[gi];
        &mut group.maneuvers[mi]
    }
}

} // verus!

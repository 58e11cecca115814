//! Properties that span several operations of the scenario builder.
use vstd::prelude::*;
use crate::editing::{act_holder, act_start_trigger_of, story_path, act_added, maneuver_added, act_path, act_trigger_set, action_added, in_group_label, maneuver_path, actor_added, group_added, group_conflict, group_path, story_added, story_missing};
use crate::quantity::Real;
use crate::service::{
    ServerState, act_of, creation, fresh_scenario, group_of, hierarchy_text, lane_position, linear_over, maneuver_of,
    scaffold_steps, start_set, timed_action_steps, timed_action_tool,
};
use crate::version::spec_from_label;
use crate::entities::Entity;
use crate::error::ScenarioErrorView;
use crate::position::Position;
use crate::scenario::{ParameterType, Scenario, parameter_names, position_index, position_keys, speed_index};
use crate::inspection::{Issues, acts_issues, entity_warnings, group_issues, groups_issues, inspection_report,
    maneuver_errors, scenario_issues, stories_issues, story_issues, act_issues, actless_story, eventless_maneuver,
    groupless_act};
use crate::storyboard::{
    DynamicsDimension, DynamicsShape, SpeedAction, TransitionDynamics,
    Act, Action, ConditionEdge, EntityCondition, Maneuver, ManeuverGroup, Story, Storyboard, Trigger, act_names, event_names, group_names, maneuver_names, story_names,
};
use crate::text::{first_index, is_blank, lemma_first_index, lemma_first_index_bounds, spec_trim, views};
use crate::error::ScenarioError;

verus! {

/// An entity that was added can be found under its trimmed name, and it is
/// the entity that was added.
pub proof fn lemma_added_entity_is_found(old: Scenario, new: Scenario, name: Seq<char>, entity: spec_fn(Entity) -> bool)
    requires
        Scenario::entity_change(&old, &new, name, entity),
        old.add_entity_outcome(name) is Ok,
    ensures
        new.has_entity(spec_trim(name)),
        new.spec_entities()[first_index(new.names(), spec_trim(name))] == new.spec_entities().last(),
        entity(new.spec_entities()[first_index(new.names(), spec_trim(name))]),
{
    let key = spec_trim(name);
    let on = old.names();
    let nn = new.names();
    assert(nn.drop_last() =~= on);
    let n = on.len() as int;
    assert(nn[n] == key);
    assert forall|j: int| 0 <= j < n implies nn[j] != key by {
        assert(nn[j] == on[j]);
        if on[j] == key {
            assert(old.has_entity(key));
        }
    }
    lemma_first_index(nn, key, n);
}

/// Adding an entity under a name (after trimming) that was just added fails
/// with a conflict on that name.
pub proof fn lemma_second_add_conflicts(
    old: Scenario,
    new: Scenario,
    name: Seq<char>,
    entity: spec_fn(Entity) -> bool,
    again: Seq<char>,
)
    requires
        Scenario::entity_change(&old, &new, name, entity),
        old.add_entity_outcome(name) is Ok,
        !is_blank(again),
        spec_trim(again) == spec_trim(name),
    ensures
        new.add_entity_outcome(again) == Err::<Seq<char>, ScenarioErrorView>(
            ScenarioErrorView::EntityConflict { name: spec_trim(name), existing_location: None }),
{
    lemma_added_entity_is_found(old, new, name, entity);
}

/// Adding an entity keeps every entity that was there, under the same name.
pub proof fn lemma_entities_kept(old: Scenario, new: Scenario, name: Seq<char>, entity: spec_fn(Entity) -> bool, other: Seq<char>)
    requires
        Scenario::entity_change(&old, &new, name, entity),
        old.has_entity(other),
    ensures
        new.has_entity(other),
{
    if old.add_entity_outcome(name) is Ok {
        let on = old.names();
        let nn = new.names();
        assert(nn.drop_last() =~= on);
        let k = choose|k: int| 0 <= k < on.len() && on[k] == other;
        assert(nn[k] == other);
    }
}

/// A declared parameter name cannot be declared again: the second
/// declaration fails with a conflict on that name and changes nothing.
pub proof fn lemma_parameter_declared_once(
    old: Scenario,
    mid: Scenario,
    new: Scenario,
    r1: Result<(), ScenarioError>,
    r2: Result<(), ScenarioError>,
    name: Seq<char>,
    t1: ParameterType,
    v1: Seq<char>,
    t2: ParameterType,
    v2: Seq<char>,
)
    requires
        Scenario::parameter_added(&old, &mid, r1, name, t1, v1),
        Scenario::parameter_added(&mid, &new, r2, name, t2, v2),
    ensures
        r2 matches Err(e) && e@ == (ScenarioErrorView::ParameterConflict { name }),
        new == mid,
{
    let pm = parameter_names(mid.spec_parameters());
    if !parameter_names(old.spec_parameters()).contains(name) {
        let last = mid.spec_parameters().len() - 1;
        assert(pm[last] == name);
    }
    assert(pm.contains(name));
}

/// The initial position set for an entity is the one read back for its
/// trimmed name.
pub proof fn lemma_position_read_back(old: Scenario, new: Scenario, entity: Seq<char>, position: Position)
    requires
        Scenario::position_change(&old, &new, entity, position),
        old.position_outcome(entity, position) is Ok,
    ensures
        position_index(new.spec_initial_positions(), spec_trim(entity)) >= 0,
        new.spec_initial_positions()[position_index(new.spec_initial_positions(), spec_trim(entity))].position
            == position,
{
    let key = spec_trim(entity);
    let op = old.spec_initial_positions();
    let np = new.spec_initial_positions();
    let ok = position_keys(op);
    let nk = position_keys(np);
    lemma_first_index_bounds(ok, key);
    let k = position_index(op, key);
    if k >= 0 {
        assert forall|j: int| 0 <= j < k implies nk[j] != key by {
            assert(np[j] == op[j]);
            assert(nk[j] == ok[j]);
        }
        assert(nk[k] == key);
        lemma_first_index(nk, key, k);
    } else {
        let n = op.len() as int;
        assert(np.drop_last() == op);
        assert forall|j: int| 0 <= j < n implies nk[j] != key by {
            assert(np[j] == op[j]);
            assert(nk[j] == ok[j]);
        }
        assert(nk[n] == key);
        lemma_first_index(nk, key, n);
    }
}

/// What placing an existing entity at a position measured from `from` gives:
/// a refusal that names `from` and the entity being placed, with nothing
/// changed, when `from` is not an entity of the scenario; otherwise the
/// position is stored under the entity's trimmed name.
pub open spec fn placed_relative_to(old: Scenario, new: Scenario, entity: Seq<char>, p: Position, from: Seq<char>) -> bool {
    if old.has_entity(from) {
        old.position_outcome(entity, p) == Ok::<Seq<char>, ScenarioErrorView>(spec_trim(entity))
    } else {
        &&& old.position_outcome(entity, p) == Err::<Seq<char>, ScenarioErrorView>(ScenarioErrorView::EntityNotFound {
            entity: from,
            context: "Position for entity '"@ + spec_trim(entity) + "'"@,
        })
        &&& new == old
    }
}

/// Every relative position (world, object, lane or road) is measured from
/// the entity it names: placing an existing entity there is refused, and
/// changes nothing, exactly when that entity does not exist. The absolute
/// positions (world, lane, road) depend on no other entity.
pub proof fn lemma_relative_position_needs_its_entity(old: Scenario, new: Scenario, entity: Seq<char>, p: Position)
    requires
        !is_blank(entity),
        old.has_entity(spec_trim(entity)),
        Scenario::position_change(&old, &new, entity, p),
    ensures
        p matches Position::RelativeWorld { entity: e, .. } ==> placed_relative_to(old, new, entity, p, e@),
        p matches Position::RelativeObject { entity: e, .. } ==> placed_relative_to(old, new, entity, p, e@),
        p matches Position::RelativeLane { entity: e, .. } ==> placed_relative_to(old, new, entity, p, e@),
        p matches Position::RelativeRoad { entity: e, .. } ==> placed_relative_to(old, new, entity, p, e@),
        (p is World || p is Lane || p is Road) ==> old.position_outcome(entity, p) == Ok::<Seq<char>, ScenarioErrorView>(
            spec_trim(entity)),
{
}

/// A story name cannot be added twice: adding the same (trimmed) name again
/// fails and leaves the storyboard as it was.
pub proof fn lemma_story_added_once(
    old: Storyboard,
    mid: Storyboard,
    new: Storyboard,
    r1: Result<(), ScenarioError>,
    r2: Result<(), ScenarioError>,
    name: Seq<char>,
    again: Seq<char>,
)
    requires
        story_added(old, mid, r1, name),
        r1 is Ok,
        story_added(mid, new, r2, again),
        spec_trim(again) == spec_trim(name),
        !is_blank(again),
    ensures
        r2 matches Err(e) && e@ == story_missing(mid, spec_trim(name)),
        new == mid,
{
    let n = old.stories@.len() as int;
    assert(story_names(mid.stories@)[n] == spec_trim(name));
}

/// A maneuver group name cannot be added twice to an act.
pub proof fn lemma_group_added_once(
    old: Storyboard,
    mid: Storyboard,
    new: Storyboard,
    r1: Result<(), ScenarioError>,
    r2: Result<(), ScenarioError>,
    story: Seq<char>,
    act: Seq<char>,
    mg: Seq<char>,
)
    requires
        group_added(old, mid, r1, story, act, mg),
        r1 is Ok,
        group_added(mid, new, r2, story, act, mg),
    ensures
        r2 matches Err(e) && e@ == group_conflict(act, mg),
        new == mid,
{
    let si = first_index(story_names(old.stories@), story);
    let ai = first_index(crate::storyboard::act_names(old.stories@[si].acts@), act);
    let om = old.stories@[si];
    let mm = mid.stories@[si];
    assert(story_names(mid.stories@) =~= story_names(old.stories@)) by {
        assert forall|j: int| 0 <= j < old.stories@.len() implies mid.stories@[j].name == old.stories@[j].name by {
            if j != si {
                assert(mid.stories@[j] == old.stories@[j]);
            }
        }
    }
    assert(crate::storyboard::act_names(mm.acts@) =~= crate::storyboard::act_names(om.acts@)) by {
        assert forall|j: int| 0 <= j < om.acts@.len() implies mm.acts@[j].name == om.acts@[j].name by {
            if j != ai {
                assert(mm.acts@[j] == om.acts@[j]);
            }
        }
    }
    let groups = mm.acts@[ai].maneuver_groups@;
    let last = groups.len() - 1;
    assert(group_names(groups)[last] == mg);
}

/// Adding an actor twice is the same as adding it once: the second call
/// leaves the actors of the group as the first left them.
pub proof fn lemma_actor_added_once(
    old: Storyboard,
    mid: Storyboard,
    new: Storyboard,
    r1: Result<(), ScenarioError>,
    r2: Result<(), ScenarioError>,
    story: Seq<char>,
    act: Seq<char>,
    mg: Seq<char>,
    entity: Seq<char>,
)
    requires
        actor_added(old, mid, r1, story, act, mg, entity),
        r1 is Ok,
        actor_added(mid, new, r2, story, act, mg, entity),
    ensures
        r2 is Ok,
        group_path(mid, story, act, mg) matches Ok((si, ai, gi)) && views(
            new.stories@[si].acts@[ai].maneuver_groups@[gi].actors@,
        ) == views(mid.stories@[si].acts@[ai].maneuver_groups@[gi].actors@),
{
    let si = first_index(story_names(old.stories@), story);
    let ai = first_index(crate::storyboard::act_names(old.stories@[si].acts@), act);
    let gi = first_index(group_names(old.stories@[si].acts@[ai].maneuver_groups@), mg);
    let os = old.stories@[si];
    let ms = mid.stories@[si];
    let oa = os.acts@[ai];
    let ma = ms.acts@[ai];
    assert(story_names(mid.stories@) =~= story_names(old.stories@)) by {
        assert forall|j: int| 0 <= j < old.stories@.len() implies mid.stories@[j].name == old.stories@[j].name by {
            if j != si {
                assert(mid.stories@[j] == old.stories@[j]);
            }
        }
    }
    assert(crate::storyboard::act_names(ms.acts@) =~= crate::storyboard::act_names(os.acts@)) by {
        assert forall|j: int| 0 <= j < os.acts@.len() implies ms.acts@[j].name == os.acts@[j].name by {
            if j != ai {
                assert(ms.acts@[j] == os.acts@[j]);
            }
        }
    }
    assert(group_names(ma.maneuver_groups@) =~= group_names(oa.maneuver_groups@)) by {
        assert forall|j: int| 0 <= j < oa.maneuver_groups@.len() implies ma.maneuver_groups@[j].name
            == oa.maneuver_groups@[j].name by {
            if j != gi {
                assert(ma.maneuver_groups@[j] == oa.maneuver_groups@[j]);
            }
        }
    }
    let mg_actors = views(ma.maneuver_groups@[gi].actors@);
    let og_actors = views(oa.maneuver_groups@[gi].actors@);
    if !og_actors.contains(entity) {
        assert(mg_actors[mg_actors.len() - 1] == entity);
    }
    assert(mg_actors.contains(entity));
}


/// The start trigger set on an act is the one that act then has, and it is
/// found at the same place.
pub proof fn lemma_act_trigger_read_back(
    old: Storyboard,
    new: Storyboard,
    r: Result<(), ScenarioError>,
    story: Seq<char>,
    act: Seq<char>,
    trigger: Trigger,
)
    requires
        act_trigger_set(old, new, r, story, act, trigger),
        r is Ok,
    ensures
        act_path(new, story, act) == act_path(old, story, act),
        act_path(new, story, act) matches Ok((si, ai)) && new.stories@[si].acts@[ai].start_trigger == Some(trigger),
{
    let si = first_index(story_names(old.stories@), story);
    let ai = first_index(crate::storyboard::act_names(old.stories@[si].acts@), act);
    let os = old.stories@[si];
    let ns = new.stories@[si];
    assert(story_names(new.stories@) =~= story_names(old.stories@)) by {
        assert forall|j: int| 0 <= j < old.stories@.len() implies new.stories@[j].name == old.stories@[j].name by {
            if j != si {
                assert(new.stories@[j] == old.stories@[j]);
            }
        }
    }
    assert(crate::storyboard::act_names(ns.acts@) =~= crate::storyboard::act_names(os.acts@)) by {
        assert forall|j: int| 0 <= j < os.acts@.len() implies ns.acts@[j].name == os.acts@[j].name by {
            if j != ai {
                assert(ns.acts@[j] == os.acts@[j]);
            }
        }
    }
}

/// Two story lists whose stories have the same act names, in the same
/// order, hold an act of a given name in the same first story.
pub proof fn lemma_act_holder_same(a: Seq<Story>, b: Seq<Story>, act: Seq<char>, i: int)
    requires
        a.len() == b.len(),
        forall|j: int| 0 <= j < a.len() ==> act_names((#[trigger] a[j]).acts@) == act_names(b[j].acts@),
    ensures
        act_holder(a, act, i) == act_holder(b, act, i),
    decreases a.len() - i,
{
    if 0 <= i < a.len() {
        assert(act_names(a[i].acts@) == act_names(b[i].acts@));
        lemma_act_holder_same(a, b, act, i + 1);
    }
}

/// The start trigger set on an act is the one the act lookup (the first
/// act of that name, stories taken in order) then gives, when no earlier
/// story holds an act of that name.
pub proof fn lemma_act_trigger_listed(
    old: Storyboard,
    new: Storyboard,
    r: Result<(), ScenarioError>,
    story: Seq<char>,
    act: Seq<char>,
    trigger: Trigger,
)
    requires
        act_trigger_set(old, new, r, story, act, trigger),
        r is Ok,
        act_path(old, story, act) matches Ok((si, _)) && act_holder(old.stories@, act, 0) == si,
    ensures
        act_start_trigger_of(new, act) == Ok::<Option<Trigger>, ScenarioErrorView>(Some(trigger)),
{
    lemma_act_trigger_read_back(old, new, r, story, act, trigger);
    let si = first_index(story_names(old.stories@), story);
    let ai = first_index(act_names(old.stories@[si].acts@), act);
    let os = old.stories@[si];
    let ns = new.stories@[si];
    assert(act_names(ns.acts@) =~= act_names(os.acts@)) by {
        assert forall|j: int| 0 <= j < os.acts@.len() implies ns.acts@[j].name == os.acts@[j].name by {
            if j != ai {
                assert(ns.acts@[j] == os.acts@[j]);
            }
        }
    }
    assert forall|j: int| 0 <= j < new.stories@.len() implies act_names((#[trigger] new.stories@[j]).acts@)
        == act_names(old.stories@[j].acts@) by {
        if j != si {
            assert(new.stories@[j] == old.stories@[j]);
        }
    }
    lemma_act_holder_same(new.stories@, old.stories@, act, 0);
}

/// A scenario created under an id is then found under that id, empty, of
/// the version asked for, on the loaded road network if there is one; the
/// scenarios that were there before keep their ids.
pub proof fn lemma_created_scenario_is_found(
    old: &ServerState,
    new: &ServerState,
    r: Result<String, String>,
    name: Seq<char>,
    version: Seq<char>,
    suffix: Seq<char>,
)
    requires
        creation(old, new, r, name, version, suffix),
        r is Ok,
    ensures
        new.slot_of(r->Ok_0@) >= 0,
        spec_from_label(version) matches Some(v) && fresh_scenario(new.scenarios()[new.slot_of(r->Ok_0@)], v,
            old.network()),
        forall|j: int| 0 <= j < old.ids().len() ==> new.ids()[j] == old.ids()[j],
{
    let id = name + "_"@ + suffix;
    let k = old.slot_of(id);
    old.lemma_lengths();
    new.lemma_lengths();
    lemma_first_index_bounds(old.ids(), id);
    if k >= 0 {
        lemma_first_index(new.ids(), id, k);
    } else {
        let n = old.ids().len() as int;
        assert(new.ids()[n] == id);
        assert forall|j: int| 0 <= j < n implies new.ids()[j] != id by {
            assert(new.ids()[j] == old.ids()[j]);
        }
        lemma_first_index(new.ids(), id, n);
    }
}


/// An action added to an event can be read back: the maneuver is found at
/// the same place, and the first event of that name ends with the action.
pub proof fn lemma_action_read_back(
    old: Storyboard,
    new: Storyboard,
    r: Result<(), ScenarioError>,
    story: Seq<char>,
    act: Seq<char>,
    mg: Seq<char>,
    maneuver: Seq<char>,
    event: Seq<char>,
    action: Action,
)
    requires
        action_added(old, new, r, story, act, mg, maneuver, event, action),
        r is Ok,
    ensures
        maneuver_path(new, story, act, mg, maneuver, in_group_label()) == maneuver_path(old, story, act, mg, maneuver, in_group_label()),
        maneuver_path(new, story, act, mg, maneuver, in_group_label()) matches Ok((si, ai, gi, mi)) && event_ends_with(
            new.stories@[si].acts@[ai].maneuver_groups@[gi].maneuvers@[mi], event, action),
{
    let si = first_index(story_names(old.stories@), story);
    let ai = first_index(act_names(old.stories@[si].acts@), act);
    let gi = first_index(group_names(old.stories@[si].acts@[ai].maneuver_groups@), mg);
    let mi = first_index(maneuver_names(old.stories@[si].acts@[ai].maneuver_groups@[gi].maneuvers@), maneuver);
    let os = old.stories@[si];
    let ns = new.stories@[si];
    let oa = os.acts@[ai];
    let na = ns.acts@[ai];
    let og = oa.maneuver_groups@[gi];
    let ng = na.maneuver_groups@[gi];
    let om = og.maneuvers@[mi];
    let nm = ng.maneuvers@[mi];
    assert(story_names(new.stories@) =~= story_names(old.stories@)) by {
        assert forall|j: int| 0 <= j < old.stories@.len() implies new.stories@[j].name == old.stories@[j].name by {
            if j != si {
                assert(new.stories@[j] == old.stories@[j]);
            }
        }
    }
    assert(act_names(ns.acts@) =~= act_names(os.acts@)) by {
        assert forall|j: int| 0 <= j < os.acts@.len() implies ns.acts@[j].name == os.acts@[j].name by {
            if j != ai {
                assert(ns.acts@[j] == os.acts@[j]);
            }
        }
    }
    assert(group_names(na.maneuver_groups@) =~= group_names(oa.maneuver_groups@)) by {
        assert forall|j: int| 0 <= j < oa.maneuver_groups@.len() implies na.maneuver_groups@[j].name
            == oa.maneuver_groups@[j].name by {
            if j != gi {
                assert(na.maneuver_groups@[j] == oa.maneuver_groups@[j]);
            }
        }
    }
    assert(maneuver_names(ng.maneuvers@) =~= maneuver_names(og.maneuvers@)) by {
        assert forall|j: int| 0 <= j < og.maneuvers@.len() implies ng.maneuvers@[j].name == og.maneuvers@[j].name by {
            if j != mi {
                assert(ng.maneuvers@[j] == og.maneuvers@[j]);
            }
        }
    }
    let k = first_index(event_names(om.events@), event);
    lemma_first_index_bounds(event_names(om.events@), event);
    if k >= 0 {
        assert(event_names(nm.events@) =~= event_names(om.events@)) by {
            assert forall|j: int| 0 <= j < om.events@.len() implies nm.events@[j].name == om.events@[j].name by {
                if j != k {
                    assert(nm.events@[j] == om.events@[j]);
                }
            }
        }
    } else {
        let n = om.events@.len() as int;
        let names = event_names(nm.events@);
        assert forall|j: int| 0 <= j < n implies names[j] != event by {
            assert(nm.events@[j] == om.events@[j]);
            assert(event_names(om.events@)[j] == om.events@[j].name@);
        }
        assert(names[n] == event);
        lemma_first_index(names, event, n);
    }
}

/// The first event called `event` in `m` ends with `action`.
pub open spec fn event_ends_with(m: Maneuver, event: Seq<char>, action: Action) -> bool {
    let k = first_index(event_names(m.events@), event);
    k >= 0 && m.events@[k].actions@.len() > 0 && m.events@[k].actions@.last() == action
}


/// When a timed-action tool succeeds, its action stands at the end of the
/// event it names, in the maneuver, maneuver group, act and story it names
/// for the entity.
pub proof fn lemma_timed_action_lands(
    o: Scenario,
    n: Scenario,
    r: Result<String, String>,
    story: Seq<char>,
    entity: Seq<char>,
    event: Seq<char>,
    action: Action,
    check: Option<ScenarioErrorView>,
    start: Option<Real>,
    start_text: Seq<char>,
    text: Seq<char>,
)
    requires
        timed_action_tool(o, n, r, story, entity, event, action, check, start, start_text, text),
        r is Ok,
    ensures
        maneuver_path(n.spec_storyboard(), story, act_of(story), group_of(entity), maneuver_of(entity), in_group_label())
            matches Ok((si, ai, gi, mi)) && event_ends_with(
            n.spec_storyboard().stories@[si].acts@[ai].maneuver_groups@[gi].maneuvers@[mi], event, action),
{
    let (s5, s6, r6) = choose|s5: Scenario, s6: Scenario, r6: Result<(), ScenarioError>|
        #[trigger] timed_action_steps(o, s5, s6, r6, n, r, story, entity, event, action, check, start, start_text, text);
    let act = act_of(story);
    let mg = group_of(entity);
    let man = maneuver_of(entity);
    assert(r6 is Ok);
    assert(check is None);
    let b6 = s6.spec_storyboard();
    lemma_action_read_back(s5.spec_storyboard(), b6, r6, story, act, mg, man, event, action);
    match start {
        None => {},
        Some(t) => {
            let (tg, r7) = choose|tg: Trigger, r7: Result<(), ScenarioError>|
                #[trigger] start_set(s6, n, r, tg, r7, story, t, start_text, text + hierarchy_text(story, entity, event));
            assert(r7 is Ok);
            let bn = n.spec_storyboard();
            lemma_act_trigger_read_back(b6, bn, r7, story, act, tg);
            let si = first_index(story_names(b6.stories@), story);
            let ai = first_index(act_names(b6.stories@[si].acts@), act);
            assert(bn.stories@[si].acts@[ai].maneuver_groups == b6.stories@[si].acts@[ai].maneuver_groups);
            assert(maneuver_path(bn, story, act, mg, man, in_group_label()) == maneuver_path(b6, story, act, mg, man,
                in_group_label()));
        },
    }
}


/// What the lane-position tool stores reads back: once the position is
/// accepted, the entity (by its trimmed name) starts on the given road and
/// lane, at the given `s` and lateral offset, without orientation.
pub proof fn lemma_lane_tool_reads_back(
    old: Scenario,
    new: Scenario,
    entity: Seq<char>,
    p: Position,
    road: Seq<char>,
    lane: i32,
    s: Real,
    offset: Real,
)
    requires
        lane_position(p, road, lane, s, offset),
        Scenario::position_change(&old, &new, entity, p),
        old.position_outcome(entity, p) is Ok,
    ensures
        position_index(new.spec_initial_positions(), spec_trim(entity)) >= 0,
        new.spec_initial_positions()[position_index(new.spec_initial_positions(), spec_trim(entity))].position matches
            Position::Lane { road_id, lane_id, s: s2, offset: o2, orientation } && road_id@ == road && lane_id == lane && s2
            == s && o2 == offset && orientation is None,
{
    lemma_position_read_back(old, new, entity, p);
}

/// When the speed tool succeeds, the event "speed_event" of the entity's
/// maneuver ends with a speed change to the given speed, linear in time over
/// the given duration.
pub proof fn lemma_speed_tool_action(
    o: Scenario,
    n: Scenario,
    r: Result<String, String>,
    story: Seq<char>,
    entity: Seq<char>,
    speed: Real,
    duration: Real,
    check: Option<ScenarioErrorView>,
    start: Option<Real>,
    start_text: Seq<char>,
    text: Seq<char>,
)
    requires
        timed_action_tool(o, n, r, story, entity, "speed_event"@, Action::Speed(SpeedAction {
            target_speed: speed,
            dynamics: linear_over(duration),
        }), check, start, start_text, text),
        r is Ok,
    ensures
        maneuver_path(n.spec_storyboard(), story, act_of(story), group_of(entity), maneuver_of(entity), in_group_label())
            matches Ok((si, ai, gi, mi)) && event_ends_with(
            n.spec_storyboard().stories@[si].acts@[ai].maneuver_groups@[gi].maneuvers@[mi],
            "speed_event"@,
            Action::Speed(SpeedAction {
                target_speed: speed,
                dynamics: TransitionDynamics { shape: DynamicsShape::Linear, dimension: DynamicsDimension::Time, value: duration },
            }),
        ),
{
    lemma_timed_action_lands(o, n, r, story, entity, "speed_event"@, Action::Speed(SpeedAction {
        target_speed: speed,
        dynamics: linear_over(duration),
    }), check, start, start_text, text);
}

/// Every maneuver has an event.
pub open spec fn maneuvers_have_events(ms: Seq<Maneuver>) -> bool {
    forall|i: int| 0 <= i < ms.len() ==> (#[trigger] ms[i]).events@.len() > 0
}

/// A maneuver group is complete: it has an actor and each of its maneuvers has an event.
pub open spec fn group_complete(g: ManeuverGroup) -> bool {
    g.actors@.len() > 0 && maneuvers_have_events(g.maneuvers@)
}

/// An act is complete: it has a maneuver group and each group is complete.
pub open spec fn act_complete(a: Act) -> bool {
    a.maneuver_groups@.len() > 0 && forall|i: int| 0 <= i < a.maneuver_groups@.len() ==> group_complete(
        #[trigger] a.maneuver_groups@[i])
}

/// A story is complete: it has an act and each act is complete.
pub open spec fn story_complete(s: Story) -> bool {
    s.acts@.len() > 0 && forall|i: int| 0 <= i < s.acts@.len() ==> act_complete(#[trigger] s.acts@[i])
}

/// The entity called `name` has an initial position or an initial speed.
pub open spec fn placed(sc: Scenario, name: Seq<char>) -> bool {
    position_index(sc.spec_initial_positions(), name) >= 0 || speed_index(sc.spec_initial_speeds(), name) >= 0
}

/// The structure of a scenario is complete: every story, act, maneuver group
/// and maneuver has what it needs, and every entity is placed.
pub open spec fn structure_complete(sc: Scenario) -> bool {
    &&& forall|i: int| 0 <= i < sc.spec_storyboard().stories@.len() ==> story_complete(
        #[trigger] sc.spec_storyboard().stories@[i])
    &&& forall|i: int| 0 <= i < sc.spec_entities().len() ==> placed(sc, (#[trigger] sc.spec_entities()[i]).spec_name())
}

/// The issues hold no error and no warning.
pub open spec fn no_issues(i: Issues) -> bool {
    i.errors.len() == 0 && i.warnings.len() == 0
}

proof fn lemma_maneuver_errors_empty(mg: Seq<char>, ms: Seq<Maneuver>)
    ensures
        (maneuver_errors(mg, ms).len() == 0) == maneuvers_have_events(ms),
    decreases ms.len(),
{
    if ms.len() > 0 {
        lemma_maneuver_errors_empty(mg, ms.drop_last());
        if maneuvers_have_events(ms) {
            assert forall|i: int| 0 <= i < ms.drop_last().len() implies (#[trigger] ms.drop_last()[i]).events@.len() > 0 by {
                assert(ms.drop_last()[i] == ms[i]);
            }
            assert(ms.last() == ms[ms.len() - 1]);
        } else {
            let k = choose|i: int| 0 <= i < ms.len() && !((#[trigger] ms[i]).events@.len() > 0);
            if k < ms.len() - 1 {
                assert(ms.drop_last()[k] == ms[k]);
            }
        }
    }
}

proof fn lemma_groups_issues_empty(act: Seq<char>, gs: Seq<ManeuverGroup>)
    ensures
        no_issues(groups_issues(act, gs)) == forall|i: int| 0 <= i < gs.len() ==> group_complete(#[trigger] gs[i]),
    decreases gs.len(),
{
    if gs.len() > 0 {
        let init = gs.drop_last();
        lemma_groups_issues_empty(act, init);
        lemma_maneuver_errors_empty(gs.last().name@, gs.last().maneuvers@);
        if forall|i: int| 0 <= i < gs.len() ==> group_complete(#[trigger] gs[i]) {
            assert forall|i: int| 0 <= i < init.len() implies group_complete(#[trigger] init[i]) by {
                assert(init[i] == gs[i]);
            }
            assert(group_complete(gs[gs.len() - 1]));
        } else {
            let k = choose|i: int| 0 <= i < gs.len() && !group_complete(#[trigger] gs[i]);
            if k < gs.len() - 1 {
                assert(init[k] == gs[k]);
            }
        }
    }
}

proof fn lemma_acts_issues_empty(story: Seq<char>, acts: Seq<Act>)
    ensures
        no_issues(acts_issues(story, acts)) == forall|i: int| 0 <= i < acts.len() ==> act_complete(#[trigger] acts[i]),
    decreases acts.len(),
{
    if acts.len() > 0 {
        let init = acts.drop_last();
        let a = acts.last();
        lemma_acts_issues_empty(story, init);
        lemma_groups_issues_empty(a.name@, a.maneuver_groups@);
        if forall|i: int| 0 <= i < acts.len() ==> act_complete(#[trigger] acts[i]) {
            assert forall|i: int| 0 <= i < init.len() implies act_complete(#[trigger] init[i]) by {
                assert(init[i] == acts[i]);
            }
            assert(act_complete(acts[acts.len() - 1]));
        } else {
            let k = choose|i: int| 0 <= i < acts.len() && !act_complete(#[trigger] acts[i]);
            if k < acts.len() - 1 {
                assert(init[k] == acts[k]);
            }
        }
    }
}

proof fn lemma_stories_issues_empty(ss: Seq<Story>)
    ensures
        no_issues(stories_issues(ss)) == forall|i: int| 0 <= i < ss.len() ==> story_complete(#[trigger] ss[i]),
    decreases ss.len(),
{
    if ss.len() > 0 {
        let init = ss.drop_last();
        let s = ss.last();
        lemma_stories_issues_empty(init);
        lemma_acts_issues_empty(s.name@, s.acts@);
        if forall|i: int| 0 <= i < ss.len() ==> story_complete(#[trigger] ss[i]) {
            assert forall|i: int| 0 <= i < init.len() implies story_complete(#[trigger] init[i]) by {
                assert(init[i] == ss[i]);
            }
            assert(story_complete(ss[ss.len() - 1]));
        } else {
            let k = choose|i: int| 0 <= i < ss.len() && !story_complete(#[trigger] ss[i]);
            if k < ss.len() - 1 {
                assert(init[k] == ss[k]);
            }
        }
    }
}

proof fn lemma_entity_warnings_empty(sc: Scenario, es: Seq<Entity>)
    ensures
        (entity_warnings(sc, es).len() == 0) == forall|i: int| 0 <= i < es.len() ==> placed(sc, (#[trigger] es[i]).spec_name()),
    decreases es.len(),
{
    if es.len() > 0 {
        let init = es.drop_last();
        lemma_entity_warnings_empty(sc, init);
        if forall|i: int| 0 <= i < es.len() ==> placed(sc, (#[trigger] es[i]).spec_name()) {
            assert forall|i: int| 0 <= i < init.len() implies placed(sc, (#[trigger] init[i]).spec_name()) by {
                assert(init[i] == es[i]);
            }
            assert(placed(sc, es[es.len() - 1].spec_name()));
        } else {
            let k = choose|i: int| 0 <= i < es.len() && !placed(sc, (#[trigger] es[i]).spec_name());
            if k < es.len() - 1 {
                assert(init[k] == es[k]);
            }
        }
    }
}

/// The structure report says "No issues found" exactly when the structure
/// is complete; otherwise it is a report of errors and warnings.
pub proof fn lemma_clean_report_iff_complete(sc: Scenario)
    ensures
        no_issues(scenario_issues(sc)) == structure_complete(sc),
        structure_complete(sc) ==> inspection_report(scenario_issues(sc)) == "✅ Scenario validation passed: No issues found\n"@,
        !structure_complete(sc) ==> inspection_report(scenario_issues(sc)).subrange(0, 30) == "📋 Scenario Validation Report\n\n"@,
{
    lemma_stories_issues_empty(sc.spec_storyboard().stories@);
    lemma_entity_warnings_empty(sc, sc.spec_entities());
    if !structure_complete(sc) {
        let head = "📋 Scenario Validation Report\n\n"@;
        reveal_strlit("📋 Scenario Validation Report\n\n");
        let rest = inspection_report(scenario_issues(sc));
        assert(head.len() == 30);
        assert(rest.subrange(0, 30) =~= head);
    }
}


proof fn lemma_maneuver_errors_contain(mg: Seq<char>, ms: Seq<Maneuver>, i: int)
    requires
        0 <= i < ms.len(),
        ms[i].events@.len() == 0,
    ensures
        maneuver_errors(mg, ms).contains(eventless_maneuver(ms[i].name@, mg)),
    decreases ms.len(),
{
    let e = eventless_maneuver(ms[i].name@, mg);
    if i == ms.len() - 1 {
        let tail = seq![e];
        assert(maneuver_errors(mg, ms) == maneuver_errors(mg, ms.drop_last()) + tail);
        assert(maneuver_errors(mg, ms)[maneuver_errors(mg, ms.drop_last()).len() as int] == e);
    } else {
        assert(ms.drop_last()[i] == ms[i]);
        lemma_maneuver_errors_contain(mg, ms.drop_last(), i);
        let k = choose|k: int| 0 <= k < maneuver_errors(mg, ms.drop_last()).len() && maneuver_errors(mg, ms.drop_last())[k] == e;
        assert(maneuver_errors(mg, ms)[k] == e);
    }
}

proof fn lemma_groups_issues_contain(act: Seq<char>, gs: Seq<ManeuverGroup>, i: int, e: Seq<char>)
    requires
        0 <= i < gs.len(),
        group_issues(act, gs[i]).errors.contains(e),
    ensures
        groups_issues(act, gs).errors.contains(e),
    decreases gs.len(),
{
    let init = groups_issues(act, gs.drop_last()).errors;
    if i == gs.len() - 1 {
        let k = choose|k: int| 0 <= k < group_issues(act, gs[i]).errors.len() && group_issues(act, gs[i]).errors[k] == e;
        assert(groups_issues(act, gs).errors[init.len() + k] == e);
    } else {
        assert(gs.drop_last()[i] == gs[i]);
        lemma_groups_issues_contain(act, gs.drop_last(), i, e);
        let k = choose|k: int| 0 <= k < init.len() && init[k] == e;
        assert(groups_issues(act, gs).errors[k] == e);
    }
}

proof fn lemma_acts_issues_contain(story: Seq<char>, acts: Seq<Act>, i: int, e: Seq<char>)
    requires
        0 <= i < acts.len(),
        act_issues(story, acts[i]).errors.contains(e),
    ensures
        acts_issues(story, acts).errors.contains(e),
    decreases acts.len(),
{
    let init = acts_issues(story, acts.drop_last()).errors;
    if i == acts.len() - 1 {
        let k = choose|k: int| 0 <= k < act_issues(story, acts[i]).errors.len() && act_issues(story, acts[i]).errors[k] == e;
        assert(acts_issues(story, acts).errors[init.len() + k] == e);
    } else {
        assert(acts.drop_last()[i] == acts[i]);
        lemma_acts_issues_contain(story, acts.drop_last(), i, e);
        let k = choose|k: int| 0 <= k < init.len() && init[k] == e;
        assert(acts_issues(story, acts).errors[k] == e);
    }
}

proof fn lemma_stories_issues_contain(ss: Seq<Story>, i: int, e: Seq<char>)
    requires
        0 <= i < ss.len(),
        story_issues(ss[i]).errors.contains(e),
    ensures
        stories_issues(ss).errors.contains(e),
    decreases ss.len(),
{
    let init = stories_issues(ss.drop_last()).errors;
    if i == ss.len() - 1 {
        let k = choose|k: int| 0 <= k < story_issues(ss[i]).errors.len() && story_issues(ss[i]).errors[k] == e;
        assert(stories_issues(ss).errors[init.len() + k] == e);
    } else {
        assert(ss.drop_last()[i] == ss[i]);
        lemma_stories_issues_contain(ss.drop_last(), i, e);
        let k = choose|k: int| 0 <= k < init.len() && init[k] == e;
        assert(stories_issues(ss).errors[k] == e);
    }
}

proof fn lemma_story_error_reported(sc: Scenario, si: int, e: Seq<char>)
    requires
        0 <= si < sc.spec_storyboard().stories@.len(),
        story_issues(sc.spec_storyboard().stories@[si]).errors.contains(e),
    ensures
        scenario_issues(sc).errors.contains(e),
{
    let ss = sc.spec_storyboard().stories@;
    lemma_stories_issues_contain(ss, si, e);
    let k = choose|k: int| 0 <= k < stories_issues(ss).errors.len() && stories_issues(ss).errors[k] == e;
    assert(scenario_issues(sc).errors[k] == e);
}

/// Each story without acts, act without maneuver groups, and maneuver (of a
/// group of an act) without events is named by an error of the structure report.
pub proof fn lemma_empty_parts_reported(sc: Scenario, si: int, ai: int, gi: int, mi: int)
    requires
        0 <= si < sc.spec_storyboard().stories@.len(),
    ensures
        ({
            let s = sc.spec_storyboard().stories@[si];
            &&& s.acts@.len() == 0 ==> scenario_issues(sc).errors.contains(actless_story(s.name@))
            &&& 0 <= ai < s.acts@.len() && s.acts@[ai].maneuver_groups@.len() == 0 ==> scenario_issues(sc).errors.contains(
                groupless_act(s.acts@[ai].name@, s.name@))
            &&& 0 <= ai < s.acts@.len() && 0 <= gi < s.acts@[ai].maneuver_groups@.len() && 0 <= mi
                < s.acts@[ai].maneuver_groups@[gi].maneuvers@.len()
                && s.acts@[ai].maneuver_groups@[gi].maneuvers@[mi].events@.len() == 0 ==> scenario_issues(sc).errors.contains(
                eventless_maneuver(s.acts@[ai].maneuver_groups@[gi].maneuvers@[mi].name@,
                    s.acts@[ai].maneuver_groups@[gi].name@))
        }),
{
    let s = sc.spec_storyboard().stories@[si];
    if s.acts@.len() == 0 {
        let e = actless_story(s.name@);
        assert(story_issues(s).errors[0] == e);
        lemma_story_error_reported(sc, si, e);
    }
    if 0 <= ai < s.acts@.len() && s.acts@[ai].maneuver_groups@.len() == 0 {
        let a = s.acts@[ai];
        let e = groupless_act(a.name@, s.name@);
        assert(act_issues(s.name@, a).errors[0] == e);
        lemma_acts_issues_contain(s.name@, s.acts@, ai, e);
        lemma_story_error_reported(sc, si, e);
    }
    if 0 <= ai < s.acts@.len() && 0 <= gi < s.acts@[ai].maneuver_groups@.len() && 0 <= mi
        < s.acts@[ai].maneuver_groups@[gi].maneuvers@.len()
        && s.acts@[ai].maneuver_groups@[gi].maneuvers@[mi].events@.len() == 0 {
        let a = s.acts@[ai];
        let g = a.maneuver_groups@[gi];
        let e = eventless_maneuver(g.maneuvers@[mi].name@, g.name@);
        lemma_maneuver_errors_contain(g.name@, g.maneuvers@, mi);
        lemma_groups_issues_contain(a.name@, a.maneuver_groups@, gi, e);
        lemma_acts_issues_contain(s.name@, s.acts@, ai, e);
        lemma_story_error_reported(sc, si, e);
    }
}


/// The short form of a condition adder (reach position, time to collision,
/// collision, relative distance, stand still) does what its full form does
/// with no edge and no delay; only an unknown entity is reported as
/// `EntityNotFound` (naming the same entity) instead of `InvalidEntityRef`,
/// with the scenario unchanged either way.
pub proof fn lemma_short_form_is_full_form(
    o: Scenario,
    n: Scenario,
    r: Result<(), ScenarioError>,
    check: Option<ScenarioErrorView>,
    story: Seq<char>,
    act: Seq<char>,
    mg: Seq<char>,
    maneuver: Seq<char>,
    event: Seq<char>,
    watched: Seq<char>,
    cond: EntityCondition,
)
    requires
        Scenario::condition_outcome(&o, &n, r, Scenario::as_not_found(check), story, act, mg, maneuver, event, watched,
            cond, ConditionEdge::NoEdge, Real { bits: 0 }),
    ensures
        check matches Some(ScenarioErrorView::InvalidEntityRef { entity, available }) ==> (r matches Err(x) && x@
            == (ScenarioErrorView::EntityNotFound { entity, context: "entity condition"@ }) && n == o),
        !(check matches Some(ScenarioErrorView::InvalidEntityRef { .. })) ==> Scenario::condition_outcome(&o, &n, r, check,
            story, act, mg, maneuver, event, watched, cond, ConditionEdge::NoEdge, Real { bits: 0 }),
{
}


/// Entity names are stored trimmed: a name with leading or trailing
/// whitespace names no entity.
pub proof fn lemma_untrimmed_name_not_found(sc: Scenario, name: Seq<char>)
    requires
        sc.wf(),
        spec_trim(name) != name,
    ensures
        !sc.has_entity(name),
{
    if sc.has_entity(name) {
        let k = choose|k: int| 0 <= k < sc.names().len() && sc.names()[k] == name;
        assert(spec_trim(sc.names()[k]) == sc.names()[k]);
    }
}


/// Maneuver `man` of group `mg` of act `act` of story `story` is found at
/// `path` in `sb`, is `mm`, and its group has `count` maneuvers.
pub open spec fn found_at(sb: Storyboard, story: Seq<char>, act: Seq<char>, mg: Seq<char>, man: Seq<char>, path: (int, int, int, int), mm: Maneuver, count: nat) -> bool {
    &&& maneuver_path(sb, story, act, mg, man, in_group_label()) == Ok::<(int, int, int, int), ScenarioErrorView>(path)
    &&& sb.stories@[path.0].acts@[path.1].maneuver_groups@[path.2].maneuvers@[path.3] == mm
    &&& sb.stories@[path.0].acts@[path.1].maneuver_groups@[path.2].maneuvers@.len() == count
}

proof fn lemma_first_index_push(s: Seq<Seq<char>>, x: Seq<char>, y: Seq<char>)
    requires
        first_index(s, y) >= 0,
    ensures
        first_index(s.push(x), y) == first_index(s, y),
{
    let k = first_index(s, y);
    lemma_first_index_bounds(s, y);
    let t = s.push(x);
    assert forall|j: int| 0 <= j < k implies t[j] != y by {
        assert(t[j] == s[j]);
    }
    assert(t[k] == s[k]);
    lemma_first_index(t, y, k);
}

proof fn lemma_story_step_keeps(sb0: Storyboard, sb1: Storyboard, r: Result<(), ScenarioError>, story: Seq<char>, act: Seq<char>, mg: Seq<char>, man: Seq<char>, path: (int, int, int, int), mm: Maneuver, count: nat)
    requires
        story_added(sb0, sb1, r, story),
        found_at(sb0, story, act, mg, man, path, mm, count),
    ensures
        found_at(sb1, story, act, mg, man, path, mm, count),
{
    if !is_blank(story) && !story_names(sb0.stories@).contains(spec_trim(story)) {
        let si = path.0;
        lemma_found_refuses(sb0, story, act, mg, man, path, mm, count);
        lemma_first_index_bounds(story_names(sb0.stories@), story);
        assert(0 <= si < sb0.stories@.len());
        assert(story_names(sb1.stories@) =~= story_names(sb0.stories@).push(sb1.stories@.last().name@)) by {
            assert forall|j: int| 0 <= j < sb0.stories@.len() implies sb1.stories@[j] == sb0.stories@[j] by {
                assert(sb1.stories@.drop_last()[j] == sb0.stories@[j]);
            }
        }
        lemma_first_index_push(story_names(sb0.stories@), sb1.stories@.last().name@, story);
        assert(sb1.stories@.drop_last()[si] == sb0.stories@[si]);
        assert(sb1.stories@[si] == sb0.stories@[si]);
    }
}

proof fn lemma_found_refuses(sb: Storyboard, story: Seq<char>, act: Seq<char>, mg: Seq<char>, man: Seq<char>, path: (int, int, int, int), mm: Maneuver, count: nat)
    requires
        found_at(sb, story, act, mg, man, path, mm, count),
    ensures
        act_names(sb.stories@[path.0].acts@).contains(act),
        group_names(sb.stories@[path.0].acts@[path.1].maneuver_groups@).contains(mg),
        maneuver_names(sb.stories@[path.0].acts@[path.1].maneuver_groups@[path.2].maneuvers@).contains(man),
        group_path(sb, story, act, mg) == Ok::<(int, int, int), ScenarioErrorView>((path.0, path.1, path.2)),
        act_path(sb, story, act) == Ok::<(int, int), ScenarioErrorView>((path.0, path.1)),
        story_path(sb, story) == Ok::<int, ScenarioErrorView>(path.0),
{
    let s = sb.stories@[path.0];
    let a = s.acts@[path.1];
    let g = a.maneuver_groups@[path.2];
    lemma_first_index_bounds(story_names(sb.stories@), story);
    lemma_first_index_bounds(act_names(s.acts@), act);
    lemma_first_index_bounds(group_names(a.maneuver_groups@), mg);
    lemma_first_index_bounds(maneuver_names(g.maneuvers@), man);
}

proof fn lemma_actor_step_keeps(s4: Scenario, s5: Scenario, r: Result<(), ScenarioError>, story: Seq<char>, act: Seq<char>, mg: Seq<char>, man: Seq<char>, entity: Seq<char>, path: (int, int, int, int), mm: Maneuver, count: nat)
    requires
        Scenario::actor_step(&s4, &s5, r, story, act, mg, entity),
        found_at(s4.spec_storyboard(), story, act, mg, man, path, mm, count),
    ensures
        found_at(s5.spec_storyboard(), story, act, mg, man, path, mm, count),
{
    let b4 = s4.spec_storyboard();
    let b5 = s5.spec_storyboard();
    if !is_blank(entity) && s4.has_entity(spec_trim(entity)) {
        lemma_found_refuses(b4, story, act, mg, man, path, mm, count);
        let (si, ai, gi) = (path.0, path.1, path.2);
        let os = b4.stories@[si];
        let ns = b5.stories@[si];
        let oa = os.acts@[ai];
        let na = ns.acts@[ai];
        assert(story_names(b5.stories@) =~= story_names(b4.stories@)) by {
            assert forall|j: int| 0 <= j < b4.stories@.len() implies b5.stories@[j].name == b4.stories@[j].name by {
                if j != si {
                    assert(b5.stories@[j] == b4.stories@[j]);
                }
            }
        }
        assert(act_names(ns.acts@) =~= act_names(os.acts@)) by {
            assert forall|j: int| 0 <= j < os.acts@.len() implies ns.acts@[j].name == os.acts@[j].name by {
                if j != ai {
                    assert(ns.acts@[j] == os.acts@[j]);
                }
            }
        }
        assert(group_names(na.maneuver_groups@) =~= group_names(oa.maneuver_groups@)) by {
            assert forall|j: int| 0 <= j < oa.maneuver_groups@.len() implies na.maneuver_groups@[j].name
                == oa.maneuver_groups@[j].name by {
                if j != gi {
                    assert(na.maneuver_groups@[j] == oa.maneuver_groups@[j]);
                }
            }
        }
    }
}

/// A second timed-action tool call for the same story, entity and event
/// reuses what the first one laid out: the maneuver is found at the same
/// place, its group gets no further maneuver, and the event that ends with
/// the first call's action gets the second call's action right after it.
pub proof fn lemma_second_timed_action_reuses(
    o: Scenario,
    m: Scenario,
    n: Scenario,
    r1: Result<String, String>,
    r2: Result<String, String>,
    story: Seq<char>,
    entity: Seq<char>,
    event: Seq<char>,
    a1: Action,
    a2: Action,
    c1: Option<ScenarioErrorView>,
    c2: Option<ScenarioErrorView>,
    st1: Option<Real>,
    st2: Option<Real>,
    tt1: Seq<char>,
    tt2: Seq<char>,
    x1: Seq<char>,
    x2: Seq<char>,
)
    requires
        timed_action_tool(o, m, r1, story, entity, event, a1, c1, st1, tt1, x1),
        r1 is Ok,
        timed_action_tool(m, n, r2, story, entity, event, a2, c2, st2, tt2, x2),
        r2 is Ok,
    ensures
        ({
            let act = act_of(story);
            let mg = group_of(entity);
            let man = maneuver_of(entity);
            let bm = m.spec_storyboard();
            let bn = n.spec_storyboard();
            maneuver_path(bm, story, act, mg, man, in_group_label()) matches Ok((si, ai, gi, mi)) && {
                let mm = bm.stories@[si].acts@[ai].maneuver_groups@[gi].maneuvers@[mi];
                let nm = bn.stories@[si].acts@[ai].maneuver_groups@[gi].maneuvers@[mi];
                let k = first_index(event_names(mm.events@), event);
                &&& maneuver_path(bn, story, act, mg, man, in_group_label()) == maneuver_path(bm, story, act, mg, man,
                    in_group_label())
                &&& bn.stories@[si].acts@[ai].maneuver_groups@[gi].maneuvers@.len()
                    == bm.stories@[si].acts@[ai].maneuver_groups@[gi].maneuvers@.len()
                &&& 0 <= k && mm.events@[k].actions@.last() == a1
                &&& first_index(event_names(nm.events@), event) == k
                &&& nm.events@[k].actions@ == mm.events@[k].actions@.push(a2)
            }
        }),
{
    let act = act_of(story);
    let mg = group_of(entity);
    let man = maneuver_of(entity);
    let bm = m.spec_storyboard();
    lemma_timed_action_lands(o, m, r1, story, entity, event, a1, c1, st1, tt1, x1);
    let path = match maneuver_path(bm, story, act, mg, man, in_group_label()) {
        Ok(p) => p,
        Err(_) => (0, 0, 0, 0),
    };
    let (si, ai, gi, mi) = path;
    let mm = bm.stories@[si].acts@[ai].maneuver_groups@[gi].maneuvers@[mi];
    let count = bm.stories@[si].acts@[ai].maneuver_groups@[gi].maneuvers@.len();
    assert(found_at(bm, story, act, mg, man, path, mm, count));
    // The second call: layout, action, start.
    let (s5, s6, r6) = choose|s5: Scenario, s6: Scenario, r6: Result<(), ScenarioError>|
        #[trigger] timed_action_steps(m, s5, s6, r6, n, r2, story, entity, event, a2, c2, st2, tt2, x2);
    let (s1, s2, s3, s4, q1, q2, q3, q4, q5) = choose|s1: Scenario, s2: Scenario, s3: Scenario, s4: Scenario,
        q1: Result<(), ScenarioError>, q2: Result<(), ScenarioError>, q3: Result<(), ScenarioError>,
        q4: Result<(), ScenarioError>, q5: Result<(), ScenarioError>|
        #[trigger] scaffold_steps(m, s1, s2, s3, s4, s5, q1, q2, q3, q4, q5, story, entity);
    lemma_story_step_keeps(bm, s1.spec_storyboard(), q1, story, act, mg, man, path, mm, count);
    lemma_found_refuses(s1.spec_storyboard(), story, act, mg, man, path, mm, count);
    assert(s2.spec_storyboard() == s1.spec_storyboard());
    assert(s3.spec_storyboard() == s2.spec_storyboard());
    assert(s4.spec_storyboard() == s3.spec_storyboard());
    lemma_actor_step_keeps(s4, s5, q5, story, act, mg, man, entity, path, mm, count);
    assert(r6 is Ok);
    let b5 = s5.spec_storyboard();
    let b6 = s6.spec_storyboard();
    lemma_action_read_back(b5, b6, r6, story, act, mg, man, event, a2);
    lemma_first_index_bounds(event_names(mm.events@), event);
    let nm6 = b6.stories@[si].acts@[ai].maneuver_groups@[gi].maneuvers@[mi];
    let k = first_index(event_names(mm.events@), event);
    assert(event_names(nm6.events@) =~= event_names(mm.events@)) by {
        assert forall|j: int| 0 <= j < mm.events@.len() implies nm6.events@[j].name == mm.events@[j].name by {
            if j != k {
                assert(nm6.events@[j] == mm.events@[j]);
            }
        }
    }
    match st2 {
        None => {},
        Some(t) => {
            let (tg, r7) = choose|tg: Trigger, r7: Result<(), ScenarioError>|
                #[trigger] start_set(s6, n, r2, tg, r7, story, t, tt2, x2 + hierarchy_text(story, entity, event));
            assert(r7 is Ok);
            let bn = n.spec_storyboard();
            lemma_act_trigger_read_back(b6, bn, r7, story, act, tg);
            assert(bn.stories@[si].acts@[ai].maneuver_groups == b6.stories@[si].acts@[ai].maneuver_groups);
            assert(maneuver_path(bn, story, act, mg, man, in_group_label()) == maneuver_path(b6, story, act, mg, man,
                in_group_label()));
        },
    }
}

} // verus!

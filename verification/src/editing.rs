//! Finding storyboard elements by name, and changing one of them.
//!
//! A path names a story, an act in it, a maneuver group in the act, and so on.
//! Stories, acts and maneuver groups are found by their (distinct) names;
//! maneuvers and events by the first of that name.
use vstd::prelude::*;
use crate::error::{ScenarioError, ScenarioErrorView, blank_name_reason};
use crate::storyboard::{
    Action, Act, Event, Maneuver, ManeuverGroup, Story, Storyboard, Trigger, act_names, event_names,
    event_got_action, event_got_trigger, find_act, find_event, find_group, find_maneuver, find_story,
    group_names, maneuver_names, only_act_at, only_group_at, only_maneuver_at, only_story_changed, story_names,
};
use crate::text::{
    blank, concat3, contains_text, distinct, first_index, is_blank, lemma_first_index_bounds, owned,
    spec_trim, trim, views,
};

verus! {

/// Story names are distinct, act names are distinct within each story and
/// maneuver-group names are distinct within each act.
pub open spec fn storyboard_wf(sb: Storyboard) -> bool {
    &&& distinct(story_names(sb.stories@))
    &&& forall|i: int| 0 <= i < sb.stories@.len() ==> story_wf(#[trigger] sb.stories@[i])
}

/// Act names are distinct, and so are the maneuver-group names of each act.
pub open spec fn story_wf(s: Story) -> bool {
    &&& distinct(act_names(s.acts@))
    &&& forall|i: int| 0 <= i < s.acts@.len() ==> distinct(group_names((#[trigger] s.acts@[i]).maneuver_groups@))
}

/// The error for a story that is not there.
pub open spec fn story_missing(sb: Storyboard, story: Seq<char>) -> ScenarioErrorView {
    ScenarioErrorView::StoryNotFound { name: story, available: story_names(sb.stories@) }
}

/// The error for an act that is not in its story.
pub open spec fn act_missing(story: Seq<char>, act: Seq<char>) -> ScenarioErrorView {
    ScenarioErrorView::EntityNotFound { entity: act, context: "Act in story '"@ + story + "'"@ }
}

/// The error for a maneuver group that is not in its act.
pub open spec fn group_missing(act: Seq<char>, mg: Seq<char>) -> ScenarioErrorView {
    ScenarioErrorView::EntityNotFound { entity: mg, context: "ManeuverGroup in act '"@ + act + "'"@ }
}

/// The error for a maneuver that is not in its group; `within` starts the context.
pub open spec fn maneuver_missing(within: Seq<char>, mg: Seq<char>, maneuver: Seq<char>) -> ScenarioErrorView {
    ScenarioErrorView::EntityNotFound { entity: maneuver, context: within + mg + "'"@ }
}

/// The error for an event that is not in its maneuver.
pub open spec fn event_missing(maneuver: Seq<char>, event: Seq<char>) -> ScenarioErrorView {
    ScenarioErrorView::EntityNotFound { entity: event, context: "Event in maneuver '"@ + maneuver + "'"@ }
}

/// How most operations name a missing maneuver.
pub open spec fn in_group_label() -> Seq<char> {
    "Maneuver in ManeuverGroup '"@
}

/// Where the story is, or the error for it.
pub open spec fn story_path(sb: Storyboard, story: Seq<char>) -> Result<int, ScenarioErrorView> {
    let si = first_index(story_names(sb.stories@), story);
    if si < 0 {
        Err(story_missing(sb, story))
    } else {
        Ok(si)
    }
}

/// Where the act is, or the error for the first missing element.
pub open spec fn act_path(sb: Storyboard, story: Seq<char>, act: Seq<char>) -> Result<(int, int), ScenarioErrorView> {
    match story_path(sb, story) {
        Err(e) => Err(e),
        Ok(si) => {
            let ai = first_index(act_names(sb.stories@[si].acts@), act);
            if ai < 0 {
                Err(act_missing(story, act))
            } else {
                Ok((si, ai))
            }
        },
    }
}

/// Where the maneuver group is, or the error for the first missing element.
pub open spec fn group_path(sb: Storyboard, story: Seq<char>, act: Seq<char>, mg: Seq<char>) -> Result<(int, int, int), ScenarioErrorView> {
    match act_path(sb, story, act) {
        Err(e) => Err(e),
        Ok((si, ai)) => {
            let gi = first_index(group_names(sb.stories@[si].acts@[ai].maneuver_groups@), mg);
            if gi < 0 {
                Err(group_missing(act, mg))
            } else {
                Ok((si, ai, gi))
            }
        },
    }
}

/// Where the maneuver is, or the error for the first missing element.
pub open spec fn maneuver_path(
    sb: Storyboard,
    story: Seq<char>,
    act: Seq<char>,
    mg: Seq<char>,
    maneuver: Seq<char>,
    within: Seq<char>,
) -> Result<(int, int, int, int), ScenarioErrorView> {
    match group_path(sb, story, act, mg) {
        Err(e) => Err(e),
        Ok((si, ai, gi)) => {
            let mi = first_index(maneuver_names(sb.stories@[si].acts@[ai].maneuver_groups@[gi].maneuvers@), maneuver);
            if mi < 0 {
                Err(maneuver_missing(within, mg, maneuver))
            } else {
                Ok((si, ai, gi, mi))
            }
        },
    }
}

/// The result of adding `action` to an event: the path error, with the
/// storyboard unchanged, or the action added to the event (created when missing).
pub open spec fn action_added(
    old: Storyboard,
    new: Storyboard,
    r: Result<(), ScenarioError>,
    story: Seq<char>,
    act: Seq<char>,
    mg: Seq<char>,
    maneuver: Seq<char>,
    event: Seq<char>,
    action: Action,
) -> bool {
    match maneuver_path(old, story, act, mg, maneuver, in_group_label()) {
        Err(e) => r matches Err(x) && x@ == e && new == old,
        Ok((si, ai, gi, mi)) => r is Ok && only_maneuver_at(old, new, si, ai, gi, mi,
            |om: Maneuver, nm: Maneuver| event_got_action(om, nm, event, action)),
    }
}

/// The result of giving an event a start trigger: the path error, with the
/// storyboard unchanged, or the trigger set on the event (created when missing).
pub open spec fn trigger_put(
    old: Storyboard,
    new: Storyboard,
    r: Result<(), ScenarioError>,
    story: Seq<char>,
    act: Seq<char>,
    mg: Seq<char>,
    maneuver: Seq<char>,
    event: Seq<char>,
    trigger: Trigger,
) -> bool {
    match maneuver_path(old, story, act, mg, maneuver, in_group_label()) {
        Err(e) => r matches Err(x) && x@ == e && new == old,
        Ok((si, ai, gi, mi)) => r is Ok && only_maneuver_at(old, new, si, ai, gi, mi,
            |om: Maneuver, nm: Maneuver| event_got_trigger(om, nm, event, trigger)),
    }
}

/// A freshly made act called `name`.
pub open spec fn fresh_act(a: Act, name: Seq<char>) -> bool {
    a.name@ == name && a.maneuver_groups@.len() == 0 && a.start_trigger is None
}

/// The result of adding a story: an error for a blank name or a trimmed name
/// that is taken (reported as `StoryNotFound`), with nothing changed; otherwise
/// an empty story under the trimmed name at the end.
pub open spec fn story_added(old: Storyboard, new: Storyboard, r: Result<(), ScenarioError>, name: Seq<char>) -> bool {
    if is_blank(name) {
        r matches Err(x) && x@ == (ScenarioErrorView::InvalidValue { field: "story name"@, reason: blank_name_reason() })
            && new == old
    } else if story_names(old.stories@).contains(spec_trim(name)) {
        r matches Err(x) && x@ == story_missing(old, spec_trim(name)) && new == old
    } else {
        &&& r is Ok
        &&& new.stop_trigger == old.stop_trigger
        &&& new.stories@.len() == old.stories@.len() + 1
        &&& new.stories@.drop_last() == old.stories@
        &&& new.stories@.last().name@ == spec_trim(name)
        &&& new.stories@.last().acts@.len() == 0
    }
}

/// `ns` is `os` with a fresh act called `act` added at the end.
pub open spec fn story_got_act(os: Story, ns: Story, act: Seq<char>) -> bool {
    &&& ns.name == os.name
    &&& ns.acts@.len() == os.acts@.len() + 1
    &&& ns.acts@.drop_last() == os.acts@
    &&& fresh_act(ns.acts@.last(), act)
}

/// The error for an act name that its story already has.
pub open spec fn act_taken(story: Seq<char>, act: Seq<char>) -> ScenarioErrorView {
    ScenarioErrorView::EntityNotFound { entity: act, context: "Act already exists in story '"@ + story + "'"@ }
}

/// The result of adding an act to a story: the story must exist and must not
/// have an act of that name yet; then a fresh act is added at the end.
pub open spec fn act_added(old: Storyboard, new: Storyboard, r: Result<(), ScenarioError>, story: Seq<char>, act: Seq<char>) -> bool {
    match story_path(old, story) {
        Err(e) => r matches Err(x) && x@ == e && new == old,
        Ok(si) => if act_names(old.stories@[si].acts@).contains(act) {
            r matches Err(x) && x@ == act_taken(story, act) && new == old
        } else {
            r is Ok && only_story_changed(old, new, si, |os: Story, ns: Story| story_got_act(os, ns, act))
        },
    }
}

/// The result of setting the start trigger of an act.
pub open spec fn act_trigger_set(old: Storyboard, new: Storyboard, r: Result<(), ScenarioError>, story: Seq<char>, act: Seq<char>, trigger: Trigger) -> bool {
    match act_path(old, story, act) {
        Err(e) => r matches Err(x) && x@ == e && new == old,
        Ok((si, ai)) => r is Ok && only_act_at(old, new, si, ai, |oa: Act, na: Act|
            na.name == oa.name && na.maneuver_groups == oa.maneuver_groups && na.start_trigger == Some(trigger)),
    }
}

/// The error for a maneuver group name taken within an act.
pub open spec fn group_conflict(act: Seq<char>, mg: Seq<char>) -> ScenarioErrorView {
    ScenarioErrorView::EntityNotFound { entity: mg, context: "ManeuverGroup already exists in act '"@ + act + "'"@ }
}

/// The result of adding a maneuver group to an act.
pub open spec fn group_added(old: Storyboard, new: Storyboard, r: Result<(), ScenarioError>, story: Seq<char>, act: Seq<char>, mg: Seq<char>) -> bool {
    match act_path(old, story, act) {
        Err(e) => r matches Err(x) && x@ == e && new == old,
        Ok((si, ai)) => if group_names(old.stories@[si].acts@[ai].maneuver_groups@).contains(mg) {
            r matches Err(x) && x@ == group_conflict(act, mg) && new == old
        } else {
            r is Ok && only_act_at(old, new, si, ai, |oa: Act, na: Act| {
                &&& na.name == oa.name
                &&& na.start_trigger == oa.start_trigger
                &&& na.maneuver_groups@.len() == oa.maneuver_groups@.len() + 1
                &&& na.maneuver_groups@.drop_last() == oa.maneuver_groups@
                &&& na.maneuver_groups@.last().name@ == mg
                &&& na.maneuver_groups@.last().actors@.len() == 0
                &&& na.maneuver_groups@.last().maneuvers@.len() == 0
            })
        },
    }
}

/// The result of adding an actor to a maneuver group: it is added at the end
/// unless the group already has it.
pub open spec fn actor_added(old: Storyboard, new: Storyboard, r: Result<(), ScenarioError>, story: Seq<char>, act: Seq<char>, mg: Seq<char>, entity: Seq<char>) -> bool {
    match group_path(old, story, act, mg) {
        Err(e) => r matches Err(x) && x@ == e && new == old,
        Ok((si, ai, gi)) => r is Ok && only_group_at(old, new, si, ai, gi, |og: ManeuverGroup, ng: ManeuverGroup| {
            &&& ng.name == og.name
            &&& ng.maneuvers == og.maneuvers
            &&& views(ng.actors@) == (if views(og.actors@).contains(entity) { views(og.actors@) } else { views(og.actors@).push(entity) })
        }),
    }
}

/// The error for a maneuver name that its maneuver group already has.
pub open spec fn maneuver_taken(mg: Seq<char>, name: Seq<char>) -> ScenarioErrorView {
    ScenarioErrorView::EntityNotFound { entity: name, context: "Maneuver already exists in maneuver group '"@ + mg + "'"@ }
}

/// The result of adding a maneuver to a maneuver group: the group must exist
/// and must not have a maneuver of that name yet; then an empty maneuver is
/// added at the end.
pub open spec fn maneuver_added(old: Storyboard, new: Storyboard, r: Result<(), ScenarioError>, story: Seq<char>, act: Seq<char>, mg: Seq<char>, name: Seq<char>) -> bool {
    match group_path(old, story, act, mg) {
        Err(e) => r matches Err(x) && x@ == e && new == old,
        Ok((si, ai, gi)) => if maneuver_names(old.stories@[si].acts@[ai].maneuver_groups@[gi].maneuvers@).contains(name) {
            r matches Err(x) && x@ == maneuver_taken(mg, name) && new == old
        } else {
            r is Ok && only_group_at(old, new, si, ai, gi, |og: ManeuverGroup, ng: ManeuverGroup| {
                &&& ng.name == og.name
                &&& ng.actors == og.actors
                &&& ng.maneuvers@.len() == og.maneuvers@.len() + 1
                &&& ng.maneuvers@.drop_last() == og.maneuvers@
                &&& ng.maneuvers@.last().name@ == name
                &&& ng.maneuvers@.last().events@.len() == 0
            })
        },
    }
}

/// How a missing maneuver is named when an event's trigger is set.
pub open spec fn in_lower_group_label() -> Seq<char> {
    "Maneuver in maneuver group '"@
}

/// The result of setting the start trigger of an existing event.
pub open spec fn event_trigger_set(old: Storyboard, new: Storyboard, r: Result<(), ScenarioError>, story: Seq<char>, act: Seq<char>, mg: Seq<char>, maneuver: Seq<char>, event: Seq<char>, trigger: Trigger) -> bool {
    match maneuver_path(old, story, act, mg, maneuver, in_lower_group_label()) {
        Err(e) => r matches Err(x) && x@ == e && new == old,
        Ok((si, ai, gi, mi)) => if first_index(event_names(old.stories@[si].acts@[ai].maneuver_groups@[gi].maneuvers@[mi].events@), event) < 0 {
            r matches Err(x) && x@ == event_missing(maneuver, event) && new == old
        } else {
            r is Ok && only_maneuver_at(old, new, si, ai, gi, mi, |om: Maneuver, nm: Maneuver| event_got_trigger(om, nm, event, trigger))
        },
    }
}

/// A change to one maneuver keeps every name above it, so it keeps the invariant.
pub proof fn lemma_maneuver_change_keeps_wf(
    old: Storyboard,
    new: Storyboard,
    si: int,
    ai: int,
    gi: int,
    mi: int,
    f: spec_fn(Maneuver, Maneuver) -> bool,
)
    requires
        only_maneuver_at(old, new, si, ai, gi, mi, f),
    ensures
        storyboard_wf(old) ==> storyboard_wf(new),
{
    lemma_group_change_keeps_wf(old, new, si, ai, gi);
}

/// A change to one maneuver group that keeps its name keeps the invariant.
pub proof fn lemma_group_change_keeps_wf(
    old: Storyboard,
    new: Storyboard,
    si: int,
    ai: int,
    gi: int,
)
    requires
        only_group_at(old, new, si, ai, gi, |og: ManeuverGroup, ng: ManeuverGroup| ng.name == og.name),
    ensures
        storyboard_wf(old) ==> storyboard_wf(new),
{
    let os = old.stories@[si];
    let ns = new.stories@[si];
    let oa = os.acts@[ai];
    let na = ns.acts@[ai];
    assert(group_names(na.maneuver_groups@) =~= group_names(oa.maneuver_groups@)) by {
        assert forall|j: int| 0 <= j < oa.maneuver_groups@.len() implies
            na.maneuver_groups@[j].name == oa.maneuver_groups@[j].name by {
            if j != gi {
                assert(na.maneuver_groups@[j] == oa.maneuver_groups@[j]);
            }
        }
    }
    lemma_act_change_keeps_wf(old, new, si, ai);
}

/// A change to one act that keeps its name, and keeps its group names
/// distinct, keeps the invariant.
pub proof fn lemma_act_change_keeps_wf(
    old: Storyboard,
    new: Storyboard,
    si: int,
    ai: int,
)
    requires
        only_act_at(old, new, si, ai, |oa: Act, na: Act| oa.name == na.name
            && (distinct(group_names(oa.maneuver_groups@)) ==> distinct(group_names(na.maneuver_groups@)))),
    ensures
        storyboard_wf(old) ==> storyboard_wf(new),
{
    let os = old.stories@[si];
    let ns = new.stories@[si];
    assert(act_names(ns.acts@) =~= act_names(os.acts@)) by {
        assert forall|j: int| 0 <= j < os.acts@.len() implies ns.acts@[j].name == os.acts@[j].name by {
            if j != ai {
                assert(ns.acts@[j] == os.acts@[j]);
            }
        }
    }
    assert(story_names(new.stories@) =~= story_names(old.stories@)) by {
        assert forall|j: int| 0 <= j < old.stories@.len() implies new.stories@[j].name == old.stories@[j].name by {
            if j != si {
                assert(new.stories@[j] == old.stories@[j]);
            }
        }
    }
    if storyboard_wf(old) {
        assert forall|i: int| 0 <= i < new.stories@.len() implies story_wf(#[trigger] new.stories@[i]) by {
            if i != si {
                assert(new.stories@[i] == old.stories@[i]);
                assert(story_wf(old.stories@[i]));
            } else {
                assert(story_wf(os));
                assert forall|k: int| 0 <= k < ns.acts@.len() implies distinct(
                    group_names((#[trigger] ns.acts@[k]).maneuver_groups@)) by {
                    if k != ai {
                        assert(ns.acts@[k] == os.acts@[k]);
                    }
                    assert(distinct(group_names((#[trigger] os.acts@[k]).maneuver_groups@)));
                }
            }
        }
    }
}

/// A change to one story that keeps its name, and keeps it well formed, keeps the invariant.
pub proof fn lemma_story_change_keeps_wf(old: Storyboard, new: Storyboard, si: int)
    requires
        only_story_changed(old, new, si, |os: Story, ns: Story| ns.name == os.name && (story_wf(os) ==> story_wf(ns))),
    ensures
        storyboard_wf(old) ==> storyboard_wf(new),
{
    assert(story_names(new.stories@) =~= story_names(old.stories@)) by {
        assert forall|j: int| 0 <= j < old.stories@.len() implies new.stories@[j].name == old.stories@[j].name by {
            if j != si {
                assert(new.stories@[j] == old.stories@[j]);
            }
        }
    }
    if storyboard_wf(old) {
        assert forall|i: int| 0 <= i < new.stories@.len() implies story_wf(#[trigger] new.stories@[i]) by {
            if i != si {
                assert(new.stories@[i] == old.stories@[i]);
            }
            assert(story_wf(old.stories@[i]));
        }
    }
}

/// The first story, from the `i`-th on, that has an act named `act`, or -1.
pub open spec fn act_holder(stories: Seq<Story>, act: Seq<char>, i: int) -> int
    decreases stories.len() - i,
{
    if i < 0 || i >= stories.len() {
        -1
    } else if first_index(act_names(stories[i].acts@), act) >= 0 {
        i
    } else {
        act_holder(stories, act, i + 1)
    }
}

/// The error for an act that no story has.
pub open spec fn act_nowhere(act: Seq<char>) -> ScenarioErrorView {
    ScenarioErrorView::EntityNotFound { entity: act, context: "Act in any story"@ }
}

/// The start trigger of the first act named `act`, the stories taken in
/// order, or the error for an act that no story has.
pub open spec fn act_start_trigger_of(sb: Storyboard, act: Seq<char>) -> Result<Option<Trigger>, ScenarioErrorView> {
    let si = act_holder(sb.stories@, act, 0);
    if si < 0 {
        Err(act_nowhere(act))
    } else {
        Ok(sb.stories@[si].acts@[first_index(act_names(sb.stories@[si].acts@), act)].start_trigger)
    }
}

/// The start trigger of the first event named `event` of a maneuver, or the
/// error for the first missing element of the path.
pub open spec fn event_start_trigger_of(
    sb: Storyboard,
    story: Seq<char>,
    act: Seq<char>,
    mg: Seq<char>,
    maneuver: Seq<char>,
    event: Seq<char>,
) -> Result<Option<Trigger>, ScenarioErrorView> {
    match maneuver_path(sb, story, act, mg, maneuver, in_group_label()) {
        Err(e) => Err(e),
        Ok((si, ai, gi, mi)) => {
            let events = sb.stories@[si].acts@[ai].maneuver_groups@[gi].maneuvers@[mi].events@;
            let ei = first_index(event_names(events), event);
            if ei < 0 {
                Err(event_missing(maneuver, event))
            } else {
                Ok(events[ei].start_trigger)
            }
        },
    }
}

impl Storyboard {
    /// The names of the stories, in order.
    /// The start trigger of the first act named `act`, the stories taken in order.
    pub fn act_start_trigger(&self, act: &str) -> (r: Result<&Option<Trigger>, ScenarioError>)
        ensures
            match act_start_trigger_of(*self, act@) {
                Ok(t) => r matches Ok(x) && *x == t,
                Err(e) => r matches Err(x) && x@ == e,
            },
    {
        let mut i: usize = 0;
        while i < self.stories.len()
            invariant
                i <= self.stories@.len(),
                act_holder(self.stories@, act@, i as int) == act_holder(self.stories@, act@, 0),
            decreases self.stories@.len() - i,
        {
            match find_act(&self.stories[i].acts, act) {
                Some(ai) => {
                    return Ok(&self.stories[i].acts[ai].start_trigger);
                },
                None => {},
            }
            i = i + 1;
        }
        Err(ScenarioError::EntityNotFound { entity: owned(act), context: owned("Act in any story") })
    }

    /// The start trigger of the first event named `event` of a maneuver.
    pub fn event_start_trigger(&self, story: &str, act: &str, mg: &str, maneuver: &str, event: &str) -> (r: Result<
        &Option<Trigger>,
        ScenarioError,
    >)
        ensures
            match event_start_trigger_of(*self, story@, act@, mg@, maneuver@, event@) {
                Ok(t) => r matches Ok(x) && *x == t,
                Err(e) => r matches Err(x) && x@ == e,
            },
    {
        let (si, ai, gi, mi) = self.locate_maneuver(story, act, mg, maneuver, "Maneuver in ManeuverGroup '")?;
        let events = &self.stories[si].acts[ai].maneuver_groups[gi].maneuvers[mi].events;
        match find_event(events, event) {
            Some(ei) => Ok(&events[ei].start_trigger),
            None => Err(ScenarioError::EntityNotFound {
                entity: owned(event),
                context: concat3("Event in maneuver '", maneuver, "'"),
            }),
        }
    }

    pub fn story_list(&self) -> (r: Vec<String>)
        ensures
            views(r@) == story_names(self.stories@),
    {
        let mut r: Vec<String> = Vec::new();
        let mut i: usize = 0;
        while i < self.stories.len()
            invariant
                i <= self.stories@.len(),
                r@.len() == i,
                forall|j: int| 0 <= j < i ==> r@[j]@ == self.stories@[j].name@,
            decreases self.stories@.len() - i,
        {
            r.push(self.stories[i].name.clone());
            i = i + 1;
        }
        assert(views(r@) =~= story_names(self.stories@));
        r
    }

    /// Finds a story.
    pub fn locate_story(&self, story: &str) -> (r: Result<usize, ScenarioError>)
        ensures
            match story_path(*self, story@) {
                Ok(si) => r matches Ok(i) && i == si && i < self.stories@.len(),
                Err(e) => r matches Err(x) && x@ == e,
            },
    {
        match find_story(&self.stories, story) {
            Some(i) => Ok(i),
            None => Err(ScenarioError::StoryNotFound { name: owned(story), available: self.story_list() }),
        }
    }

    /// Finds an act.
    pub fn locate_act(&self, story: &str, act: &str) -> (r: Result<(usize, usize), ScenarioError>)
        ensures
            match act_path(*self, story@, act@) {
                Ok((si, ai)) => r matches Ok((i, j)) && i == si && j == ai && i < self.stories@.len()
                    && j < self.stories@[i as int].acts@.len(),
                Err(e) => r matches Err(x) && x@ == e,
            },
    {
        let si = self.locate_story(story)?;
        match find_act(&self.stories[si].acts, act) {
            Some(ai) => Ok((si, ai)),
            None => Err(ScenarioError::EntityNotFound {
                entity: owned(act),
                context: concat3("Act in story '", story, "'"),
            }),
        }
    }

    /// Finds a maneuver group.
    pub fn locate_group(&self, story: &str, act: &str, mg: &str) -> (r: Result<(usize, usize, usize), ScenarioError>)
        ensures
            match group_path(*self, story@, act@, mg@) {
                Ok((si, ai, gi)) => r matches Ok((i, j, k)) && i == si && j == ai && k == gi
                    && i < self.stories@.len() && j < self.stories@[i as int].acts@.len()
                    && k < self.stories@[i as int].acts@[j as int].maneuver_groups@.len(),
                Err(e) => r matches Err(x) && x@ == e,
            },
    {
        let (si, ai) = self.locate_act(story, act)?;
        match find_group(&self.stories[si].acts[ai].maneuver_groups, mg) {
            Some(gi) => Ok((si, ai, gi)),
            None => Err(ScenarioError::EntityNotFound {
                entity: owned(mg),
                context: concat3("ManeuverGroup in act '", act, "'"),
            }),
        }
    }

    /// Finds a maneuver; `within` starts the context of its error.
    pub fn locate_maneuver(&self, story: &str, act: &str, mg: &str, maneuver: &str, within: &str) -> (r: Result<
        (usize, usize, usize, usize),
        ScenarioError,
    >)
        ensures
            match maneuver_path(*self, story@, act@, mg@, maneuver@, within@) {
                Ok((si, ai, gi, mi)) => r matches Ok((i, j, k, l)) && i == si && j == ai && k == gi && l == mi
                    && i < self.stories@.len() && j < self.stories@[i as int].acts@.len()
                    && k < self.stories@[i as int].acts@[j as int].maneuver_groups@.len()
                    && l < self.stories@[i as int].acts@[j as int].maneuver_groups@[k as int].maneuvers@.len(),
                Err(e) => r matches Err(x) && x@ == e,
            },
    {
        let (si, ai, gi) = self.locate_group(story, act, mg)?;
        match find_maneuver(&self.stories[si].acts[ai].maneuver_groups[gi].maneuvers, maneuver) {
            Some(mi) => Ok((si, ai, gi, mi)),
            None => Err(ScenarioError::EntityNotFound {
                entity: owned(maneuver),
                context: concat3(within, mg, "'"),
            }),
        }
    }

    /// Adds `action` to the first event named `event` of the maneuver, creating
    /// the event when the maneuver has none of that name.
    pub fn add_action(&mut self, story: &str, act: &str, mg: &str, maneuver: &str, event: &str, action: Action) -> (r: Result<(), ScenarioError>)
        ensures
            action_added(*old(self), *final(self), r, story@, act@, mg@, maneuver@, event@, action),
            storyboard_wf(*old(self)) ==> storyboard_wf(*final(self)),
    {
        let (si, ai, gi, mi) = self.locate_maneuver(story, act, mg, maneuver, "Maneuver in ManeuverGroup '")?;
        let ghost before = *self;
        let m = self.maneuver_mut(si, ai, gi, mi);
        m.add_action_to_event(event, action);
        proof {
            lemma_maneuver_change_keeps_wf(before, *self, si as int, ai as int, gi as int, mi as int,
                |om: Maneuver, nm: Maneuver| event_got_action(om, nm, event@, action));
        }
        Ok(())
    }
    /// Mutable access to one story; the rest of the storyboard stays as it was.
    pub fn story_mut(&mut self, si: usize) -> (r: &mut Story)
        requires
            si < old(self).stories@.len(),
        ensures
            *r == old(self).stories@[si as int],
            only_story_changed(*old(self), *final(self), si as int, |os: Story, ns: Story| ns == *final(r)),
    {
        &mut self.stories[si]
    }

    /// Mutable access to one act; the rest of the storyboard stays as it was.
    pub fn act_mut(&mut self, si: usize, ai: usize) -> (r: &mut Act)
        requires
            si < old(self).stories@.len(),
            ai < old(self).stories@[si as int].acts@.len(),
        ensures
            *r == old(self).stories@[si as int].acts@[ai as int],
            only_act_at(*old(self), *final(self), si as int, ai as int, |oa: Act, na: Act| na == *final(r)),
    {
        let story = &mut self.stories[si];
        &mut story.acts[ai]
    }

    /// Mutable access to one maneuver group; the rest of the storyboard stays as it was.
    pub fn group_mut(&mut self, si: usize, ai: usize, gi: usize) -> (r: &mut ManeuverGroup)
        requires
            si < old(self).stories@.len(),
            ai < old(self).stories@[si as int].acts@.len(),
            gi < old(self).stories@[si as int].acts@[ai as int].maneuver_groups@.len(),
        ensures
            *r == old(self).stories@[si as int].acts@[ai as int].maneuver_groups@[gi as int],
            only_group_at(*old(self), *final(self), si as int, ai as int, gi as int,
                |og: ManeuverGroup, ng: ManeuverGroup| ng == *final(r)),
    {
        let story = &mut self.stories[si];
        let act = &mut story.acts[ai];
        &mut act.maneuver_groups[gi]
    }

    /// Adds an empty story under the trimmed name.
    pub fn add_story(&mut self, name: &str) -> (r: Result<(), ScenarioError>)
        ensures
            story_added(*old(self), *final(self), r, name@),
            storyboard_wf(*old(self)) ==> storyboard_wf(*final(self)),
    {
        if blank(name) {
            return Err(ScenarioError::InvalidValue {
                field: owned("story name"),
                reason: owned("name cannot be empty or whitespace-only"),
            });
        }
        let trimmed = trim(name);
        proof { lemma_first_index_bounds(story_names(self.stories@), trimmed@); }
        if find_story(&self.stories, trimmed.as_str()).is_some() {
            return Err(ScenarioError::StoryNotFound { name: trimmed, available: self.story_list() });
        }
        let ghost before = *self;
        let story = Story::new(trimmed.as_str());
        self.stories.push(story);
        proof {
            let on = story_names(before.stories@);
            let nn = story_names(self.stories@);
            assert(nn =~= on.push(trimmed@));
            assert(self.stories@.drop_last() =~= before.stories@);
            if storyboard_wf(before) {
                assert forall|i: int, j: int| 0 <= i < j < nn.len() implies nn[i] != nn[j] by {
                    if j == nn.len() - 1 {
                        assert(on[i] == nn[i]);
                    } else {
                        assert(on[i] == nn[i] && on[j] == nn[j]);
                    }
                }
                assert forall|i: int| 0 <= i < self.stories@.len() implies story_wf(#[trigger] self.stories@[i]) by {
                    if i < before.stories@.len() {
                        assert(self.stories@[i] == before.stories@[i]);
                    } else {
                        assert(act_names(self.stories@[i].acts@) =~= Seq::<Seq<char>>::empty());
                    }
                }
            }
        }
        Ok(())
    }

    /// Adds an empty act to a story; its name must be new there.
    pub fn add_act(&mut self, story: &str, act: &str) -> (r: Result<(), ScenarioError>)
        ensures
            act_added(*old(self), *final(self), r, story@, act@),
            storyboard_wf(*old(self)) ==> storyboard_wf(*final(self)),
    {
        let si = self.locate_story(story)?;
        proof { lemma_first_index_bounds(act_names(self.stories@[si as int].acts@), act@); }
        if find_act(&self.stories[si].acts, act).is_some() {
            return Err(ScenarioError::EntityNotFound {
                entity: owned(act),
                context: concat3("Act already exists in story '", story, "'"),
            });
        }
        let ghost before = *self;
        let s = self.story_mut(si);
        let ghost os = *s;
        s.acts.push(Act::new(act));
        proof {
            let ns = *s;
            let on = act_names(os.acts@);
            let nn = act_names(ns.acts@);
            assert(nn =~= on.push(act@));
            assert(ns.acts@.drop_last() =~= os.acts@);
            if story_wf(os) {
                assert forall|i: int, j: int| 0 <= i < j < nn.len() implies nn[i] != nn[j] by {
                    if j == nn.len() - 1 {
                        assert(on[i] == nn[i]);
                    } else {
                        assert(on[i] == nn[i] && on[j] == nn[j]);
                    }
                }
                assert forall|i: int| 0 <= i < ns.acts@.len() implies distinct(
                    group_names((#[trigger] ns.acts@[i]).maneuver_groups@)) by {
                    if i == os.acts@.len() {
                        assert(group_names(ns.acts@[i].maneuver_groups@) =~= Seq::<Seq<char>>::empty());
                    } else {
                        assert(ns.acts@[i] == os.acts@[i]);
                        assert(distinct(group_names((#[trigger] os.acts@[i]).maneuver_groups@)));
                    }
                }
            }
            assert(story_got_act(os, ns, act@));
            lemma_story_change_keeps_wf(before, *self, si as int);
        }
        Ok(())
    }

    /// Sets the start trigger of an act.
    pub fn set_act_start_trigger(&mut self, story: &str, act: &str, trigger: Trigger) -> (r: Result<(), ScenarioError>)
        ensures
            act_trigger_set(*old(self), *final(self), r, story@, act@, trigger),
            storyboard_wf(*old(self)) ==> storyboard_wf(*final(self)),
    {
        let (si, ai) = self.locate_act(story, act)?;
        let ghost before = *self;
        let a = self.act_mut(si, ai);
        a.set_start_trigger(trigger);
        proof { lemma_act_change_keeps_wf(before, *self, si as int, ai as int); }
        Ok(())
    }

    /// Adds an empty maneuver group to an act; its name must be new there.
    pub fn add_maneuver_group(&mut self, story: &str, act: &str, mg: &str) -> (r: Result<(), ScenarioError>)
        ensures
            group_added(*old(self), *final(self), r, story@, act@, mg@),
            storyboard_wf(*old(self)) ==> storyboard_wf(*final(self)),
    {
        let (si, ai) = self.locate_act(story, act)?;
        proof { lemma_first_index_bounds(group_names(self.stories@[si as int].acts@[ai as int].maneuver_groups@), mg@); }
        if find_group(&self.stories[si].acts[ai].maneuver_groups, mg).is_some() {
            return Err(ScenarioError::EntityNotFound {
                entity: owned(mg),
                context: concat3("ManeuverGroup already exists in act '", act, "'"),
            });
        }
        let ghost before = *self;
        let a = self.act_mut(si, ai);
        let ghost oa = *a;
        a.maneuver_groups.push(ManeuverGroup::new(mg));
        proof {
            let na = *a;
            let on = group_names(oa.maneuver_groups@);
            let nn = group_names(na.maneuver_groups@);
            assert(nn =~= on.push(mg@));
            assert(na.maneuver_groups@.drop_last() =~= oa.maneuver_groups@);
            if distinct(on) {
                assert forall|i: int, j: int| 0 <= i < j < nn.len() implies nn[i] != nn[j] by {
                    if j == nn.len() - 1 {
                        assert(on[i] == nn[i]);
                    } else {
                        assert(on[i] == nn[i] && on[j] == nn[j]);
                    }
                }
            }
            lemma_act_change_keeps_wf(before, *self, si as int, ai as int);
        }
        Ok(())
    }

    /// Adds an actor to a maneuver group unless the group has it already.
    pub fn add_group_actor(&mut self, story: &str, act: &str, mg: &str, entity: &str) -> (r: Result<(), ScenarioError>)
        ensures
            actor_added(*old(self), *final(self), r, story@, act@, mg@, entity@),
            storyboard_wf(*old(self)) ==> storyboard_wf(*final(self)),
    {
        let (si, ai, gi) = self.locate_group(story, act, mg)?;
        let ghost before = *self;
        let g = self.group_mut(si, ai, gi);
        let ghost og = *g;
        if !contains_text(&g.actors, entity) {
            g.actors.push(owned(entity));
            proof { assert(views(g.actors@) =~= views(og.actors@).push(entity@)); }
        }
        proof { lemma_group_change_keeps_wf(before, *self, si as int, ai as int, gi as int); }
        Ok(())
    }

    /// Adds an empty maneuver at the end of a maneuver group; its name must be new there.
    pub fn add_maneuver(&mut self, story: &str, act: &str, mg: &str, name: &str) -> (r: Result<(), ScenarioError>)
        ensures
            maneuver_added(*old(self), *final(self), r, story@, act@, mg@, name@),
            storyboard_wf(*old(self)) ==> storyboard_wf(*final(self)),
    {
        let (si, ai, gi) = self.locate_group(story, act, mg)?;
        proof {
            lemma_first_index_bounds(maneuver_names(self.stories@[si as int].acts@[ai as int].maneuver_groups@[gi as int].maneuvers@), name@);
        }
        if find_maneuver(&self.stories[si].acts[ai].maneuver_groups[gi].maneuvers, name).is_some() {
            return Err(ScenarioError::EntityNotFound {
                entity: owned(name),
                context: concat3("Maneuver already exists in maneuver group '", mg, "'"),
            });
        }
        let ghost before = *self;
        let g = self.group_mut(si, ai, gi);
        let ghost og = *g;
        g.maneuvers.push(Maneuver::new(name));
        proof {
            assert(g.maneuvers@.drop_last() =~= og.maneuvers@);
            lemma_group_change_keeps_wf(before, *self, si as int, ai as int, gi as int);
        }
        Ok(())
    }

    /// Sets the start trigger of an existing event.
    pub fn set_event_start_trigger(
        &mut self,
        story: &str,
        act: &str,
        mg: &str,
        maneuver: &str,
        event: &str,
        trigger: Trigger,
    ) -> (r: Result<(), ScenarioError>)
        ensures
            event_trigger_set(*old(self), *final(self), r, story@, act@, mg@, maneuver@, event@, trigger),
            storyboard_wf(*old(self)) ==> storyboard_wf(*final(self)),
    {
        let (si, ai, gi, mi) = self.locate_maneuver(story, act, mg, maneuver, "Maneuver in maneuver group '")?;
        if find_event(&self.stories[si].acts[ai].maneuver_groups[gi].maneuvers[mi].events, event).is_none() {
            return Err(ScenarioError::EntityNotFound {
                entity: owned(event),
                context: concat3("Event in maneuver '", maneuver, "'"),
            });
        }
        let ghost before = *self;
        let m = self.maneuver_mut(si, ai, gi, mi);
        m.put_event_trigger(event, trigger);
        proof {
            lemma_maneuver_change_keeps_wf(before, *self, si as int, ai as int, gi as int, mi as int,
                |om: Maneuver, nm: Maneuver| event_got_trigger(om, nm, event@, trigger));
        }
        Ok(())
    }

    /// Sets the start trigger of the first event named `event` of the maneuver,
    /// creating the event (with no actions) when there is none.
    pub fn put_trigger(&mut self, story: &str, act: &str, mg: &str, maneuver: &str, event: &str, trigger: Trigger) -> (r: Result<(), ScenarioError>)
        ensures
            trigger_put(*old(self), *final(self), r, story@, act@, mg@, maneuver@, event@, trigger),
            storyboard_wf(*old(self)) ==> storyboard_wf(*final(self)),
    {
        let (si, ai, gi, mi) = self.locate_maneuver(story, act, mg, maneuver, "Maneuver in ManeuverGroup '")?;
        let ghost before = *self;
        let m = self.maneuver_mut(si, ai, gi, mi);
        m.put_event_trigger(event, trigger);
        proof {
            lemma_maneuver_change_keeps_wf(before, *self, si as int, ai as int, gi as int, mi as int,
                |om: Maneuver, nm: Maneuver| event_got_trigger(om, nm, event@, trigger));
        }
        Ok(())
    }
}

} // verus!

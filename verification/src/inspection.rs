//! Structural inspection of a scenario before export: the gaps the XSD forbids
//! (errors) and the ones that make parts of it inert (warnings), and the
//! report that lists them.
use vstd::prelude::*;
use crate::entities::Entity;
use crate::scenario::{Scenario, position_index, speed_index};
use crate::quantity::Real;
use crate::storyboard::{
    Act, ByValueCondition, Condition, ConditionEdge, ConditionKind, EntityCondition, Maneuver, ManeuverGroup, Rule,
    Story, TriggeringEntitiesRule,
};
use crate::text::{concat2, concat3, decimal, decimal_string, owned, views};

verus! {

/// What an inspection found: errors and warnings, in the order they were met.
pub struct Issues {
    pub errors: Seq<Seq<char>>,
    pub warnings: Seq<Seq<char>>,
}

/// The issues of `a`, then those of `b`.
pub open spec fn join(a: Issues, b: Issues) -> Issues {
    Issues { errors: a.errors + b.errors, warnings: a.warnings + b.warnings }
}

/// No issues.
pub open spec fn none() -> Issues {
    Issues { errors: Seq::empty(), warnings: Seq::empty() }
}

/// The error for a maneuver without events.
pub open spec fn eventless_maneuver(maneuver: Seq<char>, mg: Seq<char>) -> Seq<char> {
    "Maneuver '"@ + maneuver + "' in group '"@ + mg + "' has no Events (the XSD requires at least one)"@
}

/// The warning for a maneuver group without actors.
pub open spec fn actorless_group(mg: Seq<char>, act: Seq<char>) -> Seq<char> {
    "ManeuverGroup '"@ + mg + "' in act '"@ + act + "' has no actors (its maneuvers will never act on anyone)"@
}

/// The error for an act without maneuver groups.
pub open spec fn groupless_act(act: Seq<char>, story: Seq<char>) -> Seq<char> {
    "Act '"@ + act + "' in story '"@ + story + "' has no ManeuverGroups (the XSD requires at least one)"@
}

/// The error for a story without acts.
pub open spec fn actless_story(story: Seq<char>) -> Seq<char> {
    "Story '"@ + story + "' has no Acts (the XSD requires at least one; export will fail validation)"@
}

/// The warning for an entity that is never placed.
pub open spec fn unplaced_entity(name: Seq<char>) -> Seq<char> {
    "Entity '"@ + name + "' has no initial position or speed (it won't be placed in the simulation)"@
}

/// The errors of the maneuvers of group `mg`.
pub open spec fn maneuver_errors(mg: Seq<char>, ms: Seq<Maneuver>) -> Seq<Seq<char>>
    decreases ms.len(),
{
    if ms.len() == 0 {
        Seq::empty()
    } else {
        maneuver_errors(mg, ms.drop_last()) + if ms.last().events@.len() == 0 {
            seq![eventless_maneuver(ms.last().name@, mg)]
        } else {
            Seq::empty()
        }
    }
}

/// The issues of one maneuver group of act `act`.
pub open spec fn group_issues(act: Seq<char>, g: ManeuverGroup) -> Issues {
    Issues {
        errors: maneuver_errors(g.name@, g.maneuvers@),
        warnings: if g.actors@.len() == 0 {
            seq![actorless_group(g.name@, act)]
        } else {
            Seq::empty()
        },
    }
}

/// The issues of the maneuver groups of act `act`.
pub open spec fn groups_issues(act: Seq<char>, gs: Seq<ManeuverGroup>) -> Issues
    decreases gs.len(),
{
    if gs.len() == 0 {
        none()
    } else {
        join(groups_issues(act, gs.drop_last()), group_issues(act, gs.last()))
    }
}

/// The issues of one act of story `story`.
pub open spec fn act_issues(story: Seq<char>, a: Act) -> Issues {
    if a.maneuver_groups@.len() == 0 {
        Issues { errors: seq![groupless_act(a.name@, story)], warnings: Seq::empty() }
    } else {
        groups_issues(a.name@, a.maneuver_groups@)
    }
}

/// The issues of the acts of story `story`.
pub open spec fn acts_issues(story: Seq<char>, acts: Seq<Act>) -> Issues
    decreases acts.len(),
{
    if acts.len() == 0 {
        none()
    } else {
        join(acts_issues(story, acts.drop_last()), act_issues(story, acts.last()))
    }
}

/// The issues of one story.
pub open spec fn story_issues(s: Story) -> Issues {
    if s.acts@.len() == 0 {
        Issues { errors: seq![actless_story(s.name@)], warnings: Seq::empty() }
    } else {
        acts_issues(s.name@, s.acts@)
    }
}

/// The issues of the stories.
pub open spec fn stories_issues(ss: Seq<Story>) -> Issues
    decreases ss.len(),
{
    if ss.len() == 0 {
        none()
    } else {
        join(stories_issues(ss.drop_last()), story_issues(ss.last()))
    }
}

/// The warnings for the entities of `es` that the scenario never places.
pub open spec fn entity_warnings(sc: Scenario, es: Seq<Entity>) -> Seq<Seq<char>>
    decreases es.len(),
{
    if es.len() == 0 {
        Seq::empty()
    } else {
        entity_warnings(sc, es.drop_last()) + if position_index(sc.spec_initial_positions(), es.last().spec_name()) < 0
            && speed_index(sc.spec_initial_speeds(), es.last().spec_name()) < 0 {
            seq![unplaced_entity(es.last().spec_name())]
        } else {
            Seq::empty()
        }
    }
}

/// Everything the inspection finds in a scenario: the storyboard's issues, then
/// the entities that are never placed.
pub open spec fn scenario_issues(sc: Scenario) -> Issues {
    join(stories_issues(sc.spec_storyboard().stories@), Issues { errors: Seq::empty(), warnings: entity_warnings(sc, sc.spec_entities()) })
}

/// One bullet line per item.
pub open spec fn bullets(items: Seq<Seq<char>>) -> Seq<char>
    decreases items.len(),
{
    if items.len() == 0 {
        Seq::empty()
    } else {
        bullets(items.drop_last()) + "  • "@ + items.last() + "\n"@
    }
}

/// The report for what an inspection found.
pub open spec fn inspection_report(i: Issues) -> Seq<char> {
    if i.errors.len() == 0 && i.warnings.len() == 0 {
        "✅ Scenario validation passed: No issues found\n"@
    } else {
        "📋 Scenario Validation Report\n\n"@ + (if i.errors.len() > 0 {
            "❌ Errors ("@ + decimal(i.errors.len()) + "):\n"@ + bullets(i.errors) + "\n"@
        } else {
            Seq::empty()
        }) + (if i.warnings.len() > 0 {
            "⚠️  Warnings ("@ + decimal(i.warnings.len()) + "):\n"@ + bullets(i.warnings) + "\n"@
        } else {
            Seq::empty()
        })
    }
}

fn push_maneuver_errors(mg: &str, ms: &Vec<Maneuver>, errors: &mut Vec<String>)
    ensures
        views(final(errors)@) == views(old(errors)@) + maneuver_errors(mg@, ms@),
{
    let ghost start = views(errors@);
    let mut i: usize = 0;
    while i < ms.len()
        invariant
            i <= ms@.len(),
            views(errors@) == start + maneuver_errors(mg@, ms@.subrange(0, i as int)),
        decreases ms@.len() - i,
    {
        assert(ms@.subrange(0, i + 1).drop_last() =~= ms@.subrange(0, i as int));
        let ghost before = views(errors@);
        assert(ms@.subrange(0, i + 1).last() == ms@[i as int]);
        if ms[i].events.len() == 0 {
            let mut e = concat3("Maneuver '", ms[i].name.as_str(), "' in group '");
            e.append(mg);
            e.append("' has no Events (the XSD requires at least one)");
            errors.push(e);
            assert(views(errors@) =~= before.push(eventless_maneuver(ms@[i as int].name@, mg@)));
        } else {
            assert(views(errors@) =~= before);
        }
        assert(views(errors@) =~= start + maneuver_errors(mg@, ms@.subrange(0, i + 1)));
        i = i + 1;
    }
    assert(ms@.subrange(0, ms@.len() as int) =~= ms@);
}

fn push_groups_issues(act: &str, gs: &Vec<ManeuverGroup>, errors: &mut Vec<String>, warnings: &mut Vec<String>)
    ensures
        views(final(errors)@) == views(old(errors)@) + groups_issues(act@, gs@).errors,
        views(final(warnings)@) == views(old(warnings)@) + groups_issues(act@, gs@).warnings,
{
    let ghost e0 = views(errors@);
    let ghost w0 = views(warnings@);
    let mut i: usize = 0;
    while i < gs.len()
        invariant
            i <= gs@.len(),
            views(errors@) == e0 + groups_issues(act@, gs@.subrange(0, i as int)).errors,
            views(warnings@) == w0 + groups_issues(act@, gs@.subrange(0, i as int)).warnings,
        decreases gs@.len() - i,
    {
        assert(gs@.subrange(0, i + 1).drop_last() =~= gs@.subrange(0, i as int));
        let g = &gs[i];
        let ghost we = views(warnings@);
        if g.actors.len() == 0 {
            let mut w = concat3("ManeuverGroup '", g.name.as_str(), "' in act '");
            w.append(act);
            w.append("' has no actors (its maneuvers will never act on anyone)");
            warnings.push(w);
        }
        assert(views(warnings@) =~= we + group_issues(act@, *g).warnings);
        let ghost ee = views(errors@);
        push_maneuver_errors(g.name.as_str(), &g.maneuvers, errors);
        assert(views(errors@) =~= e0 + groups_issues(act@, gs@.subrange(0, i + 1)).errors);
        assert(views(warnings@) =~= w0 + groups_issues(act@, gs@.subrange(0, i + 1)).warnings);
        i = i + 1;
    }
    assert(gs@.subrange(0, gs@.len() as int) =~= gs@);
}

fn push_acts_issues(story: &str, acts: &Vec<Act>, errors: &mut Vec<String>, warnings: &mut Vec<String>)
    ensures
        views(final(errors)@) == views(old(errors)@) + acts_issues(story@, acts@).errors,
        views(final(warnings)@) == views(old(warnings)@) + acts_issues(story@, acts@).warnings,
{
    let ghost e0 = views(errors@);
    let ghost w0 = views(warnings@);
    let mut i: usize = 0;
    while i < acts.len()
        invariant
            i <= acts@.len(),
            views(errors@) == e0 + acts_issues(story@, acts@.subrange(0, i as int)).errors,
            views(warnings@) == w0 + acts_issues(story@, acts@.subrange(0, i as int)).warnings,
        decreases acts@.len() - i,
    {
        assert(acts@.subrange(0, i + 1).drop_last() =~= acts@.subrange(0, i as int));
        let a = &acts[i];
        let ghost ee = views(errors@);
        let ghost we = views(warnings@);
        if a.maneuver_groups.len() == 0 {
            let mut e = concat3("Act '", a.name.as_str(), "' in story '");
            e.append(story);
            e.append("' has no ManeuverGroups (the XSD requires at least one)");
            errors.push(e);
        } else {
            push_groups_issues(a.name.as_str(), &a.maneuver_groups, errors, warnings);
        }
        assert(views(errors@) =~= ee + act_issues(story@, *a).errors);
        assert(views(warnings@) =~= we + act_issues(story@, *a).warnings);
        assert(views(errors@) =~= e0 + acts_issues(story@, acts@.subrange(0, i + 1)).errors);
        assert(views(warnings@) =~= w0 + acts_issues(story@, acts@.subrange(0, i + 1)).warnings);
        i = i + 1;
    }
    assert(acts@.subrange(0, acts@.len() as int) =~= acts@);
}

fn push_stories_issues(stories: &Vec<Story>, errors: &mut Vec<String>, warnings: &mut Vec<String>)
    ensures
        views(final(errors)@) == views(old(errors)@) + stories_issues(stories@).errors,
        views(final(warnings)@) == views(old(warnings)@) + stories_issues(stories@).warnings,
{
    let ghost e0 = views(errors@);
    let ghost w0 = views(warnings@);
    let mut i: usize = 0;
    while i < stories.len()
        invariant
            i <= stories@.len(),
            views(errors@) == e0 + stories_issues(stories@.subrange(0, i as int)).errors,
            views(warnings@) == w0 + stories_issues(stories@.subrange(0, i as int)).warnings,
        decreases stories@.len() - i,
    {
        assert(stories@.subrange(0, i + 1).drop_last() =~= stories@.subrange(0, i as int));
        let s = &stories[i];
        let ghost ee = views(errors@);
        let ghost we = views(warnings@);
        if s.acts.len() == 0 {
            let e = concat3(
                "Story '",
                s.name.as_str(),
                "' has no Acts (the XSD requires at least one; export will fail validation)",
            );
            errors.push(e);
        } else {
            push_acts_issues(s.name.as_str(), &s.acts, errors, warnings);
        }
        assert(views(errors@) =~= ee + story_issues(*s).errors);
        assert(views(warnings@) =~= we + story_issues(*s).warnings);
        assert(views(errors@) =~= e0 + stories_issues(stories@.subrange(0, i + 1)).errors);
        assert(views(warnings@) =~= w0 + stories_issues(stories@.subrange(0, i + 1)).warnings);
        i = i + 1;
    }
    assert(stories@.subrange(0, stories@.len() as int) =~= stories@);
}

fn push_entity_warnings(sc: &Scenario, warnings: &mut Vec<String>)
    ensures
        views(final(warnings)@) == views(old(warnings)@) + entity_warnings(*sc, sc.spec_entities()),
{
    let ghost w0 = views(warnings@);
    let es = sc.entities();
    let mut i: usize = 0;
    while i < es.len()
        invariant
            i <= es@.len(),
            es@ == sc.spec_entities(),
            views(warnings@) == w0 + entity_warnings(*sc, es@.subrange(0, i as int)),
        decreases es@.len() - i,
    {
        assert(es@.subrange(0, i + 1).drop_last() =~= es@.subrange(0, i as int));
        let name = es[i].name();
        let ghost before = views(warnings@);
        assert(es@.subrange(0, i + 1).last() == es@[i as int]);
        if sc.get_initial_position(name).is_none() && sc.get_initial_speed(name).is_none() {
            let w = concat3("Entity '", name, "' has no initial position or speed (it won't be placed in the simulation)");
            warnings.push(w);
            assert(views(warnings@) =~= before.push(unplaced_entity(name@)));
        } else {
            assert(views(warnings@) =~= before);
        }
        assert(views(warnings@) =~= w0 + entity_warnings(*sc, es@.subrange(0, i + 1)));
        i = i + 1;
    }
    assert(es@.subrange(0, es@.len() as int) =~= es@);
}

fn push_bullets(report: &mut String, items: &Vec<String>)
    ensures
        final(report)@ == old(report)@ + bullets(views(items@)),
{
    let ghost r0 = report@;
    let mut i: usize = 0;
    while i < items.len()
        invariant
            i <= items@.len(),
            report@ == r0 + bullets(views(items@).subrange(0, i as int)),
        decreases items@.len() - i,
    {
        assert(views(items@).subrange(0, i + 1).drop_last() =~= views(items@).subrange(0, i as int));
        report.append("  • ");
        report.append(items[i].as_str());
        report.append("\n");
        assert(report@ =~= r0 + bullets(views(items@).subrange(0, i + 1)));
        i = i + 1;
    }
    assert(views(items@).subrange(0, items@.len() as int) =~= views(items@));
}

/// The inspection report of a scenario.
pub fn inspect_scenario(sc: &Scenario) -> (r: String)
    ensures
        r@ == inspection_report(scenario_issues(*sc)),
{
    let mut errors: Vec<String> = Vec::new();
    let mut warnings: Vec<String> = Vec::new();
    push_stories_issues(sc.stories(), &mut errors, &mut warnings);
    push_entity_warnings(sc, &mut warnings);
    let ghost issues = scenario_issues(*sc);
    assert(views(errors@) =~= issues.errors);
    assert(views(warnings@) =~= issues.warnings);
    if errors.len() == 0 && warnings.len() == 0 {
        return owned("✅ Scenario validation passed: No issues found\n");
    }
    let mut report = owned("📋 Scenario Validation Report\n\n");
    let ghost r1 = report@;
    if errors.len() > 0 {
        let count = decimal_string(errors.len() as u64);
        report.append(concat3("❌ Errors (", count.as_str(), "):\n").as_str());
        push_bullets(&mut report, &errors);
        report.append("\n");
    }
    let ghost r2 = report@;
    if warnings.len() > 0 {
        let count = decimal_string(warnings.len() as u64);
        report.append(concat3("⚠️  Warnings (", count.as_str(), "):\n").as_str());
        push_bullets(&mut report, &warnings);
        report.append("\n");
    }
    assert(report@ =~= inspection_report(issues));
    report
}

/// How `{:?}` prints a rule.
pub open spec fn rule_name(r: Rule) -> Seq<char> {
    match r {
        Rule::GreaterThan => "GreaterThan"@,
        Rule::LessThan => "LessThan"@,
        Rule::EqualTo => "EqualTo"@,
        Rule::GreaterOrEqual => "GreaterOrEqual"@,
        Rule::LessOrEqual => "LessOrEqual"@,
    }
}

fn rule_text(r: Rule) -> (t: &'static str)
    ensures
        t@ == rule_name(r),
{
    match r {
        Rule::GreaterThan => "GreaterThan",
        Rule::LessThan => "LessThan",
        Rule::EqualTo => "EqualTo",
        Rule::GreaterOrEqual => "GreaterOrEqual",
        Rule::LessOrEqual => "LessOrEqual",
    }
}

/// How an edge is named in descriptions (its `Debug` name in lower case).
pub open spec fn edge_name(e: ConditionEdge) -> Seq<char> {
    match e {
        ConditionEdge::NoEdge => "none"@,
        ConditionEdge::Rising => "rising"@,
        ConditionEdge::Falling => "falling"@,
        ConditionEdge::RisingOrFalling => "risingorfalling"@,
    }
}

fn edge_text(e: ConditionEdge) -> (t: &'static str)
    ensures
        t@ == edge_name(e),
{
    match e {
        ConditionEdge::NoEdge => "none",
        ConditionEdge::Rising => "rising",
        ConditionEdge::Falling => "falling",
        ConditionEdge::RisingOrFalling => "risingorfalling",
    }
}

/// How `{:?}` prints a triggering rule.
pub open spec fn entities_rule_name(r: TriggeringEntitiesRule) -> Seq<char> {
    match r {
        TriggeringEntitiesRule::Any => "Any"@,
        TriggeringEntitiesRule::All => "All"@,
    }
}

fn entities_rule_text(r: TriggeringEntitiesRule) -> (t: &'static str)
    ensures
        t@ == entities_rule_name(r),
{
    match r {
        TriggeringEntitiesRule::Any => "Any",
        TriggeringEntitiesRule::All => "All",
    }
}

/// The items separated by ", ".
pub open spec fn joined(items: Seq<Seq<char>>) -> Seq<char>
    decreases items.len(),
{
    if items.len() == 0 {
        Seq::empty()
    } else if items.len() == 1 {
        items[0]
    } else {
        joined(items.drop_last()) + ", "@ + items.last()
    }
}

pub(crate) fn join_texts(items: &Vec<String>) -> (r: String)
    ensures
        r@ == joined(views(items@)),
{
    let mut r = String::new();
    let mut i: usize = 0;
    while i < items.len()
        invariant
            i <= items@.len(),
            r@ == joined(views(items@).subrange(0, i as int)),
        decreases items@.len() - i,
    {
        assert(views(items@).subrange(0, i + 1).drop_last() =~= views(items@).subrange(0, i as int));
        if i > 0 {
            r.append(", ");
        }
        r.append(items[i].as_str());
        assert(r@ =~= joined(views(items@).subrange(0, i + 1)));
        i = i + 1;
    }
    assert(views(items@).subrange(0, items@.len() as int) =~= views(items@));
    r
}

/// The description of a condition: one line naming its kind and operands,
/// its edge and, when positive, its delay. `delay_text` is how the delay is
/// written and `value_text` how the condition's number (a simulation time or
/// a speed) is written.
pub open spec fn condition_description(c: Condition, delay_text: Seq<char>, value_text: Seq<char>) -> Seq<char> {
    let delay = if (Real { bits: 0 }).spec_lt(c.delay) {
        " (delay: "@ + delay_text + "s)"@
    } else {
        Seq::empty()
    };
    let edge = " (edge: "@ + edge_name(c.condition_edge) + ")"@;
    match c.kind {
        ConditionKind::ByValue(v) => match v {
            ByValueCondition::SimulationTime { rule, .. } => "- SimulationTime: "@ + rule_name(rule) + " "@ + value_text
                + edge + delay,
            ByValueCondition::StoryboardElementState { element_type, element_ref, state } => "- StoryboardElement: "@
                + element_type@ + " '"@ + element_ref@ + "' reaches '"@ + state@ + "'"@ + edge + delay,
            ByValueCondition::Parameter(p) => "- Parameter: "@ + p.parameter_ref@ + " "@ + rule_name(p.rule) + " '"@
                + p.value@ + "'"@ + edge + delay,
        },
        ConditionKind::ByEntity(b) => {
            let who = entities_rule_name(b.triggering_entities.rule) + " of ["@ + joined(
                views(b.triggering_entities.entity_refs@),
            ) + "]"@;
            match b.entity_condition {
                EntityCondition::Collision(x) => "- Collision: "@ + who + " with '"@ + x.target_entity_ref@ + "'"@ + edge
                    + delay,
                EntityCondition::Speed(x) => "- Speed: "@ + who + " "@ + rule_name(x.rule) + " "@ + value_text + edge
                    + delay,
                _ => "- EntityCondition: "@ + who + edge + delay,
            }
        },
    }
}

/// Describes a condition in one line (see [`condition_description`]).
pub fn format_condition_description(condition: &Condition, delay_text: &str, value_text: &str) -> (r: String)
    ensures
        r@ == condition_description(*condition, delay_text@, value_text@),
{
    let mut delay = String::new();
    if Real::zero().lt(condition.delay) {
        delay = concat3(" (delay: ", delay_text, "s)");
    }
    let edge = concat3(" (edge: ", edge_text(condition.condition_edge), ")");
    let mut r = match &condition.kind {
        ConditionKind::ByValue(v) => match v {
            ByValueCondition::SimulationTime { rule, .. } => {
                let mut r = concat3("- SimulationTime: ", rule_text(*rule), " ");
                r.append(value_text);
                r
            },
            ByValueCondition::StoryboardElementState { element_type, element_ref, state } => {
                let mut r = concat3("- StoryboardElement: ", element_type.as_str(), " '");
                r.append(element_ref.as_str());
                r.append("' reaches '");
                r.append(state.as_str());
                r.append("'");
                r
            },
            ByValueCondition::Parameter(p) => {
                let mut r = concat3("- Parameter: ", p.parameter_ref.as_str(), " ");
                r.append(rule_text(p.rule));
                r.append(" '");
                r.append(p.value.as_str());
                r.append("'");
                r
            },
        },
        ConditionKind::ByEntity(b) => {
            let mut who = concat2(entities_rule_text(b.triggering_entities.rule), " of [");
            who.append(join_texts(&b.triggering_entities.entity_refs).as_str());
            who.append("]");
            match &b.entity_condition {
                EntityCondition::Collision(x) => {
                    let mut r = concat2("- Collision: ", who.as_str());
                    r.append(" with '");
                    r.append(x.target_entity_ref.as_str());
                    r.append("'");
                    r
                },
                EntityCondition::Speed(x) => {
                    let mut r = concat3("- Speed: ", who.as_str(), " ");
                    r.append(rule_text(x.rule));
                    r.append(" ");
                    r.append(value_text);
                    r
                },
                _ => concat2("- EntityCondition: ", who.as_str()),
            }
        },
    };
    r.append(edge.as_str());
    r.append(delay.as_str());
    r
}

} // verus!

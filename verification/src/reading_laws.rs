//! What the readers take from their input, stated by the names the input
//! uses: the parts of positions, dynamics, catalog references, conditions,
//! declarations and file headers by their attribute names; the kind of a
//! catalog and of its entries by their elements; the lanes and lengths a
//! road check uses by the roads of the network; and the vehicle categories
//! the tools accept by their names.
use vstd::prelude::*;
use crate::catalog::{
    CatalogType, ScanMode, ScanState, XmlEventView, catalog_outcome, finish, last_attribute, scan_catalog, start_state, step,
};
use crate::decoding::{
    header_scan, spec_header_version, spec_parse_condition_edge, spec_parse_dynamics_dimension, spec_parse_dynamics_shape,
    spec_parse_i32, spec_parse_parameter_type, spec_parse_rule, spec_parse_transition_shape, spec_parse_u8,
};
use crate::document::{
    attribute_text, catalog_ref_of, catalog_scan, condition_head, declaration_of, lane_dynamics_of, lane_dynamics_scan,
    lane_scan, last_of, number_of, number_or_zero_of, position_tag, road_scan, set_coordinate, speed_dynamics_of,
    speed_dynamics_scan, stands_for_catalog, stands_for_position, stands_for_value_condition, value_condition_tag, world_scan,
};
use crate::entities::{CatalogReference, VehicleCategory, category_label};
use crate::error::ScenarioErrorView;
use crate::opendrive_validator::{
    OpenDriveValidator, RoadEntry, ValidationErrorView, XodrRoadModel, add_distinct, cache_of, entry_ids, road_lane_ids, upsert,
};
use crate::position::Position;
use crate::quantity::Real;
use crate::scenario::ParameterType;
use crate::service::tool_category;
use crate::storyboard::{ByValueCondition, ConditionEdge, Rule, TransitionDynamics, TransitionShape};
use crate::text::{first_index, lemma_first_index, lemma_first_index_bounds};
use crate::version::spec_from_rev;

verus! {

/// The attributes from the `i`-th on.
pub open spec fn attributes_from(v: Seq<(Seq<char>, Seq<char>)>, i: int) -> Seq<(Seq<char>, Seq<char>)> {
    v.subrange(i, v.len() as int)
}

/// `n` is the number of the last attribute named `key`, or zero when there is none.
pub open spec fn number_given(reals: Seq<(String, Real)>, attrs: Seq<(Seq<char>, Seq<char>)>, key: Seq<char>, n: Real) -> bool {
    match last_attribute(attrs, key) {
        Some(raw) => number_of(reals, raw) == Some(n),
        None => n == (Real { bits: 0 }),
    }
}

/// The text of the last attribute named `key`, or the empty text.
pub open spec fn text_given(attrs: Seq<(Seq<char>, Seq<char>)>, key: Seq<char>) -> Seq<char> {
    match last_attribute(attrs, key) {
        Some(x) => x,
        None => Seq::empty(),
    }
}

/// Every attribute named `key` denotes a number.
pub open spec fn all_numbers(reals: Seq<(String, Real)>, attrs: Seq<(Seq<char>, Seq<char>)>, key: Seq<char>) -> bool {
    forall|j: int| 0 <= j < attrs.len() && #[trigger] attrs[j].0 == key ==> number_of(reals, attrs[j].1) is Some
}

/// Every attribute named `key` denotes an integer.
pub open spec fn all_integers(attrs: Seq<(Seq<char>, Seq<char>)>, key: Seq<char>) -> bool {
    forall|j: int| 0 <= j < attrs.len() && #[trigger] attrs[j].0 == key ==> spec_parse_i32(attrs[j].1) is Some
}

/// Every attribute denotes a number.
pub open spec fn every_number(reals: Seq<(String, Real)>, attrs: Seq<(Seq<char>, Seq<char>)>) -> bool {
    forall|j: int| 0 <= j < attrs.len() ==> number_of(reals, #[trigger] attrs[j].1) is Some
}

/// Starting from `start`, the value kept for `key` is `value`: the number of
/// the last attribute named `key`, or `start` when there is none.
pub open spec fn kept_number(reals: Seq<(String, Real)>, t: Seq<(Seq<char>, Seq<char>)>, key: Seq<char>, value: Real, start: Real) -> bool {
    match last_attribute(t, key) {
        Some(x) => number_of(reals, x) == Some(value),
        None => value == start,
    }
}

/// The last attribute named `key` is the last one among all but the first,
/// or else the first if it has that name.
proof fn lemma_last_attribute_front(attrs: Seq<(Seq<char>, Seq<char>)>, key: Seq<char>)
    requires
        attrs.len() > 0,
    ensures
        last_attribute(attrs, key) == match last_attribute(attrs.drop_first(), key) {
            Some(x) => Some(x),
            None => if attrs[0].0 == key { Some(attrs[0].1) } else { None },
        },
    decreases attrs.len(),
{
    if attrs.len() > 1 {
        let d = attrs.drop_last();
        assert(d.drop_first() =~= attrs.drop_first().drop_last());
        assert(attrs.drop_first().last() == attrs.last());
        assert(d[0] == attrs[0]);
        lemma_last_attribute_front(d, key);
        assert(last_attribute(attrs.drop_first(), key) == if attrs.last().0 == key {
            Some(attrs.last().1)
        } else {
            last_attribute(d.drop_first(), key)
        });
    } else {
        assert(attrs.drop_first().len() == 0);
        assert(attrs.drop_last().len() == 0);
        assert(attrs.last() == attrs[0]);
        assert(last_attribute(attrs.drop_first(), key) is None);
        assert(last_attribute(attrs.drop_last(), key) is None);
    }
}

/// What the road reader keeps from the `i`-th attribute on, starting from `c`.
proof fn lemma_road_scan_by_names(v: Seq<(Seq<char>, Seq<char>)>, reals: Seq<(String, Real)>, i: int, c: (Seq<char>, Real, Real))
    requires
        0 <= i <= v.len(),
        all_numbers(reals, attributes_from(v, i), "s"@),
        all_numbers(reals, attributes_from(v, i), "t"@),
    ensures
        road_scan(v, reals, i, c) matches Ok(r) && {
            let t = attributes_from(v, i);
            &&& r.0 == match last_attribute(t, "roadId"@) {
                Some(x) => x,
                None => c.0,
            }
            &&& match last_attribute(t, "s"@) {
                Some(x) => number_of(reals, x) == Some(r.1),
                None => r.1 == c.1,
            }
            &&& match last_attribute(t, "t"@) {
                Some(x) => number_of(reals, x) == Some(r.2),
                None => r.2 == c.2,
            }
        },
    decreases v.len() - i,
{
    reveal_strlit("roadId");
    reveal_strlit("s");
    reveal_strlit("t");
    let t = attributes_from(v, i);
    if i < v.len() {
        let rest = attributes_from(v, i + 1);
        assert(t.drop_first() =~= rest);
        assert(t[0] == v[i]);
        assert forall|j: int| 0 <= j < rest.len() implies (#[trigger] rest[j]).0 == "s"@ ==> number_of(reals, rest[j].1) is Some by {
            assert(rest[j] == t[j + 1]);
        }
        assert forall|j: int| 0 <= j < rest.len() implies (#[trigger] rest[j]).0 == "t"@ ==> number_of(reals, rest[j].1) is Some by {
            assert(rest[j] == t[j + 1]);
        }
        lemma_last_attribute_front(t, "roadId"@);
        lemma_last_attribute_front(t, "s"@);
        lemma_last_attribute_front(t, "t"@);
        let key = v[i].0;
        let raw = v[i].1;
        assert("s"@ != "t"@ && "s"@ != "roadId"@ && "t"@ != "roadId"@) by {
            assert("s"@[0] != "t"@[0]);
        }
        if key == "roadId"@ {
            lemma_road_scan_by_names(v, reals, i + 1, (raw, c.1, c.2));
        } else if key == "s"@ {
            assert(t[0].0 == "s"@);
            assert(number_of(reals, raw) is Some);
            lemma_road_scan_by_names(v, reals, i + 1, (c.0, number_of(reals, raw)->Some_0, c.2));
            assert(road_scan(v, reals, i, c) == road_scan(v, reals, i + 1, (c.0, number_of(reals, raw)->Some_0, c.2)));
        } else if key == "t"@ {
            assert(t[0].0 == "t"@);
            lemma_road_scan_by_names(v, reals, i + 1, (c.0, c.1, number_of(reals, raw)->Some_0));
        } else {
            lemma_road_scan_by_names(v, reals, i + 1, c);
        }
    } else {
        assert(t.len() == 0);
    }
}

/// A `RoadPosition` tag whose `s` and `t` attributes denote numbers reads to
/// the road position on the road its last `roadId` attribute names, with `s`
/// the number of its last `s` attribute and `t` that of its last `t` attribute
/// (an empty road and zero where they are missing), and no orientation.
pub proof fn lemma_road_position_by_names(attrs: Seq<(Seq<char>, Seq<char>)>, reals: Seq<(String, Real)>, p: Position)
    requires
        all_numbers(reals, attrs, "s"@),
        all_numbers(reals, attrs, "t"@),
    ensures
        position_tag("RoadPosition"@, Ok(attrs), reals) matches Ok(Some(m)) && (stands_for_position(p, m) ==> {
            p matches Position::Road { road_id, s, t, orientation } && road_id@ == text_given(attrs, "roadId"@)
                && number_given(reals, attrs, "s"@, s) && number_given(reals, attrs, "t"@, t) && orientation is None
        }),
{
    reveal_strlit("RoadPosition");
    reveal_strlit("LanePosition");
    reveal_strlit("WorldPosition");
    assert("RoadPosition"@ != "LanePosition"@ && "RoadPosition"@ != "WorldPosition"@) by {
        assert("RoadPosition"@[0] != "LanePosition"@[0]);
        assert("RoadPosition"@.len() != "WorldPosition"@.len());
    }
    assert(attributes_from(attrs, 0) =~= attrs);
    lemma_road_scan_by_names(attrs, reals, 0, (Seq::empty(), Real { bits: 0 }, Real { bits: 0 }));
}

/// A `RoadPosition` tag with a road id `r` and the number texts `a` and `b`
/// for `s` and `t`, in that order, reads to the position on road `r` at `s`
/// the number of `a` and `t` the number of `b`.
pub proof fn lemma_road_position_reads_s_and_t(r: Seq<char>, a: Seq<char>, b: Seq<char>, reals: Seq<(String, Real)>, p: Position)
    requires
        number_of(reals, a) is Some,
        number_of(reals, b) is Some,
    ensures
        position_tag("RoadPosition"@, Ok(seq![("roadId"@, r), ("s"@, a), ("t"@, b)]), reals) matches Ok(Some(m))
            && (stands_for_position(p, m) ==> (p matches Position::Road { road_id, s, t, orientation } && road_id@ == r
                && Some(s) == number_of(reals, a) && Some(t) == number_of(reals, b) && orientation is None)),
{
    reveal_strlit("roadId");
    reveal_strlit("s");
    reveal_strlit("t");
    let attrs = seq![("roadId"@, r), ("s"@, a), ("t"@, b)];
    assert("s"@ != "t"@ && "s"@ != "roadId"@ && "t"@ != "roadId"@) by {
        assert("s"@[0] != "t"@[0]);
    }
    reveal_with_fuel(last_attribute, 4);
    assert(attrs.drop_last().drop_last().drop_last().len() == 0);
    assert(last_attribute(attrs, "roadId"@) == Some(r));
    assert(last_attribute(attrs, "s"@) == Some(a));
    assert(last_attribute(attrs, "t"@) == Some(b));
    lemma_road_position_by_names(attrs, reals, p);
}

/// What the lane reader keeps from the `i`-th attribute on, starting from `c`.
proof fn lemma_lane_scan_by_names(v: Seq<(Seq<char>, Seq<char>)>, reals: Seq<(String, Real)>, i: int, c: (Seq<char>, i32, Real, Real))
    requires
        0 <= i <= v.len(),
        all_integers(attributes_from(v, i), "laneId"@),
        all_numbers(reals, attributes_from(v, i), "s"@),
        all_numbers(reals, attributes_from(v, i), "offset"@),
    ensures
        lane_scan(v, reals, i, c) matches Ok(r) && {
            let t = attributes_from(v, i);
            &&& r.0 == match last_attribute(t, "roadId"@) {
                Some(x) => x,
                None => c.0,
            }
            &&& match last_attribute(t, "laneId"@) {
                Some(x) => spec_parse_i32(x) == Some(r.1),
                None => r.1 == c.1,
            }
            &&& kept_number(reals, t, "s"@, r.2, c.2)
            &&& kept_number(reals, t, "offset"@, r.3, c.3)
        },
    decreases v.len() - i,
{
    reveal_strlit("roadId");
    reveal_strlit("laneId");
    reveal_strlit("s");
    reveal_strlit("offset");
    let t = attributes_from(v, i);
    if i < v.len() {
        let rest = attributes_from(v, i + 1);
        assert(t.drop_first() =~= rest);
        assert(t[0] == v[i]);
        assert forall|j: int| 0 <= j < rest.len() implies (#[trigger] rest[j]).0 == "laneId"@ ==> spec_parse_i32(rest[j].1) is Some by {
            assert(rest[j] == t[j + 1]);
        }
        assert forall|j: int| 0 <= j < rest.len() implies (#[trigger] rest[j]).0 == "s"@ ==> number_of(reals, rest[j].1) is Some by {
            assert(rest[j] == t[j + 1]);
        }
        assert forall|j: int| 0 <= j < rest.len() implies (#[trigger] rest[j]).0 == "offset"@ ==> number_of(reals, rest[j].1) is Some by {
            assert(rest[j] == t[j + 1]);
        }
        lemma_last_attribute_front(t, "roadId"@);
        lemma_last_attribute_front(t, "laneId"@);
        lemma_last_attribute_front(t, "s"@);
        lemma_last_attribute_front(t, "offset"@);
        assert("roadId"@ != "laneId"@ && "roadId"@ != "s"@ && "roadId"@ != "offset"@ && "laneId"@ != "s"@
            && "laneId"@ != "offset"@ && "s"@ != "offset"@) by {
            assert("roadId"@[0] != "laneId"@[0]);
            assert("roadId"@[0] != "offset"@[0]);
            assert("laneId"@[0] != "offset"@[0]);
        }
        let key = v[i].0;
        let raw = v[i].1;
        if key == "roadId"@ {
            lemma_lane_scan_by_names(v, reals, i + 1, (raw, c.1, c.2, c.3));
        } else if key == "laneId"@ {
            assert(t[0].0 == "laneId"@);
            lemma_lane_scan_by_names(v, reals, i + 1, (c.0, spec_parse_i32(raw)->Some_0, c.2, c.3));
        } else if key == "s"@ {
            assert(t[0].0 == "s"@);
            lemma_lane_scan_by_names(v, reals, i + 1, (c.0, c.1, number_of(reals, raw)->Some_0, c.3));
        } else if key == "offset"@ {
            assert(t[0].0 == "offset"@);
            lemma_lane_scan_by_names(v, reals, i + 1, (c.0, c.1, c.2, number_of(reals, raw)->Some_0));
        } else {
            lemma_lane_scan_by_names(v, reals, i + 1, c);
        }
    } else {
        assert(t.len() == 0);
    }
}

/// A `LanePosition` tag whose `laneId` attributes denote integers and whose
/// `s` and `offset` attributes denote numbers reads to the lane position on
/// the road its last `roadId` attribute names, in the lane its last `laneId`
/// attribute gives, at `s` and `offset` the numbers of its last attributes of
/// those names (an empty road, lane 0 and zero where they are missing), and
/// no orientation.
pub proof fn lemma_lane_position_by_names(attrs: Seq<(Seq<char>, Seq<char>)>, reals: Seq<(String, Real)>, p: Position)
    requires
        all_integers(attrs, "laneId"@),
        all_numbers(reals, attrs, "s"@),
        all_numbers(reals, attrs, "offset"@),
    ensures
        position_tag("LanePosition"@, Ok(attrs), reals) matches Ok(Some(m)) && (stands_for_position(p, m) ==> {
            p matches Position::Lane { road_id, lane_id, s, offset, orientation } && road_id@ == text_given(attrs, "roadId"@)
                && (match last_attribute(attrs, "laneId"@) {
                    Some(x) => spec_parse_i32(x) == Some(lane_id),
                    None => lane_id == 0,
                })
                && number_given(reals, attrs, "s"@, s) && number_given(reals, attrs, "offset"@, offset) && orientation is None
        }),
{
    reveal_strlit("LanePosition");
    reveal_strlit("WorldPosition");
    assert("LanePosition"@ != "WorldPosition"@) by {
        assert("LanePosition"@.len() != "WorldPosition"@.len());
    }
    assert(attributes_from(attrs, 0) =~= attrs);
    lemma_lane_scan_by_names(attrs, reals, 0, (Seq::empty(), 0i32, Real { bits: 0 }, Real { bits: 0 }));
}

/// The six coordinate names differ from one another.
proof fn lemma_coordinate_names_differ()
    ensures
        "x"@ != "y"@, "x"@ != "z"@, "x"@ != "h"@, "x"@ != "p"@, "x"@ != "r"@,
        "y"@ != "z"@, "y"@ != "h"@, "y"@ != "p"@, "y"@ != "r"@,
        "z"@ != "h"@, "z"@ != "p"@, "z"@ != "r"@,
        "h"@ != "p"@, "h"@ != "r"@,
        "p"@ != "r"@,
{
    reveal_strlit("x");
    reveal_strlit("y");
    reveal_strlit("z");
    reveal_strlit("h");
    reveal_strlit("p");
    reveal_strlit("r");
    assert("x"@[0] != "y"@[0] && "x"@[0] != "z"@[0] && "x"@[0] != "h"@[0] && "x"@[0] != "p"@[0] && "x"@[0] != "r"@[0]);
    assert("y"@[0] != "z"@[0] && "y"@[0] != "h"@[0] && "y"@[0] != "p"@[0] && "y"@[0] != "r"@[0]);
    assert("z"@[0] != "h"@[0] && "z"@[0] != "p"@[0] && "z"@[0] != "r"@[0]);
    assert("h"@[0] != "p"@[0] && "h"@[0] != "r"@[0] && "p"@[0] != "r"@[0]);
}

/// What the world reader keeps from the `i`-th attribute on, starting from `c`.
proof fn lemma_world_scan_by_names(
    v: Seq<(Seq<char>, Seq<char>)>,
    reals: Seq<(String, Real)>,
    i: int,
    c: (Real, Real, Real, Real, Real, Real),
)
    requires
        0 <= i <= v.len(),
        every_number(reals, attributes_from(v, i)),
    ensures
        world_scan(v, reals, i, c) matches Ok(r) && {
            let t = attributes_from(v, i);
            &&& kept_number(reals, t, "x"@, r.0, c.0)
            &&& kept_number(reals, t, "y"@, r.1, c.1)
            &&& kept_number(reals, t, "z"@, r.2, c.2)
            &&& kept_number(reals, t, "h"@, r.3, c.3)
            &&& kept_number(reals, t, "p"@, r.4, c.4)
            &&& kept_number(reals, t, "r"@, r.5, c.5)
        },
    decreases v.len() - i,
{
    let t = attributes_from(v, i);
    if i < v.len() {
        let rest = attributes_from(v, i + 1);
        assert(t.drop_first() =~= rest);
        assert(t[0] == v[i]);
        assert forall|j: int| 0 <= j < rest.len() implies number_of(reals, #[trigger] rest[j].1) is Some by {
            assert(rest[j] == t[j + 1]);
        }
        lemma_coordinate_names_differ();
        lemma_last_attribute_front(t, "x"@);
        lemma_last_attribute_front(t, "y"@);
        lemma_last_attribute_front(t, "z"@);
        lemma_last_attribute_front(t, "h"@);
        lemma_last_attribute_front(t, "p"@);
        lemma_last_attribute_front(t, "r"@);
        assert(number_of(reals, t[0].1) is Some);
        let n = number_of(reals, v[i].1)->Some_0;
        lemma_world_scan_by_names(v, reals, i + 1, set_coordinate(c, v[i].0, n));
    } else {
        assert(t.len() == 0);
    }
}

/// A `WorldPosition` tag whose attributes all denote numbers reads to the
/// world position whose `x`, `y`, `z`, `h`, `p` and `r` are the numbers of
/// its last attributes of those names (zero where one is missing).
pub proof fn lemma_world_position_by_names(attrs: Seq<(Seq<char>, Seq<char>)>, reals: Seq<(String, Real)>, p: Position)
    requires
        every_number(reals, attrs),
    ensures
        position_tag("WorldPosition"@, Ok(attrs), reals) matches Ok(Some(m)) && (stands_for_position(p, m) ==> {
            p matches Position::World { x, y, z, h, p: pitch, r: roll } && number_given(reals, attrs, "x"@, x)
                && number_given(reals, attrs, "y"@, y) && number_given(reals, attrs, "z"@, z)
                && number_given(reals, attrs, "h"@, h) && number_given(reals, attrs, "p"@, pitch)
                && number_given(reals, attrs, "r"@, roll)
        }),
{
    let zero = Real { bits: 0 };
    assert(attributes_from(attrs, 0) =~= attrs);
    lemma_world_scan_by_names(attrs, reals, 0, (zero, zero, zero, zero, zero, zero));
}

/// The last attribute named `key` read through `f`, or `otherwise` when there is none.
pub open spec fn given_or<T>(attrs: Seq<(Seq<char>, Seq<char>)>, key: Seq<char>, f: spec_fn(Seq<char>) -> T, otherwise: T) -> T {
    match last_attribute(attrs, key) {
        Some(x) => f(x),
        None => otherwise,
    }
}

/// What the speed-dynamics reader keeps from the `i`-th attribute on.
proof fn lemma_speed_dynamics_scan_by_names(v: Seq<(Seq<char>, Seq<char>)>, reals: Seq<(String, Real)>, i: int, d: TransitionDynamics)
    requires
        0 <= i <= v.len(),
    ensures
        ({
            let t = attributes_from(v, i);
            speed_dynamics_scan(v, reals, i, d) == TransitionDynamics {
                shape: given_or(t, "dynamicsShape"@, |x: Seq<char>| spec_parse_dynamics_shape(x), d.shape),
                dimension: given_or(t, "dynamicsDimension"@, |x: Seq<char>| spec_parse_dynamics_dimension(x), d.dimension),
                value: given_or(t, "value"@, |x: Seq<char>| number_or_zero_of(reals, x), d.value),
            }
        }),
    decreases v.len() - i,
{
    reveal_strlit("dynamicsShape");
    reveal_strlit("dynamicsDimension");
    reveal_strlit("value");
    let t = attributes_from(v, i);
    if i < v.len() {
        assert(t.drop_first() =~= attributes_from(v, i + 1));
        assert(t[0] == v[i]);
        lemma_last_attribute_front(t, "dynamicsShape"@);
        lemma_last_attribute_front(t, "dynamicsDimension"@);
        lemma_last_attribute_front(t, "value"@);
        assert("dynamicsShape"@ != "dynamicsDimension"@ && "dynamicsShape"@ != "value"@ && "dynamicsDimension"@ != "value"@) by {
            assert("dynamicsShape"@.len() != "dynamicsDimension"@.len());
            assert("dynamicsShape"@[0] != "value"@[0]);
        }
        let key = v[i].0;
        let raw = v[i].1;
        let next = if key == "dynamicsShape"@ {
            TransitionDynamics { shape: spec_parse_dynamics_shape(raw), ..d }
        } else if key == "dynamicsDimension"@ {
            TransitionDynamics { dimension: spec_parse_dynamics_dimension(raw), ..d }
        } else if key == "value"@ {
            TransitionDynamics { value: number_or_zero_of(reals, raw), ..d }
        } else {
            d
        };
        lemma_speed_dynamics_scan_by_names(v, reals, i + 1, next);
    } else {
        assert(t.len() == 0);
    }
}

/// A `SpeedActionDynamics` tag sets the shape, the dimension and the value of
/// the dynamics from its last `dynamicsShape`, `dynamicsDimension` and
/// `value` attributes, and keeps each one it does not give.
pub proof fn lemma_speed_dynamics_by_names(attrs: Seq<(Seq<char>, Seq<char>)>, reals: Seq<(String, Real)>, d: TransitionDynamics)
    ensures
        speed_dynamics_of(Ok(attrs), reals, d) == (TransitionDynamics {
            shape: given_or(attrs, "dynamicsShape"@, |x: Seq<char>| spec_parse_dynamics_shape(x), d.shape),
            dimension: given_or(attrs, "dynamicsDimension"@, |x: Seq<char>| spec_parse_dynamics_dimension(x), d.dimension),
            value: given_or(attrs, "value"@, |x: Seq<char>| number_or_zero_of(reals, x), d.value),
        }),
{
    assert(attributes_from(attrs, 0) =~= attrs);
    lemma_speed_dynamics_scan_by_names(attrs, reals, 0, d);
}

/// What the lane-change-dynamics reader keeps from the `i`-th attribute on.
proof fn lemma_lane_dynamics_scan_by_names(v: Seq<(Seq<char>, Seq<char>)>, reals: Seq<(String, Real)>, i: int, d: (TransitionShape, Real))
    requires
        0 <= i <= v.len(),
    ensures
        ({
            let t = attributes_from(v, i);
            lane_dynamics_scan(v, reals, i, d) == (
                given_or(t, "dynamicsShape"@, |x: Seq<char>| spec_parse_transition_shape(x), d.0),
                given_or(t, "value"@, |x: Seq<char>| number_or_zero_of(reals, x), d.1),
            )
        }),
    decreases v.len() - i,
{
    reveal_strlit("dynamicsShape");
    reveal_strlit("value");
    let t = attributes_from(v, i);
    if i < v.len() {
        assert(t.drop_first() =~= attributes_from(v, i + 1));
        assert(t[0] == v[i]);
        lemma_last_attribute_front(t, "dynamicsShape"@);
        lemma_last_attribute_front(t, "value"@);
        assert("dynamicsShape"@ != "value"@) by {
            assert("dynamicsShape"@[0] != "value"@[0]);
        }
        let key = v[i].0;
        let raw = v[i].1;
        let next = if key == "dynamicsShape"@ {
            (spec_parse_transition_shape(raw), d.1)
        } else if key == "value"@ {
            (d.0, number_or_zero_of(reals, raw))
        } else {
            d
        };
        lemma_lane_dynamics_scan_by_names(v, reals, i + 1, next);
    } else {
        assert(t.len() == 0);
    }
}

/// A `LaneChangeActionDynamics` tag sets the shape of the change from its
/// last `dynamicsShape` attribute and its duration from its last `value`
/// attribute, and keeps each one it does not give.
pub proof fn lemma_lane_dynamics_by_names(attrs: Seq<(Seq<char>, Seq<char>)>, reals: Seq<(String, Real)>, d: (TransitionShape, Real))
    ensures
        lane_dynamics_of(Ok(attrs), reals, d) == (
            given_or(attrs, "dynamicsShape"@, |x: Seq<char>| spec_parse_transition_shape(x), d.0),
            given_or(attrs, "value"@, |x: Seq<char>| number_or_zero_of(reals, x), d.1),
        ),
{
    assert(attributes_from(attrs, 0) =~= attrs);
    lemma_lane_dynamics_scan_by_names(attrs, reals, 0, d);
}

/// Every attribute named `key` reads to a text.
pub open spec fn all_texts(attrs: Seq<(Seq<char>, Seq<char>)>, key: Seq<char>) -> bool {
    forall|j: int| 0 <= j < attrs.len() && #[trigger] attrs[j].0 == key ==> attribute_text(attrs[j].1) is Ok
}

/// The text the last attribute named `key` reads to, or the empty text.
pub open spec fn read_text_given(attrs: Seq<(Seq<char>, Seq<char>)>, key: Seq<char>) -> Seq<char> {
    match last_attribute(attrs, key) {
        Some(x) => attribute_text(x)->Ok_0,
        None => Seq::empty(),
    }
}

/// What the catalog-reference reader keeps from the `i`-th attribute on.
proof fn lemma_catalog_scan_by_names(v: Seq<(Seq<char>, Seq<char>)>, i: int, c: (Seq<char>, Seq<char>))
    requires
        0 <= i <= v.len(),
        all_texts(attributes_from(v, i), "catalogName"@),
        all_texts(attributes_from(v, i), "entryName"@),
    ensures
        catalog_scan(v, i, c) matches Ok(r) && {
            let t = attributes_from(v, i);
            &&& r.0 == match last_attribute(t, "catalogName"@) {
                Some(x) => attribute_text(x)->Ok_0,
                None => c.0,
            }
            &&& r.1 == match last_attribute(t, "entryName"@) {
                Some(x) => attribute_text(x)->Ok_0,
                None => c.1,
            }
        },
    decreases v.len() - i,
{
    reveal_strlit("catalogName");
    reveal_strlit("entryName");
    let t = attributes_from(v, i);
    if i < v.len() {
        let rest = attributes_from(v, i + 1);
        assert(t.drop_first() =~= rest);
        assert(t[0] == v[i]);
        assert forall|j: int| 0 <= j < rest.len() implies (#[trigger] rest[j]).0 == "catalogName"@ ==> attribute_text(rest[j].1) is Ok by {
            assert(rest[j] == t[j + 1]);
        }
        assert forall|j: int| 0 <= j < rest.len() implies (#[trigger] rest[j]).0 == "entryName"@ ==> attribute_text(rest[j].1) is Ok by {
            assert(rest[j] == t[j + 1]);
        }
        lemma_last_attribute_front(t, "catalogName"@);
        lemma_last_attribute_front(t, "entryName"@);
        assert("catalogName"@ != "entryName"@) by {
            assert("catalogName"@[0] != "entryName"@[0]);
        }
        let key = v[i].0;
        if key == "catalogName"@ {
            assert(t[0].0 == "catalogName"@);
            lemma_catalog_scan_by_names(v, i + 1, (attribute_text(v[i].1)->Ok_0, c.1));
        } else if key == "entryName"@ {
            assert(t[0].0 == "entryName"@);
            lemma_catalog_scan_by_names(v, i + 1, (c.0, attribute_text(v[i].1)->Ok_0));
        } else {
            lemma_catalog_scan_by_names(v, i + 1, c);
        }
    } else {
        assert(t.len() == 0);
    }
}

/// A `CatalogReference` tag whose names read to texts refers to the catalog
/// its last `catalogName` attribute names and to the entry its last
/// `entryName` attribute names (empty where one is missing).
pub proof fn lemma_catalog_reference_by_names(attrs: Seq<(Seq<char>, Seq<char>)>, c: CatalogReference)
    requires
        all_texts(attrs, "catalogName"@),
        all_texts(attrs, "entryName"@),
    ensures
        catalog_ref_of(Ok(attrs)) matches Ok(m) && (stands_for_catalog(c, m) ==> c.path@ == read_text_given(attrs, "catalogName"@)
            && c.entry_name@ == read_text_given(attrs, "entryName"@)),
{
    assert(attributes_from(attrs, 0) =~= attrs);
    lemma_catalog_scan_by_names(attrs, 0, (Seq::empty(), Seq::empty()));
}

/// The last attribute named `key` from the `i`-th on, as the document
/// reader finds it, is the last one of the attributes from there.
proof fn lemma_last_of_is_last_attribute(v: Seq<(Seq<char>, Seq<char>)>, key: Seq<char>, i: int)
    requires
        0 <= i <= v.len(),
    ensures
        last_of(v, key, i) == last_attribute(attributes_from(v, i), key),
    decreases v.len() - i,
{
    let t = attributes_from(v, i);
    if i < v.len() {
        assert(t.drop_first() =~= attributes_from(v, i + 1));
        assert(t[0] == v[i]);
        lemma_last_attribute_front(t, key);
        lemma_last_of_is_last_attribute(v, key, i + 1);
    } else {
        assert(t.len() == 0);
    }
}

/// The conditions on values read their parts by attribute name: a
/// `SimulationTimeCondition` its time from its last `value` and its rule
/// from its last `rule` (zero and greater-than by default); a
/// `StoryboardElementStateCondition` the element's type, reference and
/// state from its last `storyboardElementType`, `storyboardElementRef` and
/// `state`; a `ParameterCondition` the parameter from its last
/// `parameterRef`, the value from its last `value` and the rule from its
/// last `rule` (equal-to by default).
pub proof fn lemma_value_conditions_by_names(attrs: Seq<(Seq<char>, Seq<char>)>, reals: Seq<(String, Real)>, c: ByValueCondition)
    ensures
        stands_for_value_condition(c, value_condition_tag("SimulationTimeCondition"@, Ok(attrs), reals)->Some_0) ==> (c
            == ByValueCondition::SimulationTime {
            value: given_or(attrs, "value"@, |x: Seq<char>| number_or_zero_of(reals, x), Real { bits: 0 }),
            rule: given_or(attrs, "rule"@, |x: Seq<char>| spec_parse_rule(x), Rule::GreaterThan),
        }),
        stands_for_value_condition(c, value_condition_tag("StoryboardElementStateCondition"@, Ok(attrs), reals)->Some_0) ==> (c
            matches ByValueCondition::StoryboardElementState { element_type, element_ref, state } && element_type@ == text_given(
            attrs,
            "storyboardElementType"@,
        ) && element_ref@ == text_given(attrs, "storyboardElementRef"@) && state@ == text_given(attrs, "state"@)),
        stands_for_value_condition(c, value_condition_tag("ParameterCondition"@, Ok(attrs), reals)->Some_0) ==> (c
            matches ByValueCondition::Parameter(x) && x.parameter_ref@ == text_given(attrs, "parameterRef"@) && x.value@
            == text_given(attrs, "value"@) && x.rule == given_or(attrs, "rule"@, |y: Seq<char>| spec_parse_rule(y), Rule::EqualTo)),
{
    reveal_strlit("SimulationTimeCondition");
    reveal_strlit("StoryboardElementStateCondition");
    reveal_strlit("ParameterCondition");
    assert("SimulationTimeCondition"@ != "StoryboardElementStateCondition"@ && "SimulationTimeCondition"@ != "ParameterCondition"@
        && "StoryboardElementStateCondition"@ != "ParameterCondition"@) by {
        assert("SimulationTimeCondition"@[1] != "StoryboardElementStateCondition"@[1]);
        assert("SimulationTimeCondition"@[0] != "ParameterCondition"@[0]);
        assert("StoryboardElementStateCondition"@[0] != "ParameterCondition"@[0]);
    }
    assert(attributes_from(attrs, 0) =~= attrs);
    lemma_last_of_is_last_attribute(attrs, "value"@, 0);
    lemma_last_of_is_last_attribute(attrs, "rule"@, 0);
    lemma_last_of_is_last_attribute(attrs, "storyboardElementType"@, 0);
    lemma_last_of_is_last_attribute(attrs, "storyboardElementRef"@, 0);
    lemma_last_of_is_last_attribute(attrs, "state"@, 0);
    lemma_last_of_is_last_attribute(attrs, "parameterRef"@, 0);
}

/// A `Condition` tag gives the condition's name, delay and edge from its
/// last `name`, `delay` and `conditionEdge` attributes (empty, zero and no
/// edge by default).
pub proof fn lemma_condition_head_by_names(attrs: Seq<(Seq<char>, Seq<char>)>, reals: Seq<(String, Real)>)
    ensures
        condition_head(Ok(attrs), reals) == (
            text_given(attrs, "name"@),
            given_or(attrs, "delay"@, |x: Seq<char>| number_or_zero_of(reals, x), Real { bits: 0 }),
            given_or(attrs, "conditionEdge"@, |x: Seq<char>| spec_parse_condition_edge(x), ConditionEdge::NoEdge),
        ),
{
    assert(attributes_from(attrs, 0) =~= attrs);
    lemma_last_of_is_last_attribute(attrs, "name"@, 0);
    lemma_last_of_is_last_attribute(attrs, "delay"@, 0);
    lemma_last_of_is_last_attribute(attrs, "conditionEdge"@, 0);
}

/// A `ParameterDeclaration` tag declares the parameter its last `name`
/// attribute names, of the type its last `parameterType` gives (a string by
/// default), with the value of its last `value` attribute.
pub proof fn lemma_declaration_by_names(attrs: Seq<(Seq<char>, Seq<char>)>)
    ensures
        declaration_of(Ok(attrs)) == (
            text_given(attrs, "name"@),
            given_or(attrs, "parameterType"@, |x: Seq<char>| spec_parse_parameter_type(x), ParameterType::String),
            text_given(attrs, "value"@),
        ),
{
    assert(attributes_from(attrs, 0) =~= attrs);
    lemma_last_of_is_last_attribute(attrs, "name"@, 0);
    lemma_last_of_is_last_attribute(attrs, "parameterType"@, 0);
    lemma_last_of_is_last_attribute(attrs, "value"@, 0);
}

/// Every attribute named `key` denotes a `u8`.
pub open spec fn all_bytes(attrs: Seq<(Seq<char>, Seq<char>)>, key: Seq<char>) -> bool {
    forall|j: int| 0 <= j < attrs.len() && #[trigger] attrs[j].0 == key ==> spec_parse_u8(attrs[j].1) is Some
}

/// What the header reader keeps from the `i`-th attribute on.
proof fn lemma_header_scan_by_names(v: Seq<(Seq<char>, Seq<char>)>, i: int, major: Option<u8>, minor: Option<u8>)
    requires
        0 <= i <= v.len(),
        all_bytes(attributes_from(v, i), "revMajor"@),
        all_bytes(attributes_from(v, i), "revMinor"@),
    ensures
        header_scan(v, i, major, minor) == Ok::<(Option<u8>, Option<u8>), ScenarioErrorView>((
            given_or(attributes_from(v, i), "revMajor"@, |x: Seq<char>| spec_parse_u8(x), major),
            given_or(attributes_from(v, i), "revMinor"@, |x: Seq<char>| spec_parse_u8(x), minor),
        )),
    decreases v.len() - i,
{
    reveal_strlit("revMajor");
    reveal_strlit("revMinor");
    let t = attributes_from(v, i);
    if i < v.len() {
        let rest = attributes_from(v, i + 1);
        assert(t.drop_first() =~= rest);
        assert(t[0] == v[i]);
        assert forall|j: int| 0 <= j < rest.len() implies (#[trigger] rest[j]).0 == "revMajor"@ ==> spec_parse_u8(rest[j].1) is Some by {
            assert(rest[j] == t[j + 1]);
        }
        assert forall|j: int| 0 <= j < rest.len() implies (#[trigger] rest[j]).0 == "revMinor"@ ==> spec_parse_u8(rest[j].1) is Some by {
            assert(rest[j] == t[j + 1]);
        }
        lemma_last_attribute_front(t, "revMajor"@);
        lemma_last_attribute_front(t, "revMinor"@);
        assert("revMajor"@ != "revMinor"@) by {
            assert("revMajor"@[4] != "revMinor"@[4]);
        }
        let key = v[i].0;
        if key == "revMajor"@ {
            assert(t[0].0 == "revMajor"@);
            lemma_header_scan_by_names(v, i + 1, spec_parse_u8(v[i].1), minor);
        } else if key == "revMinor"@ {
            assert(t[0].0 == "revMinor"@);
            lemma_header_scan_by_names(v, i + 1, major, spec_parse_u8(v[i].1));
        } else {
            lemma_header_scan_by_names(v, i + 1, major, minor);
        }
    } else {
        assert(t.len() == 0);
    }
}

/// A `FileHeader` whose `revMajor` and `revMinor` attributes denote bytes,
/// and which has both, names the version of its last `revMajor` as major and
/// its last `revMinor` as minor revision, when that version is supported.
pub proof fn lemma_header_version_by_names(attrs: Seq<(Seq<char>, Seq<char>)>, major: Seq<char>, minor: Seq<char>)
    requires
        all_bytes(attrs, "revMajor"@),
        all_bytes(attrs, "revMinor"@),
        last_attribute(attrs, "revMajor"@) == Some(major),
        last_attribute(attrs, "revMinor"@) == Some(minor),
        spec_from_rev(spec_parse_u8(major)->Some_0, spec_parse_u8(minor)->Some_0) is Some,
    ensures
        spec_header_version(attrs) == Ok::<crate::version::OpenScenarioVersion, ScenarioErrorView>(
            spec_from_rev(spec_parse_u8(major)->Some_0, spec_parse_u8(minor)->Some_0)->Some_0,
        ),
{
    assert(attributes_from(attrs, 0) =~= attrs);
    lemma_header_scan_by_names(attrs, 0, None, None);
    lemma_last_attribute_is_one(attrs, "revMajor"@);
    lemma_last_attribute_is_one(attrs, "revMinor"@);
    let a = choose|j: int| 0 <= j < attrs.len() && #[trigger] attrs[j] == ("revMajor"@, major);
    let b = choose|j: int| 0 <= j < attrs.len() && #[trigger] attrs[j] == ("revMinor"@, minor);
    assert(attrs[a].0 == "revMajor"@ && attrs[b].0 == "revMinor"@);
}

/// The last attribute named `key`, when there is one, is one of the attributes.
proof fn lemma_last_attribute_is_one(attrs: Seq<(Seq<char>, Seq<char>)>, key: Seq<char>)
    ensures
        last_attribute(attrs, key) matches Some(x) ==> exists|j: int| 0 <= j < attrs.len() && #[trigger] attrs[j] == (key, x),
    decreases attrs.len(),
{
    if attrs.len() > 0 {
        lemma_last_attribute_is_one(attrs.drop_last(), key);
        if attrs.last().0 != key {
            if let Some(x) = last_attribute(attrs, key) {
                let j = choose|j: int| 0 <= j < attrs.drop_last().len() && #[trigger] attrs.drop_last()[j] == (key, x);
                assert(attrs[j] == (key, x));
            }
        } else {
            assert(attrs[attrs.len() - 1] == (key, attrs.last().1));
        }
    }
}

/// The element that holds a catalog of a kind.
pub open spec fn catalog_element(t: CatalogType) -> Seq<char> {
    match t {
        CatalogType::Vehicle => "VehicleCatalog"@,
        CatalogType::Pedestrian => "PedestrianCatalog"@,
        CatalogType::MiscObject => "MiscObjectCatalog"@,
    }
}

/// The event opens an element of this name.
pub open spec fn opens(e: XmlEventView, name: Seq<char>) -> bool {
    e matches XmlEventView::Open { name: n, .. } && n == name
}

/// One of the first `n` events opens the element of a catalog of kind `t`.
pub open spec fn catalog_opened(ev: Seq<XmlEventView>, n: int, t: CatalogType) -> bool {
    exists|j: int| 0 <= j < n && j < ev.len() && opens(#[trigger] ev[j], catalog_element(t))
}

/// The kind the catalog reader has settled on, from the `i`-th event on, was
/// opened by an element of that kind's catalog.
proof fn lemma_catalog_kind_opened(ev: Seq<XmlEventView>, i: int, s: ScanState)
    requires
        0 <= i <= ev.len(),
        s.catalog_type matches Some(t) ==> catalog_opened(ev, i, t),
    ensures
        scan_catalog(ev, i, s) matches Ok(f) ==> (f.catalog_type matches Some(t) ==> catalog_opened(ev, ev.len() as int, t)),
    decreases ev.len() - i,
{
    if let Some(t) = s.catalog_type {
        let j = choose|j: int| 0 <= j < i && j < ev.len() && opens(#[trigger] ev[j], catalog_element(t));
        assert(0 <= j < ev.len() && opens(ev[j], catalog_element(t)));
    }
    assert(finish(s).catalog_type == s.catalog_type);
    if i < ev.len() {
        match ev[i] {
            XmlEventView::End => {},
            XmlEventView::Failed(_) => {},
            _ => {
                if let Ok(n) = step(s, ev[i]) {
                    if n.catalog_type != s.catalog_type {
                        reveal_strlit("VehicleCatalog");
                        reveal_strlit("PedestrianCatalog");
                        reveal_strlit("MiscObjectCatalog");
                        let t = n.catalog_type->Some_0;
                        assert(s.mode is Top);
                        assert(opens(ev[i], catalog_element(t)));
                    }
                    if let Some(t) = n.catalog_type {
                        if n.catalog_type == s.catalog_type {
                            let j = choose|j: int| 0 <= j < i && j < ev.len() && opens(#[trigger] ev[j], catalog_element(t));
                            assert(0 <= j < i + 1 && opens(ev[j], catalog_element(t)));
                        }
                        assert(catalog_opened(ev, i + 1, t));
                    }
                    lemma_catalog_kind_opened(ev, i + 1, n);
                }
            },
        }
    }
}

/// A catalog read from a document is of the kind of a catalog element the
/// document opens: a `VehicleCatalog` for vehicles, a `PedestrianCatalog`
/// for pedestrians and a `MiscObjectCatalog` for miscellaneous objects.
pub proof fn lemma_catalog_kind_from_element(ev: Seq<XmlEventView>)
    ensures
        catalog_outcome(ev) matches Ok((t, _)) ==> exists|j: int| 0 <= j < ev.len() && opens(#[trigger] ev[j], catalog_element(t)),
{
    lemma_catalog_kind_opened(ev, 0, start_state());
}

/// The element that holds one entry of a kind.
pub open spec fn entry_element(t: CatalogType) -> Seq<char> {
    match t {
        CatalogType::Vehicle => "Vehicle"@,
        CatalogType::Pedestrian => "Pedestrian"@,
        CatalogType::MiscObject => "MiscObject"@,
    }
}

/// One of the first `n` events opens an entry element of kind `t`.
pub open spec fn entry_opened(ev: Seq<XmlEventView>, n: int, t: CatalogType) -> bool {
    exists|j: int| 0 <= j < n && j < ev.len() && opens(#[trigger] ev[j], entry_element(t))
}

/// The entry being read, if any, and every entry read so far are of a kind
/// whose entry element one of the first `n` events opens.
pub open spec fn kinds_opened(ev: Seq<XmlEventView>, n: int, s: ScanState) -> bool {
    &&& match s.mode {
        ScanMode::Top => true,
        ScanMode::Entry { kind, .. } => entry_opened(ev, n, kind),
        ScanMode::Properties { kind, .. } => entry_opened(ev, n, kind),
    }
    &&& forall|k: int| 0 <= k < s.entries.len() ==> entry_opened(ev, n, #[trigger] s.entries[k].1)
}

/// What was opened among the first `n` events was opened among the first `n + 1`.
proof fn lemma_entry_opened_grows(ev: Seq<XmlEventView>, n: int, t: CatalogType)
    requires
        entry_opened(ev, n, t),
    ensures
        entry_opened(ev, n + 1, t),
{
    let j = choose|j: int| 0 <= j < n && j < ev.len() && opens(#[trigger] ev[j], entry_element(t));
    assert(0 <= j < n + 1 && j < ev.len() && opens(ev[j], entry_element(t)));
}

/// The kinds of the entries the catalog reader finds, from the `i`-th event
/// on, were opened by entry elements of those kinds.
proof fn lemma_entry_kinds_opened(ev: Seq<XmlEventView>, i: int, s: ScanState)
    requires
        0 <= i <= ev.len(),
        kinds_opened(ev, i, s),
    ensures
        scan_catalog(ev, i, s) matches Ok(f) ==> forall|k: int| 0 <= k < f.entries.len() ==> entry_opened(
            ev,
            ev.len() as int,
            #[trigger] f.entries[k].1,
        ),
    decreases ev.len() - i,
{
    let f = finish(s);
    assert forall|k: int| 0 <= k < f.entries.len() implies entry_opened(ev, i, #[trigger] f.entries[k].1) by {
        if k >= s.entries.len() {
            assert(f.entries[k].1 == match s.mode {
                ScanMode::Entry { kind, .. } => kind,
                ScanMode::Properties { kind, .. } => kind,
                ScanMode::Top => f.entries[k].1,
            });
        }
    }
    if i < ev.len() {
        match ev[i] {
            XmlEventView::End => {
                assert forall|k: int| 0 <= k < f.entries.len() implies entry_opened(ev, ev.len() as int, #[trigger] f.entries[k].1) by {
                    let j = choose|j: int| 0 <= j < i && j < ev.len() && opens(#[trigger] ev[j], entry_element(f.entries[k].1));
                    assert(0 <= j < ev.len() && opens(ev[j], entry_element(f.entries[k].1)));
                }
            },
            XmlEventView::Failed(_) => {},
            _ => {
                if let Ok(n) = step(s, ev[i]) {
                    assert forall|k: int| 0 <= k < n.entries.len() implies entry_opened(ev, i + 1, #[trigger] n.entries[k].1) by {
                        if k < s.entries.len() {
                            assert(n.entries[k] == s.entries[k]);
                            lemma_entry_opened_grows(ev, i, s.entries[k].1);
                        } else {
                            match s.mode {
                                ScanMode::Entry { kind, .. } => {
                                    assert(n.entries[k].1 == kind);
                                    lemma_entry_opened_grows(ev, i, kind);
                                },
                                _ => {},
                            }
                        }
                    }
                    match n.mode {
                        ScanMode::Top => {},
                        ScanMode::Entry { kind, .. } => {
                            if s.mode is Top {
                                assert(opens(ev[i], entry_element(kind)));
                            } else {
                                match s.mode {
                                    ScanMode::Entry { kind: k0, .. } => lemma_entry_opened_grows(ev, i, k0),
                                    ScanMode::Properties { kind: k0, .. } => lemma_entry_opened_grows(ev, i, k0),
                                    _ => {},
                                }
                            }
                        },
                        ScanMode::Properties { kind, .. } => {
                            match s.mode {
                                ScanMode::Entry { kind: k0, .. } => lemma_entry_opened_grows(ev, i, k0),
                                ScanMode::Properties { kind: k0, .. } => lemma_entry_opened_grows(ev, i, k0),
                                _ => {},
                            }
                        },
                    }
                    lemma_entry_kinds_opened(ev, i + 1, n);
                }
            },
        }
    } else {
        assert forall|k: int| 0 <= k < f.entries.len() implies entry_opened(ev, ev.len() as int, #[trigger] f.entries[k].1) by {
            let j = choose|j: int| 0 <= j < i && j < ev.len() && opens(#[trigger] ev[j], entry_element(f.entries[k].1));
            assert(0 <= j < ev.len() && opens(ev[j], entry_element(f.entries[k].1)));
        }
    }
}

/// Every entry of a catalog read from a document is of the kind of an entry
/// element the document opens: a `Vehicle` entry is a vehicle, a
/// `Pedestrian` entry a pedestrian and a `MiscObject` entry a miscellaneous
/// object.
pub proof fn lemma_catalog_entry_kinds_from_elements(ev: Seq<XmlEventView>)
    ensures
        catalog_outcome(ev) matches Ok((_, pairs)) ==> forall|k: int| 0 <= k < pairs.len() ==> exists|j: int|
            0 <= j < ev.len() && opens(#[trigger] ev[j], entry_element(#[trigger] pairs[k].1)),
{
    lemma_entry_kinds_opened(ev, 0, start_state());
    if let Ok((_, pairs)) = catalog_outcome(ev) {
        assert forall|k: int| 0 <= k < pairs.len() implies exists|j: int| 0 <= j < ev.len() && opens(
            #[trigger] ev[j],
            entry_element(#[trigger] pairs[k].1),
        ) by {
            assert(entry_opened(ev, ev.len() as int, pairs[k].1));
        }
    }
}

/// A document whose only catalog elements are those of kind `k` gives, when
/// it reads, a catalog of kind `k`.
pub proof fn lemma_catalog_kind_of_only_element(ev: Seq<XmlEventView>, k: CatalogType)
    requires
        forall|j: int| 0 <= j < ev.len() && (opens(#[trigger] ev[j], "VehicleCatalog"@) || opens(ev[j], "PedestrianCatalog"@)
            || opens(ev[j], "MiscObjectCatalog"@)) ==> opens(ev[j], catalog_element(k)),
    ensures
        catalog_outcome(ev) matches Ok((t, _)) ==> t == k,
{
    lemma_catalog_kind_from_element(ev);
    if let Ok((t, _)) = catalog_outcome(ev) {
        reveal_strlit("VehicleCatalog");
        reveal_strlit("PedestrianCatalog");
        reveal_strlit("MiscObjectCatalog");
        assert("VehicleCatalog"@ != "PedestrianCatalog"@ && "VehicleCatalog"@ != "MiscObjectCatalog"@
            && "PedestrianCatalog"@ != "MiscObjectCatalog"@) by {
            assert("VehicleCatalog"@.len() != "PedestrianCatalog"@.len());
            assert("VehicleCatalog"@.len() != "MiscObjectCatalog"@.len());
            assert("PedestrianCatalog"@[0] != "MiscObjectCatalog"@[0]);
        }
        let j = choose|j: int| 0 <= j < ev.len() && opens(#[trigger] ev[j], catalog_element(t));
        assert(opens(ev[j], catalog_element(k)));
    }
}

/// Adding the lane ids `ids` to `acc` keeps what `acc` holds, adds each of
/// `ids` (as an `i32`) and nothing else, and adds none twice.
proof fn lemma_add_distinct_holds(acc: Seq<i32>, ids: Seq<i64>)
    requires
        acc.no_duplicates(),
    ensures
        add_distinct(acc, ids).no_duplicates(),
        forall|x: i32| #[trigger] add_distinct(acc, ids).contains(x) <==> (acc.contains(x) || exists|k: int|
            0 <= k < ids.len() && #[trigger] ids[k] as i32 == x),
    decreases ids.len(),
{
    if ids.len() > 0 {
        let front = ids.drop_last();
        lemma_add_distinct_holds(acc, front);
        let rest = add_distinct(acc, front);
        let id = ids.last() as i32;
        assert forall|x: i32| #[trigger] add_distinct(acc, ids).contains(x) <==> (acc.contains(x) || exists|k: int|
            0 <= k < ids.len() && #[trigger] ids[k] as i32 == x) by {
            if rest.contains(x) {
                if !acc.contains(x) {
                    let k = choose|k: int| 0 <= k < front.len() && #[trigger] front[k] as i32 == x;
                    assert(ids[k] == front[k]);
                }
            }
            if exists|k: int| 0 <= k < ids.len() && #[trigger] ids[k] as i32 == x {
                let k = choose|k: int| 0 <= k < ids.len() && #[trigger] ids[k] as i32 == x;
                if k < front.len() {
                    assert(front[k] == ids[k]);
                    assert(rest.contains(x));
                } else {
                    assert(x == id);
                }
            }
            if !rest.contains(id) {
                assert(rest.push(id).contains(id)) by {
                    assert(rest.push(id)[rest.len() as int] == id);
                }
                if rest.push(id).contains(x) && x != id {
                    let i = choose|i: int| 0 <= i < rest.push(id).len() && rest.push(id)[i] == x;
                    assert(rest[i] == x);
                }
                if rest.contains(x) {
                    let i = choose|i: int| 0 <= i < rest.len() && rest[i] == x;
                    assert(rest.push(id)[i] == x);
                }
            }
        }
        if !rest.contains(id) {
            assert forall|a: int, b: int| 0 <= a < b < rest.push(id).len() implies rest.push(id)[a] != rest.push(id)[b] by {
                if b == rest.len() {
                    assert(rest[a] == rest.push(id)[a]);
                }
            }
        }
    } else {
        assert forall|x: i32| #[trigger] add_distinct(acc, ids).contains(x) <==> (acc.contains(x) || exists|k: int|
            0 <= k < ids.len() && #[trigger] ids[k] as i32 == x) by {}
    }
}

/// The lanes kept for a road are the lane ids (as `i32`) that occur in any of
/// its lane sections, the first as well as every later one, each once.
pub proof fn lemma_road_lanes_from_every_section(sections: Seq<Seq<i64>>)
    ensures
        road_lane_ids(sections).no_duplicates(),
        forall|x: i32| #[trigger] road_lane_ids(sections).contains(x) <==> exists|j: int, k: int|
            0 <= j < sections.len() && 0 <= k < sections[j].len() && #[trigger] sections[j][k] as i32 == x,
    decreases sections.len(),
{
    if sections.len() > 0 {
        let front = sections.drop_last();
        lemma_road_lanes_from_every_section(front);
        let last = sections.last();
        lemma_add_distinct_holds(road_lane_ids(front), last);
        assert forall|x: i32| #[trigger] road_lane_ids(sections).contains(x) <==> exists|j: int, k: int|
            0 <= j < sections.len() && 0 <= k < sections[j].len() && #[trigger] sections[j][k] as i32 == x by {
            if road_lane_ids(front).contains(x) {
                let (j, k) = choose|j: int, k: int| 0 <= j < front.len() && 0 <= k < front[j].len() && #[trigger] front[j][k] as i32 == x;
                assert(sections[j] == front[j]);
            }
            if exists|k: int| 0 <= k < last.len() && #[trigger] last[k] as i32 == x {
                let k = choose|k: int| 0 <= k < last.len() && #[trigger] last[k] as i32 == x;
                assert(sections[sections.len() - 1][k] as i32 == x);
            }
            if exists|j: int, k: int| 0 <= j < sections.len() && 0 <= k < sections[j].len() && #[trigger] sections[j][k] as i32 == x {
                let (j, k) = choose|j: int, k: int| 0 <= j < sections.len() && 0 <= k < sections[j].len() && #[trigger] sections[j][k] as i32 == x;
                if j < front.len() {
                    assert(front[j][k] as i32 == x);
                } else {
                    assert(last[k] as i32 == x);
                }
            }
        }
    } else {
        assert(road_lane_ids(sections).len() == 0);
    }
}

/// Road `l` is the last road of the network with this id.
pub open spec fn last_road_of(roads: Seq<XodrRoadModel>, id: Seq<char>, l: int) -> bool {
    &&& 0 <= l < roads.len()
    &&& roads[l].id == id
    &&& forall|j: int| l < j < roads.len() ==> roads[j].id != id
}

/// What the validator keeps of a road of the network.
pub open spec fn kept_entry(r: XodrRoadModel) -> RoadEntry {
    RoadEntry { id: r.id, length: r.length, lanes: road_lane_ids(r.sections) }
}

/// Recording `e` keeps every other id where it was, with its entry.
proof fn lemma_upsert_keeps_others(m: Seq<RoadEntry>, e: RoadEntry, id: Seq<char>)
    requires
        id != e.id,
        first_index(entry_ids(m), id) >= 0,
    ensures
        first_index(entry_ids(upsert(m, e)), id) == first_index(entry_ids(m), id),
        upsert(m, e)[first_index(entry_ids(m), id)] == m[first_index(entry_ids(m), id)],
{
    let ids = entry_ids(m);
    let n = upsert(m, e);
    let nids = entry_ids(n);
    let i0 = first_index(ids, id);
    lemma_first_index_bounds(ids, id);
    lemma_first_index_bounds(ids, e.id);
    let ie = first_index(ids, e.id);
    if ie < 0 {
        assert forall|j: int| 0 <= j < i0 implies nids[j] != id by {
            assert(nids[j] == ids[j]);
        }
        assert(nids[i0] == ids[i0]);
        lemma_first_index(nids, id, i0);
    } else {
        assert(nids =~= ids) by {
            assert forall|j: int| 0 <= j < ids.len() implies nids[j] == ids[j] by {
                if j == ie {
                    assert(nids[j] == e.id);
                }
            }
        }
        assert(ie != i0);
    }
}

/// Recording `e` puts it where its id is first found afterwards.
proof fn lemma_upsert_finds_it(m: Seq<RoadEntry>, e: RoadEntry)
    ensures
        first_index(entry_ids(upsert(m, e)), e.id) >= 0,
        upsert(m, e)[first_index(entry_ids(upsert(m, e)), e.id)] == e,
        forall|x: Seq<char>| #[trigger] entry_ids(upsert(m, e)).contains(x) ==> entry_ids(m).contains(x) || x == e.id,
{
    let ids = entry_ids(m);
    let n = upsert(m, e);
    let nids = entry_ids(n);
    lemma_first_index_bounds(ids, e.id);
    let ie = first_index(ids, e.id);
    if ie < 0 {
        assert forall|j: int| 0 <= j < ids.len() implies nids[j] != e.id by {
            assert(nids[j] == ids[j]);
        }
        assert(nids[ids.len() as int] == e.id);
        lemma_first_index(nids, e.id, ids.len() as int);
        assert forall|x: Seq<char>| #[trigger] nids.contains(x) implies ids.contains(x) || x == e.id by {
            let j = choose|j: int| 0 <= j < nids.len() && nids[j] == x;
            if j < ids.len() {
                assert(nids[j] == ids[j]);
            }
        }
    } else {
        assert(nids =~= ids) by {
            assert forall|j: int| 0 <= j < ids.len() implies nids[j] == ids[j] by {
                if j == ie {
                    assert(nids[j] == e.id);
                }
            }
        }
    }
}

/// The validator keeps, for every road id of the network, the entry of the
/// last road of that id, and keeps no other id.
pub proof fn lemma_cache_keeps_last_road(roads: Seq<XodrRoadModel>, id: Seq<char>, l: int)
    ensures
        last_road_of(roads, id, l) ==> first_index(entry_ids(cache_of(roads)), id) >= 0 && cache_of(roads)[first_index(
            entry_ids(cache_of(roads)),
            id,
        )] == kept_entry(roads[l]),
        entry_ids(cache_of(roads)).contains(id) ==> exists|j: int| 0 <= j < roads.len() && #[trigger] roads[j].id == id,
    decreases roads.len(),
{
    if roads.len() > 0 {
        let front = roads.drop_last();
        let e = kept_entry(roads.last());
        lemma_cache_keeps_last_road(front, id, l);
        lemma_upsert_finds_it(cache_of(front), e);
        if last_road_of(roads, id, l) && l < roads.len() - 1 {
            assert(last_road_of(front, id, l));
            assert(roads[roads.len() - 1].id != id);
            lemma_upsert_keeps_others(cache_of(front), e, id);
            assert(front[l] == roads[l]);
        }
        if entry_ids(cache_of(roads)).contains(id) {
            if id == e.id {
                assert(roads[roads.len() - 1].id == id);
            } else {
                let j = choose|j: int| 0 <= j < front.len() && #[trigger] front[j].id == id;
                assert(roads[j].id == id);
            }
        }
    }
}

/// A lane check on a road id that no road of the network has fails with
/// "road not found".
pub proof fn lemma_unknown_road_refused(v: OpenDriveValidator, roads: Seq<XodrRoadModel>, road_id: Seq<char>, lane: i32)
    requires
        v.roads() == cache_of(roads),
        forall|j: int| 0 <= j < roads.len() ==> roads[j].id != road_id,
    ensures
        v.spec_validate_lane_position(road_id, lane) == Err::<(), ValidationErrorView>(ValidationErrorView::RoadNotFound(road_id)),
        !v.spec_road_exists(road_id),
{
    lemma_cache_keeps_last_road(roads, road_id, 0);
    lemma_first_index_bounds(entry_ids(cache_of(roads)), road_id);
}

/// A lane check on a road of the network succeeds exactly when the lane
/// occurs in some lane section (any of them) of the last road of that id.
pub proof fn lemma_lane_check_by_sections(v: OpenDriveValidator, roads: Seq<XodrRoadModel>, road_id: Seq<char>, lane: i32, l: int)
    requires
        v.roads() == cache_of(roads),
        last_road_of(roads, road_id, l),
    ensures
        v.spec_validate_lane_position(road_id, lane) is Ok <==> exists|j: int, k: int|
            0 <= j < roads[l].sections.len() && 0 <= k < roads[l].sections[j].len() && #[trigger] roads[l].sections[j][k]
                as i32 == lane,
        !(v.spec_validate_lane_position(road_id, lane) is Ok) ==> v.spec_validate_lane_position(road_id, lane) == Err::<
            (),
            ValidationErrorView,
        >(ValidationErrorView::LaneNotFound(road_id, lane)),
{
    lemma_cache_keeps_last_road(roads, road_id, l);
    lemma_road_lanes_from_every_section(roads[l].sections);
}

/// A check of a finite `s` along a road of the network compares it with the
/// length of the last road of that id: it passes when `0 <= s <= length`,
/// and otherwise reports `s` out of that length.
pub proof fn lemma_road_check_by_length(v: OpenDriveValidator, roads: Seq<XodrRoadModel>, road_id: Seq<char>, s: Real, l: int)
    requires
        v.roads() == cache_of(roads),
        last_road_of(roads, road_id, l),
        s.spec_is_finite(),
    ensures
        v.spec_validate_road_position(road_id, s) == if s.spec_lt_zero() || roads[l].length.spec_lt(s) {
            Err::<(), ValidationErrorView>(ValidationErrorView::PositionOutOfBounds(road_id, s, roads[l].length))
        } else {
            Ok::<(), ValidationErrorView>(())
        },
{
    lemma_cache_keeps_last_road(roads, road_id, l);
}

/// The scenario tools accept exactly the vehicle categories car, truck, bus,
/// trailer, van, motorbike and bicycle, each under its own lower-case name,
/// and no other name.
pub proof fn lemma_tool_category_names(name: Seq<char>)
    ensures
        tool_category(name) == if name == "car"@ {
            Some(VehicleCategory::Car)
        } else if name == "truck"@ {
            Some(VehicleCategory::Truck)
        } else if name == "bus"@ {
            Some(VehicleCategory::Bus)
        } else if name == "trailer"@ {
            Some(VehicleCategory::Trailer)
        } else if name == "van"@ {
            Some(VehicleCategory::Van)
        } else if name == "motorbike"@ {
            Some(VehicleCategory::Motorbike)
        } else if name == "bicycle"@ {
            Some(VehicleCategory::Bicycle)
        } else {
            None
        },
{
    reveal_strlit("car");
    reveal_strlit("truck");
    reveal_strlit("bus");
    reveal_strlit("trailer");
    reveal_strlit("van");
    reveal_strlit("motorbike");
    reveal_strlit("bicycle");
    assert("car"@ =~= category_label(VehicleCategory::Car));
    assert("truck"@ =~= category_label(VehicleCategory::Truck));
    assert("bus"@ =~= category_label(VehicleCategory::Bus));
    assert("trailer"@ =~= category_label(VehicleCategory::Trailer));
    assert("van"@ =~= category_label(VehicleCategory::Van));
    assert("motorbike"@ =~= category_label(VehicleCategory::Motorbike));
    assert("bicycle"@ =~= category_label(VehicleCategory::Bicycle));
}

/// A category name the tools accept is the lower-case name of the category
/// it gives.
pub proof fn lemma_tool_category_label(name: Seq<char>)
    ensures
        tool_category(name) matches Some(c) ==> category_label(c) == name,
{
    lemma_tool_category_names(name);
}

} // verus!

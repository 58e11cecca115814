//! Checking positions against an OpenDRIVE road network.
use vstd::prelude::*;
use crate::quantity::Real;
use crate::text::{first_index, lemma_first_index, str_eq};

verus! {

/// Why a position does not fit the road network.
#[derive(Debug)]
pub enum ValidationError {
    /// The road network could not be read (the message says why).
    LoadError(String),
    /// No road has this id.
    RoadNotFound(String),
    /// The road has no lane with this id.
    LaneNotFound(String, i32),
    /// `s` lies outside the road: road id, `s`, road length (zero when `s` is not finite).
    PositionOutOfBounds(String, Real, Real),
}

/// The mathematical content of a [`ValidationError`].
pub enum ValidationErrorView {
    LoadError(Seq<char>),
    RoadNotFound(Seq<char>),
    LaneNotFound(Seq<char>, i32),
    PositionOutOfBounds(Seq<char>, Real, Real),
}

impl View for ValidationError {
    type V = ValidationErrorView;

    open spec fn view(&self) -> ValidationErrorView {
        match self {
            ValidationError::LoadError(m) => ValidationErrorView::LoadError(m@),
            ValidationError::RoadNotFound(r) => ValidationErrorView::RoadNotFound(r@),
            ValidationError::LaneNotFound(r, l) => ValidationErrorView::LaneNotFound(r@, *l),
            ValidationError::PositionOutOfBounds(r, s, len) => ValidationErrorView::PositionOutOfBounds(r@, *s, *len),
        }
    }
}

/// What the library reads of one OpenDRIVE road.
pub struct XodrRoad {
    pub id: String,
    /// Length of the reference line in metres.
    pub length: Real,
    /// For each lane section, the ids of its left, center and right lanes, in that order.
    pub sections: Vec<Vec<i64>>,
}

/// The content of a road as plain values.
pub struct XodrRoadModel {
    pub id: Seq<char>,
    pub length: Real,
    pub sections: Seq<Seq<i64>>,
}

impl XodrRoad {
    pub open spec fn model(&self) -> XodrRoadModel {
        XodrRoadModel {
            id: self.id@,
            length: self.length,
            sections: self.sections@.map_values(|s: Vec<i64>| s@),
        }
    }
}

/// What the `opendrive` crate reads from the document `xml`: its roads, or
/// the message of the error with which it rejects the document.
pub uninterp spec fn xodr_read(xml: Seq<char>) -> Result<Seq<XodrRoadModel>, Seq<char>>;

/// Calls `opendrive::core::OpenDrive::from_xml_str` and hands back, for every
/// road in document order, its id, its length (as a bit pattern) and the lane
/// ids of each lane section; on failure, the error's message. The result is
/// named, as a function of the document text.
#[verifier::external_body]
fn read_xodr(xml: &str) -> (r: Result<Vec<XodrRoad>, String>)
    ensures
        match r {
            Ok(roads) => xodr_read(xml@) == Ok::<Seq<XodrRoadModel>, Seq<char>>(roads@.map_values(|x: XodrRoad| x.model())),
            Err(m) => xodr_read(xml@) == Err::<Seq<XodrRoadModel>, Seq<char>>(m@),
        },
{
    Ok(opendrive::core::OpenDrive::from_xml_str(xml).map_err(|e| e.to_string())?.road.iter().map(|road| XodrRoad {
        id: road.id.clone(),
        length: Real { bits: road.length.value.to_bits() },
        sections: road.lanes.lane_section.iter().map(|s| s.left.iter().flat_map(|l| &l.lane).map(|x| x.id)
            .chain(s.center.lane.iter().map(|x| x.id))
            .chain(s.right.iter().flat_map(|r| &r.lane).map(|x| x.id)).collect()).collect(),
    }).collect())
}

/// A road as the validator keeps it.
pub struct RoadInfo {
    pub id: String,
    pub length: Real,
    /// Distinct lane ids of all lane sections, in order of first appearance.
    pub lane_ids: Vec<i32>,
}

/// The content of a kept road.
pub struct RoadEntry {
    pub id: Seq<char>,
    pub length: Real,
    pub lanes: Seq<i32>,
}

impl RoadInfo {
    pub open spec fn entry(&self) -> RoadEntry {
        RoadEntry { id: self.id@, length: self.length, lanes: self.lane_ids@ }
    }
}

/// The ids of a list of kept roads.
pub open spec fn entry_ids(m: Seq<RoadEntry>) -> Seq<Seq<char>> {
    m.map_values(|e: RoadEntry| e.id)
}

/// Records `e`, replacing the road of the same id if there is one.
pub open spec fn upsert(m: Seq<RoadEntry>, e: RoadEntry) -> Seq<RoadEntry> {
    let i = first_index(entry_ids(m), e.id);
    if i < 0 {
        m.push(e)
    } else {
        m.update(i, e)
    }
}

/// Appends `ids` (truncated to `i32`) to `acc`, skipping ids already present.
pub open spec fn add_distinct(acc: Seq<i32>, ids: Seq<i64>) -> Seq<i32>
    decreases ids.len(),
{
    if ids.len() == 0 {
        acc
    } else {
        let rest = add_distinct(acc, ids.drop_last());
        let id = ids.last() as i32;
        if rest.contains(id) {
            rest
        } else {
            rest.push(id)
        }
    }
}

/// The distinct lane ids of all sections of a road, in order of first appearance.
pub open spec fn road_lane_ids(sections: Seq<Seq<i64>>) -> Seq<i32>
    decreases sections.len(),
{
    if sections.len() == 0 {
        Seq::empty()
    } else {
        add_distinct(road_lane_ids(sections.drop_last()), sections.last())
    }
}

/// The roads kept for the document's roads, in order: each road id once,
/// with the data of the last road of that id.
pub open spec fn cache_of(roads: Seq<XodrRoadModel>) -> Seq<RoadEntry>
    decreases roads.len(),
{
    if roads.len() == 0 {
        Seq::empty()
    } else {
        let r = roads.last();
        upsert(
            cache_of(roads.drop_last()),
            RoadEntry { id: r.id, length: r.length, lanes: road_lane_ids(r.sections) },
        )
    }
}

/// Checks positions against the roads of an OpenDRIVE network.
pub struct OpenDriveValidator {
    road_cache: Vec<RoadInfo>,
}

impl OpenDriveValidator {
    /// The roads the validator knows.
    pub closed spec fn roads(self) -> Seq<RoadEntry> {
        self.road_cache@.map_values(|r: RoadInfo| r.entry())
    }

    /// The index of the road `id`, or -1.
    pub open spec fn road_index(self, id: Seq<char>) -> int {
        first_index(entry_ids(self.roads()), id)
    }

    pub open spec fn spec_road_exists(self, road_id: Seq<char>) -> bool {
        self.road_index(road_id) >= 0
    }

    pub open spec fn spec_validate_lane_position(self, road_id: Seq<char>, lane_id: i32) -> Result<(), ValidationErrorView> {
        let i = self.road_index(road_id);
        if i < 0 {
            Err(ValidationErrorView::RoadNotFound(road_id))
        } else if !self.roads()[i].lanes.contains(lane_id) {
            Err(ValidationErrorView::LaneNotFound(road_id, lane_id))
        } else {
            Ok(())
        }
    }

    pub open spec fn spec_validate_road_position(self, road_id: Seq<char>, s: Real) -> Result<(), ValidationErrorView> {
        let i = self.road_index(road_id);
        if !s.spec_is_finite() {
            Err(ValidationErrorView::PositionOutOfBounds(road_id, s, Real { bits: 0 }))
        } else if i < 0 {
            Err(ValidationErrorView::RoadNotFound(road_id))
        } else if s.spec_lt_zero() || self.roads()[i].length.spec_lt(s) {
            Err(ValidationErrorView::PositionOutOfBounds(road_id, s, self.roads()[i].length))
        } else {
            Ok(())
        }
    }

    /// Reads an OpenDRIVE document and records each road's length and lane ids.
    pub fn from_xodr_str(xml: &str) -> (r: Result<Self, ValidationError>)
        ensures
            match r {
                Ok(v) => xodr_read(xml@) matches Ok(roads) && v.roads() == cache_of(roads),
                Err(e) => xodr_read(xml@) matches Err(m) && e@ == ValidationErrorView::LoadError(
                    "Failed to parse OpenDRIVE XML: "@ + m),
            },
    {
        match read_xodr(xml) {
            Err(m) => {
                let msg = crate::text::concat2("Failed to parse OpenDRIVE XML: ", m.as_str());
                Err(ValidationError::LoadError(msg))
            },
            Ok(roads) => {
                let ghost models = roads@.map_values(|x: XodrRoad| x.model());
                let mut v = OpenDriveValidator { road_cache: Vec::new() };
                let mut k: usize = 0;
                assert(v.roads() =~= cache_of(models.subrange(0, 0)));
                while k < roads.len()
                    invariant
                        k <= roads@.len(),
                        models == roads@.map_values(|x: XodrRoad| x.model()),
                        v.roads() == cache_of(models.subrange(0, k as int)),
                    decreases roads@.len() - k,
                {
                    let road = &roads[k];
                    let lanes = collect_lane_ids(&road.sections);
                    v.insert_road(road.id.as_str(), road.length, lanes);
                    proof {
                        let after = models.subrange(0, k + 1);
                        assert(after.drop_last() =~= models.subrange(0, k as int));
                        assert(after.last() == models[k as int]);
                    }
                    k = k + 1;
                }
                assert(models.subrange(0, roads@.len() as int) =~= models);
                Ok(v)
            },
        }
    }

    /// Records a road, replacing an earlier road of the same id.
    fn insert_road(&mut self, id: &str, length: Real, lane_ids: Vec<i32>)
        ensures
            final(self).roads() == upsert(old(self).roads(), RoadEntry { id: id@, length, lanes: lane_ids@ }),
    {
        let mut i: usize = 0;
        let ghost ids = entry_ids(self.roads());
        while i < self.road_cache.len()
            invariant
                i <= self.road_cache@.len(),
                ids == entry_ids(self.roads()),
                ids.len() == self.road_cache@.len(),
                self.road_cache@ == old(self).road_cache@,
                forall|j: int| 0 <= j < i ==> ids[j] != id@,
            decreases self.road_cache@.len() - i,
        {
            if str_eq(self.road_cache[i].id.as_str(), id) {
                proof {
                    assert(ids[i as int] == self.road_cache@[i as int].id@);
                    lemma_first_index(ids, id@, i as int);
                }
                let info = RoadInfo { id: String::from_str(id), length, lane_ids };
                self.road_cache.set(i, info);
                proof {
                    assert(self.roads() =~= upsert(old(self).roads(), RoadEntry { id: id@, length, lanes: lane_ids@ }));
                }
                return;
            }
            proof {
                assert(ids[i as int] == self.road_cache@[i as int].id@);
            }
            i = i + 1;
        }
        proof {
            lemma_first_index(ids, id@, i as int);
        }
        self.road_cache.push(RoadInfo { id: String::from_str(id), length, lane_ids });
        assert(self.roads() =~= upsert(old(self).roads(), RoadEntry { id: id@, length, lanes: lane_ids@ }));
    }

    fn find_road(&self, road_id: &str) -> (r: Option<usize>)
        ensures
            match r {
                Some(i) => self.road_index(road_id@) == i && i < self.roads().len(),
                None => self.road_index(road_id@) == -1,
            },
    {
        let ghost ids = entry_ids(self.roads());
        let mut i: usize = 0;
        while i < self.road_cache.len()
            invariant
                i <= self.road_cache@.len(),
                ids == entry_ids(self.roads()),
                ids.len() == self.road_cache@.len(),
                forall|j: int| 0 <= j < i ==> ids[j] != road_id@,
            decreases self.road_cache@.len() - i,
        {
            assert(ids[i as int] == self.road_cache@[i as int].id@);
            if str_eq(self.road_cache[i].id.as_str(), road_id) {
                proof {
                    lemma_first_index(ids, road_id@, i as int);
                }
                return Some(i);
            }
            i = i + 1;
        }
        proof {
            lemma_first_index(ids, road_id@, i as int);
        }
        None
    }

    /// Whether a road of this id is known.
    pub fn road_exists(&self, road_id: &str) -> (b: bool)
        ensures
            b == self.spec_road_exists(road_id@),
    {
        self.find_road(road_id).is_some()
    }

    /// Checks `s` along road `road_id` (same as [`Self::validate_road_position`]).
    pub fn validate_position(&self, road_id: &str, s: Real) -> (r: Result<(), ValidationError>)
        ensures
            match r {
                Ok(()) => self.spec_validate_road_position(road_id@, s) is Ok,
                Err(e) => self.spec_validate_road_position(road_id@, s) == Err::<(), _>(e@),
            },
    {
        self.validate_road_position(road_id, s)
    }

    /// Checks that road `road_id` exists and has lane `lane_id`.
    pub fn validate_lane_position(&self, road_id: &str, lane_id: i32) -> (r: Result<(), ValidationError>)
        ensures
            match r {
                Ok(()) => self.spec_validate_lane_position(road_id@, lane_id) is Ok,
                Err(e) => self.spec_validate_lane_position(road_id@, lane_id) == Err::<(), _>(e@),
            },
    {
        match self.find_road(road_id) {
            None => Err(ValidationError::RoadNotFound(String::from_str(road_id))),
            Some(i) => {
                let lanes = &self.road_cache[i].lane_ids;
                assert(self.roads()[i as int].lanes == lanes@);
                if contains_i32(lanes, lane_id) {
                    return Ok(());
                }
                Err(ValidationError::LaneNotFound(String::from_str(road_id), lane_id))
            },
        }
    }

    /// Checks that `s` is finite, that road `road_id` exists and that `0 <= s <= length`.
    pub fn validate_road_position(&self, road_id: &str, s: Real) -> (r: Result<(), ValidationError>)
        ensures
            match r {
                Ok(()) => self.spec_validate_road_position(road_id@, s) is Ok,
                Err(e) => self.spec_validate_road_position(road_id@, s) == Err::<(), _>(e@),
            },
    {
        if !s.is_finite() {
            return Err(ValidationError::PositionOutOfBounds(String::from_str(road_id), s, Real::zero()));
        }
        match self.find_road(road_id) {
            None => Err(ValidationError::RoadNotFound(String::from_str(road_id))),
            Some(i) => {
                let length = self.road_cache[i].length;
                assert(self.roads()[i as int].length == length);
                if s.lt_zero() || length.lt(s) {
                    Err(ValidationError::PositionOutOfBounds(String::from_str(road_id), s, length))
                } else {
                    Ok(())
                }
            },
        }
    }
}

fn contains_i32(v: &Vec<i32>, x: i32) -> (b: bool)
    ensures
        b == v@.contains(x),
{
    let mut k: usize = 0;
    while k < v.len()
        invariant
            k <= v@.len(),
            forall|j: int| 0 <= j < k ==> v@[j] != x,
        decreases v@.len() - k,
    {
        if v[k] == x {
            assert(v@[k as int] == x);
            return true;
        }
        k = k + 1;
    }
    false
}

fn add_distinct_ids(acc: &mut Vec<i32>, ids: &Vec<i64>)
    ensures
        final(acc)@ == add_distinct(old(acc)@, ids@),
{
    let mut k: usize = 0;
    while k < ids.len()
        invariant
            k <= ids@.len(),
            acc@ == add_distinct(old(acc)@, ids@.subrange(0, k as int)),
        decreases ids@.len() - k,
    {
        let id = ids[k] as i32;
        let present = contains_i32(acc, id);
        if !present {
            acc.push(id);
        }
        proof {
            let pre = ids@.subrange(0, k + 1);
            assert(pre.drop_last() =~= ids@.subrange(0, k as int));
            assert(pre.last() == ids@[k as int]);
        }
        k = k + 1;
    }
    assert(ids@.subrange(0, ids@.len() as int) =~= ids@);
}

fn collect_lane_ids(sections: &Vec<Vec<i64>>) -> (r: Vec<i32>)
    ensures
        r@ == road_lane_ids(sections@.map_values(|s: Vec<i64>| s@)),
{
    let ghost models = sections@.map_values(|s: Vec<i64>| s@);
    let mut acc: Vec<i32> = Vec::new();
    let mut k: usize = 0;
    assert(models.subrange(0, 0) =~= Seq::<Seq<i64>>::empty());
    while k < sections.len()
        invariant
            k <= sections@.len(),
            models == sections@.map_values(|s: Vec<i64>| s@),
            acc@ == road_lane_ids(models.subrange(0, k as int)),
        decreases sections@.len() - k,
    {
        add_distinct_ids(&mut acc, &sections[k]);
        proof {
            let pre = models.subrange(0, k + 1);
            assert(pre.drop_last() =~= models.subrange(0, k as int));
            assert(pre.last() == models[k as int]);
        }
        k = k + 1;
    }
    assert(models.subrange(0, sections@.len() as int) =~= models);
    acc
}

} // verus!

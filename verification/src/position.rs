//! Positions of entities: world, lane, road and the relative kinds.
use vstd::prelude::*;
use crate::quantity::Real;
use crate::opendrive_validator::{OpenDriveValidator, ValidationError};

verus! {

/// Heading, pitch and roll, in radians.
#[derive(Clone, Debug, PartialEq)]
pub struct Orientation {
    pub h: Real,
    pub p: Real,
    pub r: Real,
}

impl Default for Orientation {
    fn default() -> (o: Self)
        ensures
            o.h.bits == 0 && o.p.bits == 0 && o.r.bits == 0,
    {
        Orientation { h: Real::zero(), p: Real::zero(), r: Real::zero() }
    }
}

/// A position in one of the OpenSCENARIO coordinate systems.
#[derive(Clone, Debug, PartialEq)]
pub enum Position {
    /// Absolute world coordinates and angles.
    World { x: Real, y: Real, z: Real, h: Real, p: Real, r: Real },
    /// A lane of a road, at distance `s` along it.
    Lane { road_id: String, lane_id: i32, s: Real, offset: Real, orientation: Option<Orientation> },
    /// Road coordinates `s` (along) and `t` (across).
    Road { road_id: String, s: Real, t: Real, orientation: Option<Orientation> },
    /// An offset from another entity in world axes.
    RelativeWorld { entity: String, dx: Real, dy: Real, dz: Real, orientation: Orientation },
    /// An offset from another entity in its own axes.
    RelativeObject { entity: String, dx: Real, dy: Real, dz: Real, orientation: Orientation },
    /// An offset from another entity in lanes.
    RelativeLane { entity: String, ds: Real, d_lane: i32, offset: Real, orientation: Option<Orientation> },
    /// An offset from another entity in road coordinates.
    RelativeRoad { entity: String, ds: Real, dt: Real, orientation: Option<Orientation> },
}

impl Position {
    /// The entity a relative position is measured from.
    pub open spec fn spec_referenced_entity(&self) -> Option<Seq<char>> {
        match self {
            Position::RelativeWorld { entity, .. } => Some(entity@),
            Position::RelativeObject { entity, .. } => Some(entity@),
            Position::RelativeLane { entity, .. } => Some(entity@),
            Position::RelativeRoad { entity, .. } => Some(entity@),
            _ => None,
        }
    }

    /// A world position with pitch and roll zero.
    pub fn world(x: Real, y: Real, z: Real, h: Real) -> (r: Self)
        ensures
            r == (Position::World { x, y, z, h, p: Real { bits: 0 }, r: Real { bits: 0 } }),
    {
        Position::World { x, y, z, h, p: Real::zero(), r: Real::zero() }
    }

    /// A position on a lane of a road.
    pub fn lane(road_id: &str, lane_id: i32, s: Real, offset: Real, orientation: Option<Orientation>) -> (r: Self)
        ensures
            r matches Position::Lane { road_id: rid, lane_id: l, s: s2, offset: o, orientation: or }
                && rid@ == road_id@ && l == lane_id && s2 == s && o == offset && or == orientation,
    {
        Position::Lane { road_id: String::from_str(road_id), lane_id, s, offset, orientation }
    }

    /// A position in road coordinates.
    pub fn road(road_id: &str, s: Real, t: Real, orientation: Option<Orientation>) -> (r: Self)
        ensures
            r matches Position::Road { road_id: rid, s: s2, t: t2, orientation: or } && rid@
                == road_id@ && s2 == s && t2 == t && or == orientation,
    {
        Position::Road { road_id: String::from_str(road_id), s, t, orientation }
    }

    /// An offset from `entity` in world axes.
    pub fn relative_world(entity: &str, dx: Real, dy: Real, dz: Real, orientation: Orientation) -> (r: Self)
        ensures
            r matches Position::RelativeWorld { entity: e, dx: a, dy: b, dz: c, orientation: or }
                && e@ == entity@ && a == dx && b == dy && c == dz && or == orientation,
    {
        Position::RelativeWorld { entity: String::from_str(entity), dx, dy, dz, orientation }
    }

    /// An offset from `entity` in its own axes.
    pub fn relative_object(entity: &str, dx: Real, dy: Real, dz: Real, orientation: Orientation) -> (r: Self)
        ensures
            r matches Position::RelativeObject { entity: e, dx: a, dy: b, dz: c, orientation: or }
                && e@ == entity@ && a == dx && b == dy && c == dz && or == orientation,
    {
        Position::RelativeObject { entity: String::from_str(entity), dx, dy, dz, orientation }
    }

    /// An offset from `entity` in lanes.
    pub fn relative_lane(entity: &str, ds: Real, d_lane: i32, offset: Real, orientation: Option<Orientation>) -> (r: Self)
        ensures
            r matches Position::RelativeLane { entity: e, ds: a, d_lane: b, offset: c, orientation: or }
                && e@ == entity@ && a == ds && b == d_lane && c == offset && or == orientation,
    {
        Position::RelativeLane { entity: String::from_str(entity), ds, d_lane, offset, orientation }
    }

    /// An offset from `entity` in road coordinates.
    pub fn relative_road(entity: &str, ds: Real, dt: Real, orientation: Option<Orientation>) -> (r: Self)
        ensures
            r matches Position::RelativeRoad { entity: e, ds: a, dt: b, orientation: or } && e@
                == entity@ && a == ds && b == dt && or == orientation,
    {
        Position::RelativeRoad { entity: String::from_str(entity), ds, dt, orientation }
    }

    /// The entity a relative position is measured from; `None` for world, lane and road positions.
    pub fn referenced_entity(&self) -> (r: Option<&str>)
        ensures
            match r {
                Some(e) => self.spec_referenced_entity() == Some(e@),
                None => self.spec_referenced_entity() is None,
            },
    {
        match self {
            Position::RelativeWorld { entity, .. } => Some(entity.as_str()),
            Position::RelativeObject { entity, .. } => Some(entity.as_str()),
            Position::RelativeLane { entity, .. } => Some(entity.as_str()),
            Position::RelativeRoad { entity, .. } => Some(entity.as_str()),
            _ => None,
        }
    }

    /// What checking the position against a road network gives: lane and road
    /// positions must name a known road (and lane) with `s` within the road;
    /// other positions always pass.
    pub open spec fn spec_validate(&self, validator: OpenDriveValidator) -> Result<(), crate::opendrive_validator::ValidationErrorView> {
        match self {
            Position::Lane { road_id, lane_id, s, .. } => match validator.spec_validate_lane_position(road_id@, *lane_id) {
                Err(e) => Err(e),
                Ok(()) => validator.spec_validate_road_position(road_id@, *s),
            },
            Position::Road { road_id, s, .. } => validator.spec_validate_road_position(road_id@, *s),
            _ => Ok(()),
        }
    }

    /// Checks a lane or road position against a loaded road network.
    pub fn validate(&self, validator: &OpenDriveValidator) -> (r: Result<(), ValidationError>)
        ensures
            match r {
                Ok(()) => self.spec_validate(*validator) is Ok,
                Err(e) => self.spec_validate(*validator) == Err::<(), _>(e@),
            },
    {
        match self {
            Position::Lane { road_id, lane_id, s, .. } => {
                validator.validate_lane_position(road_id.as_str(), *lane_id)?;
                validator.validate_road_position(road_id.as_str(), *s)?;
                Ok(())
            },
            Position::Road { road_id, s, .. } => {
                validator.validate_road_position(road_id.as_str(), *s)?;
                Ok(())
            },
            _ => Ok(()),
        }
    }
}

} // verus!

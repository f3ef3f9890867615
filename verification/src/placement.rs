//! Unit placement — how a map says what stands on it when the match begins:
//! one of its own units, a side, a spot, and a direction to face.

use vstd::prelude::*;

use crate::ids::UnitId;
use crate::navmesh::Point2;
use crate::scalar::Scalar;

verus! {

/// One unit the map stands up when the match begins.
#[derive(Clone, PartialEq, Debug)]
pub struct UnitPlacement {
    /// Which unit to spawn — a handle the declaring mod interned.
    pub unit: UnitId,
    /// The side it fights for (`0` is the neutral team).
    pub team: u32,
    /// Where it stands on the ground plane (world `XZ`).
    pub at: Point2,
    /// Which way it faces at spawn — a yaw in radians, `0` looking down `-Z`.
    pub facing: Scalar,
    /// How long after dying it comes back, in seconds; `None` stays down.
    pub respawn: Option<Scalar>,
}

} // verus!

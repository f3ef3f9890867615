//! Navigation geometry — the walkable shape of a map as a mod ships it: an
//! outline, holes punched in it, an agent radius, and what stands on it.

use vstd::prelude::*;

use crate::ids::NavMeshId;
use crate::placement::UnitPlacement;
use crate::scalar::Scalar;

verus! {

/// A ground point on the navigation plane (world `XZ`).
pub type Point2 = [Scalar; 2];

/// One walkable region of a map: an outline with holes, pre-inset for an agent
/// of `agent_radius`.
#[derive(Clone, PartialEq, Debug)]
pub struct NavMeshDescriptor {
    /// This mesh's interned handle.
    pub id: NavMeshId,
    /// The walkable boundary, in order.
    pub outline: Vec<Point2>,
    /// Holes in the walkable region — each an ordered ring of ground points.
    pub obstacles: Vec<Vec<Point2>>,
    /// How far walkable space is pulled back from every edge, world units.
    pub agent_radius: Scalar,
    /// What stands on this map when the match begins.
    pub placements: Vec<UnitPlacement>,
}

} // verus!

//! The ground contact detector: from the hits of a downward probe to the
//! grounded tag.
//!
//! The tag is recomputed from scratch in every tick. Nothing is remembered
//! from the tick before, so a body on an edge may gain and lose the tag from
//! one tick to the next.

use crate::profile::MaxSlopeAngle;
use crate::scalar::{fixed_abs, Scalar};
use vstd::prelude::*;

verus! {

/// The tag of a body that stands on the ground. A body wears it only while
/// its last probe found ground.
#[derive(Clone, Copy, Debug, PartialEq, Eq, Structural)]
pub struct Grounded;

/// One contact found by the downward probe.
#[derive(Clone, Copy, Debug, PartialEq, Eq, Structural)]
pub struct ShapeHit {
    /// The angle in radians between world-up and the contact normal, the
    /// normal taken in world space and pointing away from the surface.
    pub slope_angle: Scalar,
}

/// What the detector reads of one body in one tick.
#[derive(Debug)]
pub struct GroundProbe {
    /// The contacts that the probe reported in this tick.
    pub hits: Vec<ShapeHit>,
    /// The slope limit of the body, if it has one.
    pub max_slope_angle: Option<MaxSlopeAngle>,
}

impl ShapeHit {
    /// The hit is shallow enough to stand on: with no limit every hit is,
    /// with a limit those whose normal leans away from world-up by no more
    /// than the limit.
    pub open spec fn is_ground(self, max_slope_angle: Option<MaxSlopeAngle>) -> bool {
        match max_slope_angle {
            Some(angle) => fixed_abs(self.slope_angle@) <= angle.0@,
            None => true,
        }
    }

    /// Whether the hit is shallow enough to stand on.
    pub fn counts_as_ground(&self, max_slope_angle: Option<MaxSlopeAngle>) -> (r: bool)
        ensures
            r == self.is_ground(max_slope_angle),
    {
        match max_slope_angle {
            Some(angle) => self.slope_angle.saturating_abs().raw <= angle.0.raw,
            None => true,
        }
    }
}

/// Some hit among `hits` is shallow enough to stand on.
pub open spec fn grounded(hits: Seq<ShapeHit>, max_slope_angle: Option<MaxSlopeAngle>) -> bool {
    exists|i: int| 0 <= i < hits.len() && (#[trigger] hits[i]).is_ground(max_slope_angle)
}

/// Whether a body with these probe hits stands on the ground.
pub fn is_grounded(hits: &Vec<ShapeHit>, max_slope_angle: Option<MaxSlopeAngle>) -> (r: bool)
    ensures
        r == grounded(hits@, max_slope_angle),
{
    let mut i: usize = 0;
    while i < hits.len()
        invariant
            i <= hits.len(),
            forall|k: int| 0 <= k < i ==> !(#[trigger] hits@[k]).is_ground(max_slope_angle),
        decreases hits.len() - i,
    {
        if hits[i].counts_as_ground(max_slope_angle) {
            return true;
        }
        i += 1;
    }
    false
}

/// Decides for every probed body whether it wears the grounded tag after
/// this tick: `Some` where the tag is to be put on, `None` where it is to be
/// taken off.
pub fn update_grounded(probes: &Vec<GroundProbe>) -> (tags: Vec<Option<Grounded>>)
    ensures
        tags.len() == probes.len(),
        forall|i: int|
            0 <= i < probes.len() ==> ((#[trigger] tags[i]).is_some() <==> grounded(
                probes[i].hits@,
                probes[i].max_slope_angle,
            )),
{
    let mut tags: Vec<Option<Grounded>> = Vec::new();
    let mut i: usize = 0;
    while i < probes.len()
        invariant
            i <= probes.len(),
            tags.len() == i,
            forall|k: int|
                0 <= k < i ==> ((#[trigger] tags[k]).is_some() <==> grounded(
                    probes[k].hits@,
                    probes[k].max_slope_angle,
                )),
        decreases probes.len() - i,
    {
        let probe = &probes[i];
        if is_grounded(&probe.hits, probe.max_slope_angle) {
            tags.push(Some(Grounded));
        } else {
            tags.push(None);
        }
        i += 1;
    }
    tags
}

/// With a slope limit of zero, a body is grounded exactly when the normal of
/// some hit is world-up itself.
pub proof fn lemma_level_ground_only(hits: Seq<ShapeHit>)
    ensures
        grounded(hits, Some(MaxSlopeAngle(Scalar { raw: 0 }))) <==> exists|i: int|
            0 <= i < hits.len() && (#[trigger] hits[i]).slope_angle@ == 0,
{
    let level = Some(MaxSlopeAngle(Scalar { raw: 0 }));
    if grounded(hits, level) {
        let i = choose|i: int| 0 <= i < hits.len() && (#[trigger] hits[i]).is_ground(level);
        assert(hits[i].slope_angle@ == 0);
    }
    if exists|i: int| 0 <= i < hits.len() && (#[trigger] hits[i]).slope_angle@ == 0 {
        let i = choose|i: int| 0 <= i < hits.len() && (#[trigger] hits[i]).slope_angle@ == 0;
        assert(hits[i].is_ground(level));
    }
}

/// A body whose every hit is steeper than its limit is not grounded.
pub proof fn lemma_too_steep(hits: Seq<ShapeHit>, limit: MaxSlopeAngle)
    requires
        forall|i: int| 0 <= i < hits.len() ==> fixed_abs((#[trigger] hits[i]).slope_angle@) > limit.0@,
    ensures
        !grounded(hits, Some(limit)),
{
}

/// Raising the slope limit, or dropping it, never takes a body off the
/// ground.
pub proof fn lemma_grounded_monotonic(
    hits: Seq<ShapeHit>,
    lower: MaxSlopeAngle,
    higher: Option<MaxSlopeAngle>,
)
    requires
        higher matches Some(angle) ==> lower.0@ <= angle.0@,
        grounded(hits, Some(lower)),
    ensures
        grounded(hits, higher),
{
    let i = choose|i: int| 0 <= i < hits.len() && (#[trigger] hits[i]).is_ground(Some(lower));
    assert(hits[i].is_ground(higher));
}

} // verus!

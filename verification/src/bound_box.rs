//! Bounding: the camera is held inside an axis-aligned box.
use crate::transform::{Transform, Vec3};
use crate::MainCameraTag;
use vstd::prelude::*;

verus! {

/// One coordinate raised to `lo` where it is less, then lowered to `hi`
/// where it is more.
pub open spec fn clamped_axis(v: i64, lo: i64, hi: i64) -> i64 {
    let raised = if v < lo {
        lo
    } else {
        v
    };
    if raised > hi {
        hi
    } else {
        raised
    }
}

/// The box in which the camera is held.
#[derive(Clone, Copy, Debug, PartialEq, Eq, Structural)]
pub struct CameraBoundBoxConfig {
    /// The least position of the camera, axis by axis.
    pub min: Vec3,
    /// The greatest position of the camera, axis by axis.
    pub max: Vec3,
}

impl CameraBoundBoxConfig {
    /// On no axis is the least bound above the greatest.
    pub open spec fn ordered(&self) -> bool {
        &&& self.min.x <= self.max.x
        &&& self.min.y <= self.max.y
        &&& self.min.z <= self.max.z
    }

    /// `position` lies inside the box on every axis.
    pub open spec fn holds(&self, position: Vec3) -> bool {
        &&& self.min.x <= position.x <= self.max.x
        &&& self.min.y <= position.y <= self.max.y
        &&& self.min.z <= position.z <= self.max.z
    }

    /// `position` with each coordinate held between the bounds of its own
    /// axis. Where the bounds of an axis cross, the greatest wins.
    pub open spec fn bounded(&self, position: Vec3) -> Vec3 {
        Vec3 {
            x: clamped_axis(position.x, self.min.x, self.max.x),
            y: clamped_axis(position.y, self.min.y, self.max.y),
            z: clamped_axis(position.z, self.min.z, self.max.z),
        }
    }

    /// Holds `position` inside the box.
    pub fn clamp(&self, position: Vec3) -> (held: Vec3)
        ensures
            held == self.bounded(position),
    {
        Vec3 {
            x: clamp_axis(position.x, self.min.x, self.max.x),
            y: clamp_axis(position.y, self.min.y, self.max.y),
            z: clamp_axis(position.z, self.min.z, self.max.z),
        }
    }
}

/// The camera after bounding: its position held inside the box that is
/// given, its roll as it was. Without a box the camera stays as it is.
pub open spec fn boxed(given: Option<CameraBoundBoxConfig>, camera: Transform) -> Transform {
    match given {
        Some(config) => Transform {
            translation: config.bounded(camera.translation),
            rotation: camera.rotation,
        },
        None => camera,
    }
}

/// One coordinate held between `lo` and `hi`.
pub fn clamp_axis(v: i64, lo: i64, hi: i64) -> (held: i64)
    ensures
        held == clamped_axis(v, lo, hi),
{
    let raised = if v < lo {
        lo
    } else {
        v
    };
    if raised > hi {
        hi
    } else {
        raised
    }
}

/// Holds the camera inside the box. The camera is the first entry of
/// `camera_query`; without a box, or without a camera, nothing changes.
pub fn bounding_box(
    bound_box_config: Option<CameraBoundBoxConfig>,
    camera_query: &mut Vec<(MainCameraTag, Transform)>,
)
    ensures
        final(camera_query)@.len() == old(camera_query)@.len(),
        forall|i: int|
            1 <= i < old(camera_query)@.len() ==> final(camera_query)@[i] == old(camera_query)@[i],
        old(camera_query)@.len() > 0 ==> final(camera_query)@[0] == (
            MainCameraTag,
            boxed(bound_box_config, old(camera_query)@[0].1),
        ),
{
    let config = match bound_box_config {
        Some(config) => config,
        None => {
            return ;
        },
    };
    if camera_query.len() == 0 {
        return ;
    }
    let camera = &mut camera_query[0].1;
    camera.translation = config.clamp(camera.translation);
}

/// Bounding twice is bounding once.
pub proof fn lemma_bounded_idempotent(config: CameraBoundBoxConfig, position: Vec3)
    ensures
        config.bounded(config.bounded(position)) == config.bounded(position),
{
}

/// A position inside the box is left where it is.
pub proof fn lemma_bounded_inside_unchanged(config: CameraBoundBoxConfig, position: Vec3)
    requires
        config.holds(position),
    ensures
        config.bounded(position) == position,
{
}

/// Where no axis has crossed bounds, the bounded position is inside the
/// box.
pub proof fn lemma_bounded_inside(config: CameraBoundBoxConfig, position: Vec3)
    requires
        config.ordered(),
    ensures
        config.holds(config.bounded(position)),
{
}

/// Bounding keeps order on each axis, whatever stands on the others: of
/// two positions, the one that is further along an axis is still at least
/// as far along it once both are bounded.
pub proof fn lemma_bounded_monotone(config: CameraBoundBoxConfig, a: Vec3, b: Vec3)
    ensures
        a.x <= b.x ==> config.bounded(a).x <= config.bounded(b).x,
        a.y <= b.y ==> config.bounded(a).y <= config.bounded(b).y,
        a.z <= b.z ==> config.bounded(a).z <= config.bounded(b).z,
{
}

/// Each axis is bounded by itself: the bounded coordinate of an axis
/// depends on nothing but that axis of the position and of the box.
pub proof fn lemma_bounded_axis_by_axis(
    config: CameraBoundBoxConfig,
    other: CameraBoundBoxConfig,
    a: Vec3,
    b: Vec3,
)
    ensures
        a.x == b.x && config.min.x == other.min.x && config.max.x == other.max.x
            ==> config.bounded(a).x == other.bounded(b).x,
        a.y == b.y && config.min.y == other.min.y && config.max.y == other.max.y
            ==> config.bounded(a).y == other.bounded(b).y,
        a.z == b.z && config.min.z == other.min.z && config.max.z == other.max.z
            ==> config.bounded(a).z == other.bounded(b).z,
{
}

} // verus!

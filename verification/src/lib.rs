//! Camera control for a 2D scene, over plain integer values: following a
//! set of targets, holding the camera inside a box, and shaking.
//!
//! A scene is given as lists of entities. The camera is the first entry of
//! the list of cameras, and `init` sees to it that there is one at most.
use crate::bound_box::{bounding_box, boxed, CameraBoundBoxConfig};
use crate::focus::{config_in_force, focus_target, focused, CameraFocusConfig, FocusTarget};
use crate::shake::{apply_shake_2d, stepped, CameraShake, RandomSource};
use crate::transform::{Time, Transform};
use vstd::prelude::*;

pub mod bound_box;
pub mod fixed;
pub mod focus;
pub mod shake;
pub mod transform;

verus! {

/// Marks the entity that is the camera.
#[derive(Clone, Copy, Debug, PartialEq, Eq, Structural)]
pub struct MainCameraTag;

/// There is one camera at most.
pub open spec fn one_camera_at_most(cameras: Seq<(MainCameraTag, Transform)>) -> bool {
    cameras.len() <= 1
}

/// Creates the camera at `transform`, unless there is a camera already:
/// then nothing changes. Says whether the camera was created. A scene that
/// gets its cameras from here has one camera at most.
pub fn init(cameras: &mut Vec<(MainCameraTag, Transform)>, transform: Transform) -> (created: bool)
    ensures
        created <==> old(cameras)@.len() == 0,
        created ==> final(cameras)@ == seq![(MainCameraTag, transform)],
        !created ==> final(cameras)@ == old(cameras)@,
        one_camera_at_most(old(cameras)@) ==> final(cameras)@.len() == 1,
{
    if cameras.len() == 0 {
        cameras.push((MainCameraTag, transform));
        true
    } else {
        false
    }
}

/// What the camera behaviours read and change in a scene.
pub struct Scene<R: RandomSource> {
    /// How the camera follows its targets, if it is configured.
    pub focus_config: Option<CameraFocusConfig>,
    /// The box in which the camera is held, if there is one.
    pub bound_box_config: Option<CameraBoundBoxConfig>,
    /// The entities marked as camera.
    pub cameras: Vec<(MainCameraTag, Transform)>,
    /// The entities that the camera follows.
    pub focus_targets: Vec<(FocusTarget, Transform)>,
    /// The entities that shake.
    pub shakes: Vec<(Transform, CameraShake<R>)>,
}

/// The camera behaviours of a frame, in their order.
#[derive(Clone, Copy, Debug, PartialEq, Eq, Structural)]
pub struct CineCam2DPlugin;

impl CineCam2DPlugin {
    /// One frame: the camera follows its targets, the shaking entities
    /// shake, and last the camera is held inside its box, so that what the
    /// frame leaves is bounded.
    pub fn update<R: RandomSource>(&self, scene: &mut Scene<R>, time: &Time)
        ensures
            final(scene).focus_config == old(scene).focus_config,
            final(scene).bound_box_config == old(scene).bound_box_config,
            final(scene).focus_targets == old(scene).focus_targets,
            final(scene).cameras@.len() == old(scene).cameras@.len(),
            forall|i: int|
                1 <= i < old(scene).cameras@.len() ==> final(scene).cameras@[i] == old(
                    scene,
                ).cameras@[i],
            old(scene).cameras@.len() > 0 ==> final(scene).cameras@[0] == (
                MainCameraTag,
                boxed(
                    old(scene).bound_box_config,
                    focused(
                        old(scene).cameras@[0].1,
                        old(scene).focus_targets@,
                        config_in_force(old(scene).focus_config),
                    ),
                ),
            ),
            old(scene).cameras@.len() > 0 ==> (old(scene).bound_box_config matches Some(config)
                ==> config.ordered() ==> config.holds(final(scene).cameras@[0].1.translation)),
            final(scene).shakes@.len() == old(scene).shakes@.len(),
            forall|i: int|
                #![trigger final(scene).shakes@[i]]
                0 <= i < old(scene).shakes@.len() ==> stepped(
                    old(scene).shakes@[i].1,
                    final(scene).shakes@[i].1,
                    final(scene).shakes@[i].0,
                    *time,
                ),
    {
        focus_target(scene.focus_config, &scene.focus_targets, &mut scene.cameras);
        apply_shake_2d(&mut scene.shakes, time);
        bounding_box(scene.bound_box_config, &mut scene.cameras);
    }
}

} // verus!

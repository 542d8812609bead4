//! Focus: the camera follows the mean position of its targets.
use crate::fixed::{
    lemma_share_within, lemma_trunc_div_monotone, lemma_trunc_div_multiple, saturated, trunc_div,
    ONE,
};
use crate::transform::{Axis, Transform, Vec3};
use crate::MainCameraTag;
use vstd::math::min;
use vstd::prelude::*;
use vstd::seq_lib::{to_multiset_contains, to_multiset_len, to_multiset_remove};

verus! {

/// How the camera follows its targets.
#[derive(Clone, Copy, Debug, PartialEq, Eq, Structural)]
pub struct CameraFocusConfig {
    /// The offset from the targets' mean position to the point in focus.
    pub offset: Vec3,
    /// The smoothing, in millionths: at 0 the camera is on the point at
    /// once, and the nearer to one whole, the less it moves in a frame.
    /// One whole or more holds it still.
    pub lerp: u32,
}

impl Default for CameraFocusConfig {
    /// No offset and no smoothing.
    fn default() -> (config: Self)
        ensures
            config == (CameraFocusConfig { offset: Vec3::origin(), lerp: 0 }),
    {
        CameraFocusConfig { offset: Vec3 { x: 0, y: 0, z: 0 }, lerp: 0 }
    }
}

/// Marks an entity that the camera follows.
#[derive(Clone, Copy, Debug, PartialEq, Eq, Structural)]
pub struct FocusTarget;

/// The configuration in force: the one given, or else the default.
pub open spec fn config_in_force(given: Option<CameraFocusConfig>) -> CameraFocusConfig {
    match given {
        Some(config) => config,
        None => CameraFocusConfig { offset: Vec3::origin(), lerp: 0 },
    }
}

/// The sum of the targets' coordinates along `axis`.
pub open spec fn axis_total(targets: Seq<(FocusTarget, Transform)>, axis: Axis) -> int
    decreases targets.len(),
{
    if targets.len() == 0 {
        0
    } else {
        axis_total(targets.drop_last(), axis) + targets.last().1.translation.along(axis)
    }
}

/// The mean of the targets' coordinates along `axis`, rounded toward zero.
pub open spec fn axis_mean(targets: Seq<(FocusTarget, Transform)>, axis: Axis) -> int
    recommends
        targets.len() > 0,
{
    trunc_div(axis_total(targets, axis), targets.len() as int)
}

/// The point in focus: the mean position of the targets plus the offset,
/// each coordinate held within `i64`.
pub open spec fn focus_point(targets: Seq<(FocusTarget, Transform)>, offset: Vec3) -> Vec3
    recommends
        targets.len() > 0,
{
    Vec3 {
        x: saturated(axis_mean(targets, Axis::X) + offset.x),
        y: saturated(axis_mean(targets, Axis::Y) + offset.y),
        z: saturated(axis_mean(targets, Axis::Z) + offset.z),
    }
}

/// The share of the way to the point that the camera covers in a frame:
/// one whole less the smoothing.
pub open spec fn weight(lerp: u32) -> int {
    ONE - min(lerp as int, ONE as int)
}

/// Where a coordinate at `from` stands after a frame spent moving to `to`.
pub open spec fn approach(from: int, to: int, lerp: u32) -> int {
    from + trunc_div((to - from) * weight(lerp), ONE as int)
}

/// The camera after a frame of following `targets`: x and y approach the
/// point in focus, the depth and the roll stay. Without a target the camera
/// stays as it is. (A coordinate that approaches lies between where it was
/// and the point, so it is a coordinate again: `lemma_smoothing_limits_step`.)
pub open spec fn focused(
    camera: Transform,
    targets: Seq<(FocusTarget, Transform)>,
    config: CameraFocusConfig,
) -> Transform {
    if targets.len() == 0 {
        camera
    } else {
        let point = focus_point(targets, config.offset);
        Transform {
            translation: Vec3 {
                x: approach(camera.translation.x as int, point.x as int, config.lerp) as i64,
                y: approach(camera.translation.y as int, point.y as int, config.lerp) as i64,
                z: camera.translation.z,
            },
            rotation: camera.rotation,
        }
    }
}

/// Taking one target out takes its coordinate out of the sum.
pub proof fn lemma_axis_total_remove(targets: Seq<(FocusTarget, Transform)>, axis: Axis, i: int)
    requires
        0 <= i < targets.len(),
    ensures
        axis_total(targets, axis) == axis_total(targets.remove(i), axis)
            + targets[i].1.translation.along(axis),
    decreases targets.len(),
{
    if i == targets.len() - 1 {
        assert(targets.remove(i) =~= targets.drop_last());
    } else {
        lemma_axis_total_remove(targets.drop_last(), axis, i);
        assert(targets.remove(i).drop_last() =~= targets.drop_last().remove(i));
        assert(targets.remove(i).last() == targets.last());
    }
}

/// The sum does not depend on the order of the targets.
pub proof fn lemma_axis_total_any_order(
    a: Seq<(FocusTarget, Transform)>,
    b: Seq<(FocusTarget, Transform)>,
    axis: Axis,
)
    requires
        a.to_multiset() == b.to_multiset(),
    ensures
        a.len() == b.len(),
        axis_total(a, axis) == axis_total(b, axis),
    decreases a.len(),
{
    to_multiset_len(a);
    to_multiset_len(b);
    if a.len() > 0 {
        let last = a.last();
        to_multiset_contains(a, last);
        to_multiset_contains(b, last);
        assert(a.contains(last));
        let i = choose|i: int| 0 <= i < b.len() && b[i] == last;
        to_multiset_remove(a, a.len() - 1);
        to_multiset_remove(b, i);
        assert(a.remove(a.len() - 1) =~= a.drop_last());
        lemma_axis_total_any_order(a.drop_last(), b.remove(i), axis);
        lemma_axis_total_remove(b, axis, i);
    }
}

/// The point in focus is the mean of the targets plus the offset whatever
/// the order in which the targets are given.
pub proof fn lemma_focus_point_any_order(
    a: Seq<(FocusTarget, Transform)>,
    b: Seq<(FocusTarget, Transform)>,
    offset: Vec3,
)
    requires
        a.to_multiset() == b.to_multiset(),
    ensures
        focus_point(a, offset) == focus_point(b, offset),
{
    lemma_axis_total_any_order(a, b, Axis::X);
    lemma_axis_total_any_order(a, b, Axis::Y);
    lemma_axis_total_any_order(a, b, Axis::Z);
}

/// A sum of `n` coordinates lies within `n` times the range of one.
pub proof fn lemma_axis_total_within(targets: Seq<(FocusTarget, Transform)>, axis: Axis)
    ensures
        i64::MIN * targets.len() <= axis_total(targets, axis) <= i64::MAX * targets.len(),
    decreases targets.len(),
{
    if targets.len() > 0 {
        lemma_axis_total_within(targets.drop_last(), axis);
        let n = targets.len() as int;
        assert(i64::MIN * n == i64::MIN * (n - 1) + i64::MIN) by (nonlinear_arith);
        assert(i64::MAX * n == i64::MAX * (n - 1) + i64::MAX) by (nonlinear_arith);
    }
}

/// Without smoothing the camera is on the point at once.
pub proof fn lemma_snap_without_smoothing(from: int, to: int)
    ensures
        approach(from, to, 0) == to,
{
    lemma_trunc_div_multiple(to - from, ONE as int);
}

/// Without smoothing the camera is on the point in focus after one frame,
/// at the depth at which it was.
pub proof fn lemma_focused_snaps_without_smoothing(
    camera: Transform,
    targets: Seq<(FocusTarget, Transform)>,
    config: CameraFocusConfig,
)
    requires
        targets.len() > 0,
        config.lerp == 0,
    ensures
        focused(camera, targets, config).translation == (Vec3 {
            x: focus_point(targets, config.offset).x,
            y: focus_point(targets, config.offset).y,
            z: camera.translation.z,
        }),
{
    let point = focus_point(targets, config.offset);
    lemma_snap_without_smoothing(camera.translation.x as int, point.x as int);
    lemma_snap_without_smoothing(camera.translation.y as int, point.y as int);
}

/// Smoothing limits the step of a frame: the camera moves toward the
/// point, not past it, and by no more than the share `weight(lerp)` of
/// the distance. At one whole of smoothing it does not move.
pub proof fn lemma_smoothing_limits_step(from: int, to: int, lerp: u32)
    ensures
        from <= to ==> from <= approach(from, to, lerp) <= to,
        from >= to ==> from >= approach(from, to, lerp) >= to,
        from <= to ==> (approach(from, to, lerp) - from) * ONE <= (to - from) * weight(lerp),
        from >= to ==> (from - approach(from, to, lerp)) * ONE <= (from - to) * weight(lerp),
        lerp >= ONE ==> approach(from, to, lerp) == from,
{
    lemma_share_within(to - from, weight(lerp), ONE as int);
    if lerp >= ONE {
        assert((to - from) * 0 == 0) by (nonlinear_arith);
    }
    let step = trunc_div((to - from) * weight(lerp), ONE as int);
    let w = weight(lerp);
    assert((from - to) * w == -((to - from) * w)) by (nonlinear_arith);
}

/// A sum of coordinates divided by their count, plus an offset, held
/// within `i64`.
fn mean_plus(total: i128, count: usize, offset: i64) -> (at: i64)
    requires
        count > 0,
        i64::MIN * count <= total <= i64::MAX * count,
    ensures
        at == saturated(trunc_div(total as int, count as int) + offset),
{
    proof {
        let n = count as int;
        lemma_trunc_div_multiple(i64::MIN as int, n);
        lemma_trunc_div_multiple(i64::MAX as int, n);
        lemma_trunc_div_monotone(i64::MIN * n, total as int, n);
        lemma_trunc_div_monotone(total as int, i64::MAX * n, n);
    }
    let mean: i128 = total / (count as i128);
    let at: i128 = mean + offset as i128;
    if at < i64::MIN as i128 {
        i64::MIN
    } else if at > i64::MAX as i128 {
        i64::MAX
    } else {
        at as i64
    }
}

/// The point in focus of `targets`, or `None` where there is no target.
pub fn find_focus_point(targets: &Vec<(FocusTarget, Transform)>, offset: Vec3) -> (point: Option<
    Vec3,
>)
    ensures
        targets@.len() == 0 <==> point is None,
        targets@.len() > 0 ==> point == Some(focus_point(targets@, offset)),
{
    let count = targets.len();
    if count == 0 {
        return None;
    }
    let mut x: i128 = 0;
    let mut y: i128 = 0;
    let mut z: i128 = 0;
    let mut i: usize = 0;
    while i < count
        invariant
            i <= count,
            count == targets@.len(),
            x == axis_total(targets@.take(i as int), Axis::X),
            y == axis_total(targets@.take(i as int), Axis::Y),
            z == axis_total(targets@.take(i as int), Axis::Z),
        decreases count - i,
    {
        proof {
            let seen = targets@.take(i as int);
            let next = targets@.take(i + 1);
            assert(next.drop_last() =~= seen);
            assert(next.last() == targets@[i as int]);
            lemma_axis_total_within(seen, Axis::X);
            lemma_axis_total_within(seen, Axis::Y);
            lemma_axis_total_within(seen, Axis::Z);
            assert(i64::MIN * i >= i64::MIN * (u64::MAX - 1) && i64::MAX * i <= i64::MAX * (u64::MAX
                - 1)) by (nonlinear_arith)
                requires
                    0 <= i <= u64::MAX - 1,
            ;
        }
        let at = &targets[i].1.translation;
        x = x + at.x as i128;
        y = y + at.y as i128;
        z = z + at.z as i128;
        i += 1;
    }
    proof {
        assert(targets@.take(count as int) =~= targets@);
        lemma_axis_total_within(targets@, Axis::X);
        lemma_axis_total_within(targets@, Axis::Y);
        lemma_axis_total_within(targets@, Axis::Z);
    }
    Some(
        Vec3 {
            x: mean_plus(x, count, offset.x),
            y: mean_plus(y, count, offset.y),
            z: mean_plus(z, count, offset.z),
        },
    )
}

/// Where a coordinate at `from` stands after a frame spent moving to `to`.
pub fn approach_axis(from: i64, to: i64, lerp: u32) -> (at: i64)
    ensures
        at == approach(from as int, to as int, lerp),
{
    let held: u32 = if lerp > ONE {
        ONE
    } else {
        lerp
    };
    let share: i128 = (ONE - held) as i128;
    let gap: i128 = to as i128 - from as i128;
    proof {
        lemma_share_within(gap as int, share as int, ONE as int);
        assert(-(u64::MAX * ONE) <= gap * share <= u64::MAX * ONE) by (nonlinear_arith)
            requires
                -u64::MAX <= gap <= u64::MAX,
                0 <= share <= ONE,
        ;
    }
    let step: i128 = gap * share / (ONE as i128);
    (from as i128 + step) as i64
}

/// Moves the camera toward the point in focus of the targets. The camera
/// is the first entry of `camera_query`; without a camera, or without a
/// target, nothing changes. Without a configuration the default is in
/// force.
pub fn focus_target(
    camera_focus_config: Option<CameraFocusConfig>,
    focus_target_query: &Vec<(FocusTarget, Transform)>,
    camera_query: &mut Vec<(MainCameraTag, Transform)>,
)
    ensures
        final(camera_query)@.len() == old(camera_query)@.len(),
        forall|i: int|
            1 <= i < old(camera_query)@.len() ==> final(camera_query)@[i] == old(camera_query)@[i],
        old(camera_query)@.len() > 0 ==> final(camera_query)@[0] == (
            MainCameraTag,
            focused(
                old(camera_query)@[0].1,
                focus_target_query@,
                config_in_force(camera_focus_config),
            ),
        ),
{
    let config = match camera_focus_config {
        Some(given) => given,
        None => CameraFocusConfig::default(),
    };
    if camera_query.len() == 0 {
        return ;
    }
    let point = match find_focus_point(focus_target_query, config.offset) {
        Some(point) => point,
        None => {
            return ;
        },
    };
    proof {
        let at = camera_query@[0].1.translation;
        lemma_smoothing_limits_step(at.x as int, point.x as int, config.lerp);
        lemma_smoothing_limits_step(at.y as int, point.y as int, config.lerp);
    }
    let camera = &mut camera_query[0].1;
    camera.translation.x = approach_axis(camera.translation.x, point.x, config.lerp);
    camera.translation.y = approach_axis(camera.translation.y, point.y, config.lerp);
}

/// A way to choose the point in focus among several targets. An extension
/// point: the camera does not consult it.
pub trait MultiFocusStrategy {
    fn calculate_focus_position(&self, targets: &[Vec3]) -> Vec3;
}

/// Meant to keep the centre of the targets in focus. For now it gives the
/// origin.
#[derive(Clone, Copy, Debug, PartialEq, Eq, Structural)]
pub struct CenterFocusStrategy;

impl MultiFocusStrategy for CenterFocusStrategy {
    fn calculate_focus_position(&self, targets: &[Vec3]) -> (point: Vec3)
        ensures
            point == Vec3::origin(),
    {
        Vec3::zero()
    }
}

/// Meant to keep every target in view. For now it gives the origin.
#[derive(Clone, Copy, Debug, PartialEq, Eq, Structural)]
pub struct ZoomOutFocusStrategy;

impl MultiFocusStrategy for ZoomOutFocusStrategy {
    fn calculate_focus_position(&self, targets: &[Vec3]) -> (point: Vec3)
        ensures
            point == Vec3::origin(),
    {
        Vec3::zero()
    }
}

} // verus!

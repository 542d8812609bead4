use cinecam2d::focus::{
    approach_axis, find_focus_point, focus_target, CameraFocusConfig, CenterFocusStrategy,
    FocusTarget, MultiFocusStrategy, ZoomOutFocusStrategy,
};
use cinecam2d::transform::{Transform, Vec3};
use cinecam2d::MainCameraTag;

fn target(x: i64, y: i64, z: i64) -> (FocusTarget, Transform) {
    (FocusTarget, Transform::from_xyz(x, y, z))
}

fn camera(x: i64, y: i64, z: i64) -> (MainCameraTag, Transform) {
    (MainCameraTag, Transform::from_xyz(x, y, z))
}

#[test]
fn default_focus_config_is_no_offset_and_instant() {
    let config = CameraFocusConfig::default();
    assert_eq!(config.offset, Vec3::new(0, 0, 0));
    assert_eq!(config.lerp, 0);
}

#[test]
fn focus_point_is_mean_plus_offset() {
    let targets = vec![target(1_000_000, 2_000_000, 8_000_000), target(3_000_000, 6_000_000, 0)];
    let point = find_focus_point(&targets, Vec3::new(500_000, -500_000, 1));
    assert_eq!(point, Some(Vec3::new(2_500_000, 3_500_000, 4_000_001)));
}

#[test]
fn focus_point_of_one_target_is_the_target_plus_offset() {
    let targets = vec![target(-7, 9, 3)];
    assert_eq!(find_focus_point(&targets, Vec3::new(1, 1, 1)), Some(Vec3::new(-6, 10, 4)));
}

#[test]
fn focus_point_of_no_target_is_none() {
    let targets: Vec<(FocusTarget, Transform)> = Vec::new();
    assert_eq!(find_focus_point(&targets, Vec3::new(1, 2, 3)), None);
}

#[test]
fn focus_point_does_not_depend_on_order() {
    let a = vec![target(5, -40, 2), target(-11, 7, 0), target(300, 1, -9)];
    let b = vec![target(300, 1, -9), target(5, -40, 2), target(-11, 7, 0)];
    let c = vec![target(-11, 7, 0), target(300, 1, -9), target(5, -40, 2)];
    let offset = Vec3::new(10, 20, 30);
    let point = find_focus_point(&a, offset);
    assert_eq!(point, Some(Vec3::new(108, 10, 28)));
    assert_eq!(find_focus_point(&b, offset), point);
    assert_eq!(find_focus_point(&c, offset), point);
}

#[test]
fn mean_rounds_toward_zero() {
    let up = vec![target(1, 0, 0), target(2, 0, 0)];
    let down = vec![target(-1, 0, 0), target(-2, 0, 0)];
    assert_eq!(find_focus_point(&up, Vec3::zero()), Some(Vec3::new(1, 0, 0)));
    assert_eq!(find_focus_point(&down, Vec3::zero()), Some(Vec3::new(-1, 0, 0)));
}

#[test]
fn mean_of_extreme_targets_does_not_overflow() {
    let targets = vec![target(i64::MAX, i64::MIN, 0), target(i64::MAX, i64::MIN, 0)];
    let point = find_focus_point(&targets, Vec3::zero());
    assert_eq!(point, Some(Vec3::new(i64::MAX, i64::MIN, 0)));
}

#[test]
fn focus_point_is_held_within_the_coordinate_range() {
    let targets = vec![target(i64::MAX, i64::MIN, 0)];
    let point = find_focus_point(&targets, Vec3::new(1, -1, 0));
    assert_eq!(point, Some(Vec3::new(i64::MAX, i64::MIN, 0)));
}

#[test]
fn approach_without_smoothing_reaches_the_point() {
    assert_eq!(approach_axis(-3, 900, 0), 900);
    assert_eq!(approach_axis(i64::MIN, i64::MAX, 0), i64::MAX);
    assert_eq!(approach_axis(i64::MAX, i64::MIN, 0), i64::MIN);
}

#[test]
fn approach_covers_one_less_smoothing_of_the_way() {
    assert_eq!(approach_axis(0, 4_000_000, 750_000), 1_000_000);
    assert_eq!(approach_axis(4_000_000, 0, 750_000), 3_000_000);
    assert_eq!(approach_axis(1_000, 2_000, 500_000), 1_500);
}

#[test]
fn approach_rounds_the_step_toward_zero() {
    assert_eq!(approach_axis(0, 3, 500_000), 1);
    assert_eq!(approach_axis(0, -3, 500_000), -1);
    assert_eq!(approach_axis(0, 1, 500_000), 0);
}

#[test]
fn smoothing_near_one_moves_the_camera_little() {
    assert_eq!(approach_axis(0, 1_000_000, 999_999), 1);
    assert_eq!(approach_axis(0, 999_999, 999_999), 0);
}

#[test]
fn smoothing_of_one_or_more_holds_the_camera() {
    assert_eq!(approach_axis(12, 1_000_000, 1_000_000), 12);
    assert_eq!(approach_axis(12, 1_000_000, u32::MAX), 12);
}

#[test]
fn camera_snaps_to_the_focus_point_and_keeps_its_depth() {
    let targets = vec![target(1_000_000, 2_000_000, 0), target(3_000_000, 6_000_000, 0)];
    let config = CameraFocusConfig { offset: Vec3::new(500_000, -500_000, 77), lerp: 0 };
    let mut cameras = vec![camera(0, 0, 10_000_000)];
    focus_target(Some(config), &targets, &mut cameras);
    assert_eq!(cameras, vec![camera(2_500_000, 3_500_000, 10_000_000)]);
}

#[test]
fn camera_without_configuration_uses_the_default() {
    let targets = vec![target(40, -60, 5)];
    let mut cameras = vec![camera(1, 1, 9)];
    focus_target(None, &targets, &mut cameras);
    assert_eq!(cameras, vec![camera(40, -60, 9)]);
}

#[test]
fn camera_with_smoothing_moves_part_of_the_way() {
    let targets = vec![target(8_000_000, -8_000_000, 0)];
    let config = CameraFocusConfig { offset: Vec3::zero(), lerp: 750_000 };
    let mut cameras = vec![camera(0, 0, 3)];
    focus_target(Some(config), &targets, &mut cameras);
    assert_eq!(cameras, vec![camera(2_000_000, -2_000_000, 3)]);
    focus_target(Some(config), &targets, &mut cameras);
    assert_eq!(cameras, vec![camera(3_500_000, -3_500_000, 3)]);
}

#[test]
fn focus_keeps_the_roll_of_the_camera() {
    let targets = vec![target(10, 10, 10)];
    let mut cameras =
        vec![(MainCameraTag, Transform { translation: Vec3::new(0, 0, 0), rotation: 1_570_796 })];
    focus_target(None, &targets, &mut cameras);
    assert_eq!(cameras[0].1.rotation, 1_570_796);
    assert_eq!(cameras[0].1.translation, Vec3::new(10, 10, 0));
}

#[test]
fn focus_without_targets_changes_nothing() {
    let targets: Vec<(FocusTarget, Transform)> = Vec::new();
    let config = CameraFocusConfig { offset: Vec3::new(5, 5, 5), lerp: 0 };
    let mut cameras = vec![camera(1, 2, 3)];
    focus_target(Some(config), &targets, &mut cameras);
    assert_eq!(cameras, vec![camera(1, 2, 3)]);
}

#[test]
fn focus_without_camera_changes_nothing() {
    let targets = vec![target(10, 20, 30)];
    let before = targets.clone();
    let mut cameras: Vec<(MainCameraTag, Transform)> = Vec::new();
    focus_target(None, &targets, &mut cameras);
    assert!(cameras.is_empty());
    assert_eq!(targets, before);
}

#[test]
fn focus_moves_the_first_camera_only() {
    let targets = vec![target(100, 200, 300)];
    let mut cameras = vec![camera(0, 0, 1), camera(7, 7, 7)];
    focus_target(None, &targets, &mut cameras);
    assert_eq!(cameras, vec![camera(100, 200, 1), camera(7, 7, 7)]);
}

#[test]
fn strategies_give_the_origin() {
    let targets = [Vec3::new(1, 2, 3), Vec3::new(4, 5, 6)];
    assert_eq!(CenterFocusStrategy.calculate_focus_position(&targets), Vec3::new(0, 0, 0));
    assert_eq!(ZoomOutFocusStrategy.calculate_focus_position(&targets), Vec3::new(0, 0, 0));
}

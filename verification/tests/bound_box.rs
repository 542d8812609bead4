use cinecam2d::bound_box::{bounding_box, clamp_axis, CameraBoundBoxConfig};
use cinecam2d::transform::{Transform, Vec3};
use cinecam2d::MainCameraTag;

fn unit_box(half: i64) -> CameraBoundBoxConfig {
    CameraBoundBoxConfig { min: Vec3::new(-half, -half, -half), max: Vec3::new(half, half, half) }
}

#[test]
fn camera_outside_the_box_is_brought_to_its_face() {
    let config = unit_box(5_000_000);
    let mut cameras = vec![(MainCameraTag, Transform::from_xyz(10_000_000, 0, 0))];
    bounding_box(Some(config), &mut cameras);
    assert_eq!(cameras[0].1.translation, Vec3::new(5_000_000, 0, 0));
}

#[test]
fn camera_outside_the_box_in_whole_units() {
    let config = unit_box(5);
    let mut cameras = vec![(MainCameraTag, Transform::from_xyz(10, 0, 0))];
    bounding_box(Some(config), &mut cameras);
    assert_eq!(cameras, vec![(MainCameraTag, Transform::from_xyz(5, 0, 0))]);
}

#[test]
fn each_axis_is_clamped_by_itself() {
    let config = CameraBoundBoxConfig { min: Vec3::new(-1, -20, 0), max: Vec3::new(1, 20, 300) };
    assert_eq!(config.clamp(Vec3::new(-9, 21, 150)), Vec3::new(-1, 20, 150));
    assert_eq!(config.clamp(Vec3::new(-9, 0, 150)), Vec3::new(-1, 0, 150));
    assert_eq!(config.clamp(Vec3::new(0, 21, -1)), Vec3::new(0, 20, 0));
}

#[test]
fn clamping_is_idempotent() {
    let config = unit_box(5);
    let once = config.clamp(Vec3::new(10, -10, 3));
    assert_eq!(once, Vec3::new(5, -5, 3));
    assert_eq!(config.clamp(once), once);
}

#[test]
fn position_inside_the_box_is_unchanged() {
    let config = unit_box(5);
    for position in [Vec3::new(0, 0, 0), Vec3::new(5, -5, 5), Vec3::new(-5, 4, -1)] {
        assert_eq!(config.clamp(position), position);
    }
}

#[test]
fn clamping_keeps_order_on_an_axis() {
    let mut last = i64::MIN;
    for v in [-100, -6, -5, -4, 0, 4, 5, 6, 100] {
        let held = clamp_axis(v, -5, 5);
        assert!(held >= last);
        last = held;
    }
    assert_eq!(last, 5);
}

#[test]
fn crossed_bounds_give_the_greatest() {
    assert_eq!(clamp_axis(0, 10, -10), -10);
    assert_eq!(clamp_axis(50, 10, -10), -10);
    assert_eq!(clamp_axis(-50, 10, -10), -10);
}

#[test]
fn clamp_axis_at_the_ends_of_the_range() {
    assert_eq!(clamp_axis(i64::MIN, -1, 1), -1);
    assert_eq!(clamp_axis(i64::MAX, -1, 1), 1);
    assert_eq!(clamp_axis(3, i64::MIN, i64::MAX), 3);
}

#[test]
fn bounding_keeps_the_roll_of_the_camera() {
    let config = unit_box(5);
    let mut cameras =
        vec![(MainCameraTag, Transform { translation: Vec3::new(9, 9, 9), rotation: -250_000 })];
    bounding_box(Some(config), &mut cameras);
    assert_eq!(
        cameras,
        vec![(MainCameraTag, Transform { translation: Vec3::new(5, 5, 5), rotation: -250_000 })]
    );
}

#[test]
fn bounding_without_configuration_changes_nothing() {
    let mut cameras = vec![(MainCameraTag, Transform::from_xyz(10, 0, 0))];
    bounding_box(None, &mut cameras);
    assert_eq!(cameras, vec![(MainCameraTag, Transform::from_xyz(10, 0, 0))]);
}

#[test]
fn bounding_without_camera_changes_nothing() {
    let mut cameras: Vec<(MainCameraTag, Transform)> = Vec::new();
    bounding_box(Some(unit_box(5)), &mut cameras);
    assert!(cameras.is_empty());
}

#[test]
fn bounding_holds_the_first_camera_only() {
    let mut cameras = vec![
        (MainCameraTag, Transform::from_xyz(10, 0, 0)),
        (MainCameraTag, Transform::from_xyz(10, 0, 0)),
    ];
    bounding_box(Some(unit_box(5)), &mut cameras);
    assert_eq!(cameras[0].1, Transform::from_xyz(5, 0, 0));
    assert_eq!(cameras[1].1, Transform::from_xyz(10, 0, 0));
}

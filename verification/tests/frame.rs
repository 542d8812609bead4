use cinecam2d::bound_box::CameraBoundBoxConfig;
use cinecam2d::focus::{CameraFocusConfig, FocusTarget};
use cinecam2d::shake::{CameraShake, NotRandom, FULL_TRAUMA};
use cinecam2d::transform::{Axis, Time, Transform, Vec3};
use cinecam2d::{init, CineCam2DPlugin, MainCameraTag, Scene};

fn empty_scene() -> Scene<NotRandom> {
    Scene {
        focus_config: None,
        bound_box_config: None,
        cameras: Vec::new(),
        focus_targets: Vec::new(),
        shakes: Vec::new(),
    }
}

#[test]
fn init_creates_the_camera_once() {
    let mut cameras: Vec<(MainCameraTag, Transform)> = Vec::new();
    assert!(init(&mut cameras, Transform::from_xyz(0, 0, 10_000_000)));
    assert_eq!(cameras, vec![(MainCameraTag, Transform::from_xyz(0, 0, 10_000_000))]);
    assert!(!init(&mut cameras, Transform::from_xyz(1, 1, 1)));
    assert_eq!(cameras, vec![(MainCameraTag, Transform::from_xyz(0, 0, 10_000_000))]);
}

#[test]
fn transform_constructors_agree() {
    assert_eq!(Transform::identity(), Transform::from_xyz(0, 0, 0));
    assert_eq!(Transform::from_translation(Vec3::new(1, 2, 3)), Transform::from_xyz(1, 2, 3));
    assert_eq!(Transform::identity().rotation, 0);
    assert_eq!(Vec3::zero(), Vec3::new(0, 0, 0));
    let v = Vec3::new(1, 2, 3);
    assert_eq!((v.get(Axis::X), v.get(Axis::Y), v.get(Axis::Z)), (1, 2, 3));
}

#[test]
fn frame_without_camera_changes_no_transform() {
    let mut scene = empty_scene();
    scene.focus_config = Some(CameraFocusConfig { offset: Vec3::new(1, 1, 1), lerp: 0 });
    scene.bound_box_config =
        Some(CameraBoundBoxConfig { min: Vec3::new(-5, -5, -5), max: Vec3::new(5, 5, 5) });
    scene.focus_targets = vec![
        (FocusTarget, Transform::from_xyz(100, 200, 300)),
        (FocusTarget, Transform::from_xyz(-100, 50, 0)),
    ];
    let targets = scene.focus_targets.clone();
    CineCam2DPlugin.update(&mut scene, &Time { delta: 16_667, elapsed: 16_667 });
    assert!(scene.cameras.is_empty());
    assert!(scene.shakes.is_empty());
    assert_eq!(scene.focus_targets, targets);
}

#[test]
fn frame_follows_then_holds_the_camera_in_its_box() {
    let mut scene = empty_scene();
    scene.bound_box_config =
        Some(CameraBoundBoxConfig { min: Vec3::new(-5, -5, -5), max: Vec3::new(5, 5, 5) });
    scene.focus_targets = vec![(FocusTarget, Transform::from_xyz(100, -3, 0))];
    assert!(init(&mut scene.cameras, Transform::from_xyz(0, 0, 10)));
    CineCam2DPlugin.update(&mut scene, &Time { delta: 16_667, elapsed: 16_667 });
    assert_eq!(scene.cameras, vec![(MainCameraTag, Transform::from_xyz(5, -3, 5))]);
}

#[test]
fn frame_shakes_the_shaking_entities_and_not_the_camera() {
    let mut scene = empty_scene();
    let mut shake = CameraShake::<NotRandom>::default();
    shake.trauma = FULL_TRAUMA;
    scene.shakes.push((Transform::from_xyz(9, 9, 9), shake));
    assert!(init(&mut scene.cameras, Transform::from_xyz(1, 2, 3)));
    CineCam2DPlugin.update(&mut scene, &Time { delta: 625_000, elapsed: 625_000 });
    assert_eq!(scene.cameras, vec![(MainCameraTag, Transform::from_xyz(1, 2, 3))]);
    assert_eq!(scene.shakes[0].1.trauma, FULL_TRAUMA / 2);
    assert_eq!(scene.shakes[0].0.translation, Vec3::new(12_500_000, 12_500_000, 0));
    assert_eq!(scene.shakes[0].0.rotation, 12_500);
}

#[test]
fn frame_keeps_the_configuration() {
    let mut scene = empty_scene();
    let focus = CameraFocusConfig { offset: Vec3::new(1, 2, 3), lerp: 500_000 };
    let bound = CameraBoundBoxConfig { min: Vec3::new(0, 0, 0), max: Vec3::new(9, 9, 9) };
    scene.focus_config = Some(focus);
    scene.bound_box_config = Some(bound);
    CineCam2DPlugin.update(&mut scene, &Time { delta: 1, elapsed: 1 });
    assert_eq!(scene.focus_config, Some(focus));
    assert_eq!(scene.bound_box_config, Some(bound));
}

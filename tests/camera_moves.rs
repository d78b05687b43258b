use daima::camera::{Camera, Direction, Vec3, CAMERA_STEP};
use daima::engine::{dispatch_events, FrameOutcome, InputEvent, SystemEvent};

fn forward() -> SystemEvent {
    SystemEvent::InputEvent(InputEvent::Move(Direction::Forward))
}

#[test]
fn new_camera_pose() {
    let c = Camera::new();
    assert_eq!(c.pos, Vec3 { x: 0, y: 0, z: 0 });
    assert_eq!(c.front, Vec3 { x: 0, y: 0, z: -1 });
    assert_eq!(c.up, Vec3 { x: 0, y: 1, z: 0 });
    assert!(c.is_valid());
}

#[test]
fn move_forward_goes_one_step_along_facing() {
    let mut c = Camera::new();
    let out = dispatch_events(&vec![forward()], &mut c);
    assert_eq!(out, FrameOutcome::Continue);
    assert_eq!(c.pos, Vec3 { x: 0, y: 0, z: -CAMERA_STEP });
    assert_eq!(c.pos, Vec3 { x: 0, y: 0, z: -50 });
}

#[test]
fn move_forward_twice_goes_two_steps() {
    let mut c = Camera::new();
    dispatch_events(&vec![forward()], &mut c);
    dispatch_events(&vec![forward()], &mut c);
    assert_eq!(c.pos, Vec3 { x: 0, y: 0, z: -100 });
    let mut d = Camera::new();
    dispatch_events(&vec![forward(), forward()], &mut d);
    assert_eq!(d.pos, c.pos);
}

#[test]
fn each_direction_follows_its_axis() {
    let cases = [
        (Direction::Forward, Vec3 { x: 0, y: 0, z: -50 }),
        (Direction::Backward, Vec3 { x: 0, y: 0, z: 50 }),
        (Direction::Right, Vec3 { x: 50, y: 0, z: 0 }),
        (Direction::Left, Vec3 { x: -50, y: 0, z: 0 }),
        (Direction::Up, Vec3 { x: 0, y: 50, z: 0 }),
        (Direction::Down, Vec3 { x: 0, y: -50, z: 0 }),
    ];
    for (d, want) in cases {
        let mut c = Camera::new();
        assert!(c.move_camera(d));
        assert_eq!(c.pos, want);
        assert_eq!(c.front, Vec3 { x: 0, y: 0, z: -1 });
    }
}

#[test]
fn move_along_turned_facing() {
    let mut c = Camera::new();
    c.front = Vec3 { x: 1, y: 0, z: 0 };
    assert!(c.is_valid());
    assert!(c.move_camera(Direction::Forward));
    assert_eq!(c.pos, Vec3 { x: 50, y: 0, z: 0 });
    // right = front x up = (0, 0, 1)
    assert!(c.move_camera(Direction::Right));
    assert_eq!(c.pos, Vec3 { x: 50, y: 0, z: 50 });
    assert!(c.move_camera(Direction::Down));
    assert_eq!(c.pos, Vec3 { x: 50, y: -50, z: 50 });
}

#[test]
fn move_past_the_range_is_not_made() {
    let mut c = Camera::new();
    c.pos = Vec3 { x: 0, y: 0, z: i64::MIN + 10 };
    assert!(!c.move_camera(Direction::Forward));
    assert_eq!(c.pos, Vec3 { x: 0, y: 0, z: i64::MIN + 10 });
    assert!(c.move_camera(Direction::Backward));
    assert_eq!(c.pos.z, i64::MIN + 60);
}

#[test]
fn degenerate_pose_is_not_valid() {
    let mut c = Camera::new();
    c.up = Vec3 { x: 0, y: 0, z: 2 };
    assert!(!c.is_valid());
    let mut d = Camera::new();
    d.front = Vec3 { x: 0, y: 0, z: 0 };
    assert!(!d.is_valid());
    let mut e = Camera::new();
    e.front = Vec3 { x: 2_000_000, y: 0, z: 0 };
    assert!(!e.is_valid());
    let mut tilted = Camera::new();
    tilted.front = Vec3 { x: 3, y: 0, z: -4 };
    assert!(!tilted.is_valid());
    let mut parallel = Camera::new();
    parallel.front = Vec3 { x: 0, y: -1, z: 0 };
    assert!(!parallel.is_valid());
    let mut diagonal = Camera::new();
    diagonal.front = Vec3 { x: 1, y: 0, z: -1 };
    assert!(!diagonal.is_valid());
}

#[test]
fn unmapped_and_custom_events_leave_the_camera() {
    let mut c = Camera::new();
    let out = dispatch_events(
        &vec![SystemEvent::InputEvent(InputEvent::Unmapped(65)), SystemEvent::Custom(3)],
        &mut c,
    );
    assert_eq!(out, FrameOutcome::Continue);
    assert_eq!(c.pos, Vec3 { x: 0, y: 0, z: 0 });
}

#[test]
fn shutdown_stops_dispatch() {
    let mut c = Camera::new();
    let out = dispatch_events(&vec![forward(), SystemEvent::ShutdownEngine, forward()], &mut c);
    assert_eq!(out, FrameOutcome::Shutdown);
    assert_eq!(c.pos, Vec3 { x: 0, y: 0, z: -50 });
}

#[test]
fn empty_frame_continues() {
    let mut c = Camera::new();
    assert_eq!(dispatch_events(&vec![], &mut c), FrameOutcome::Continue);
    assert_eq!(c, Camera::new());
}

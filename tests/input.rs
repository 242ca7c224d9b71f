use game_client::input::{accumulate_direction, fetch_keyboard_input, sample_intents, CameraOrientation, InputState};
use game_client::intent::{IntentQueue, MovementIntent};
use game_client::vector::{isqrt, normalize, Vec3};

fn keys(forward: bool, backward: bool, left: bool, right: bool, sprint: bool) -> InputState {
    InputState { forward, backward, left, right, sprint }
}

fn level_camera() -> CameraOrientation {
    CameraOrientation { forward: Vec3::new(0, 0, -1_000_000), right: Vec3::new(1_000_000, 0, 0) }
}

fn pitched_camera() -> CameraOrientation {
    CameraOrientation { forward: Vec3::new(0, -600_000, -800_000), right: Vec3::new(1_000_000, 0, 0) }
}

fn unit_error(v: &Vec3) -> i128 {
    let l = v.x as i128 * v.x as i128 + v.y as i128 * v.y as i128 + v.z as i128 * v.z as i128;
    (l - 1_000_000_000_000i128).abs()
}

#[test]
fn forward_and_backward_cancel() {
    for sprint in [false, true] {
        let r = sample_intents(&keys(true, true, false, false, sprint), &pitched_camera());
        assert_eq!(r, vec![MovementIntent::Idle]);
    }
}

#[test]
fn left_and_right_cancel() {
    for sprint in [false, true] {
        let r = sample_intents(&keys(false, false, true, true, sprint), &pitched_camera());
        assert_eq!(r, vec![MovementIntent::Idle]);
    }
}

#[test]
fn all_four_cancel() {
    let r = sample_intents(&keys(true, true, true, true, true), &pitched_camera());
    assert_eq!(r, vec![MovementIntent::Idle]);
}

#[test]
fn single_binding_gives_unit_direction() {
    for k in [
        keys(true, false, false, false, true),
        keys(false, true, false, false, true),
        keys(false, false, true, false, true),
        keys(false, false, false, true, true),
    ] {
        let r = sample_intents(&k, &pitched_camera());
        assert_eq!(r.len(), 2);
        match (r[0], r[1]) {
            (MovementIntent::Move(a), MovementIntent::Sprint(b)) => {
                assert_eq!(a, b);
                assert!(unit_error(&a) <= 10_000_000);
            }
            _ => panic!("expected a move and a sprint"),
        }
    }
}

#[test]
fn forward_on_pitched_camera_is_horizontal() {
    let r = sample_intents(&keys(true, false, false, false, false), &pitched_camera());
    assert_eq!(r, vec![MovementIntent::Move(Vec3::new(0, 0, -1_000_000))]);
}

#[test]
fn diagonal_is_normalised() {
    let r = sample_intents(&keys(true, false, false, true, false), &level_camera());
    assert_eq!(r, vec![MovementIntent::Move(Vec3::new(707_106, 0, -707_106))]);
}

#[test]
fn sprint_alone_is_one_idle() {
    let r = sample_intents(&keys(false, false, false, false, true), &level_camera());
    assert_eq!(r, vec![MovementIntent::Idle]);
}

#[test]
fn nothing_held_is_idle() {
    let r = sample_intents(&keys(false, false, false, false, false), &level_camera());
    assert_eq!(r, vec![MovementIntent::Idle]);
}

#[test]
fn missing_camera_skips_entity() {
    let mut q = IntentQueue::new();
    fetch_keyboard_input(&keys(true, false, false, false, true), None, &mut q);
    assert_eq!(q.len(), 0);
    fetch_keyboard_input(&keys(true, false, false, false, true), Some(&level_camera()), &mut q);
    assert_eq!(q.len(), 2);
    assert_eq!(q.get(0), MovementIntent::Move(Vec3::new(0, 0, -1_000_000)));
    assert_eq!(q.get(1), MovementIntent::Sprint(Vec3::new(0, 0, -1_000_000)));
}

#[test]
fn accumulation_sums_camera_vectors() {
    let d = accumulate_direction(&keys(false, true, true, false, false), &pitched_camera());
    assert_eq!(d, Vec3::new(-1_000_000, 0, 800_000));
}

#[test]
fn square_roots() {
    assert_eq!(isqrt(0), 0);
    assert_eq!(isqrt(15), 3);
    assert_eq!(isqrt(16), 4);
    assert_eq!(isqrt(2_000_000_000_000), 1_414_213);
}

#[test]
fn normalize_zero_is_none() {
    assert_eq!(normalize(&Vec3::zero()), None);
    assert_eq!(normalize(&Vec3::new(0, 3, 4)), Some(Vec3::new(0, 600_000, 800_000)));
}

#[test]
fn camera_looking_down_still_gives_unit_direction() {
    let cam = CameraOrientation { forward: Vec3::new(1, -1_000_000, 1), right: Vec3::new(1_000_000, 0, 0) };
    for k in [keys(true, false, false, false, true), keys(false, true, false, false, false)] {
        let r = sample_intents(&k, &cam);
        match r[0] {
            MovementIntent::Move(d) => {
                assert!(unit_error(&d) <= 10_000_000);
                assert_eq!(d.y, 0);
            }
            _ => panic!("expected a move"),
        }
    }
    let r = sample_intents(&keys(true, false, false, false, false), &cam);
    assert_eq!(r, vec![MovementIntent::Move(Vec3::new(707_107, 0, 707_107))]);
}

#[test]
fn short_vectors_normalise_to_unit() {
    assert_eq!(normalize(&Vec3::new(1, 0, 1)), Some(Vec3::new(707_107, 0, 707_107)));
    assert_eq!(normalize(&Vec3::new(0, 0, -1)), Some(Vec3::new(0, 0, -1_000_000)));
    let n = normalize(&Vec3::new(3, 1, -2)).unwrap();
    assert!(unit_error(&n) <= 10_000_000);
}

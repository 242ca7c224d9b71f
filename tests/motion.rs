use game_client::intent::{IntentQueue, MovementIntent};
use game_client::motion::{halfway, turn_toward, update_movement, Body, DynamicBody, Motion, SteppedBody};
use game_client::stats::WorldPlayer;
use game_client::vector::Vec3;

const FINE: i128 = 1_000_000_000_000_000_000;

fn player() -> WorldPlayer {
    WorldPlayer::default()
}

fn dynamic_moving() -> DynamicBody {
    let mut b = DynamicBody::new();
    b.linvel = Motion::new(7 * FINE, -25 * FINE / 10, 4 * FINE);
    b.angvel = Motion::new(1, 2, 3);
    b
}

fn horizontal_sq(m: &Motion) -> i128 {
    (m.x / 1_000_000) * (m.x / 1_000_000) + (m.z / 1_000_000) * (m.z / 1_000_000)
}

#[test]
fn stepped_walk_toward_minus_z() {
    let mut b = SteppedBody::new();
    b.apply_move(&Vec3::new(0, 0, -1_000_000), &player(), 100_000);
    assert_eq!(b.translation, Motion::new(0, 0, -3 * FINE / 10));
}

#[test]
fn dynamic_walk_toward_minus_z() {
    let mut b = DynamicBody::new();
    b.apply_move(&Vec3::new(0, 0, -1_000_000), &player(), 100_000);
    assert_eq!(b.linvel, Motion::new(0, 0, -30 * FINE));
    assert_eq!(b.angvel, Motion::zero());
    assert_eq!(b.facing, Vec3::new(0, 0, -1_000_000));
}

#[test]
fn dynamic_idle_keeps_vertical_velocity() {
    let mut b = dynamic_moving();
    b.apply_idle();
    assert_eq!(b.linvel, Motion::new(0, -25 * FINE / 10, 0));
    assert_eq!(b.angvel, Motion::zero());
}

#[test]
fn stepped_idle_clears_horizontal_translation() {
    let mut b = SteppedBody::new();
    b.translation = Motion::new(5, 6, 7);
    b.apply_idle();
    assert_eq!(b.translation, Motion::new(0, 6, 0));
}

#[test]
fn sprint_is_faster_than_walk() {
    let p = player();
    let dir = Vec3::new(1_000_000, 0, 0);
    let mut walk = DynamicBody::new();
    walk.apply_move(&dir, &p, 16_000);
    let mut sprint = DynamicBody::new();
    sprint.apply_sprint(&dir, &p, 16_000);
    assert_eq!(walk.linvel, Motion::new(48 * FINE / 10, 0, 0));
    assert_eq!(sprint.linvel, Motion::new(72 * FINE / 10, 0, 0));
}

#[test]
fn sprint_a_millionth_faster_is_faster() {
    let p = WorldPlayer { actions_points: 3, walk_speed: 3_000_000, sprinting_speed: 3_000_001 };
    let dir = Vec3::new(600_000, 0, 800_000);
    let mut walk = DynamicBody::new();
    walk.apply_move(&dir, &p, 16_000);
    let mut sprint = DynamicBody::new();
    sprint.apply_sprint(&dir, &p, 16_000);
    assert_eq!(walk.linvel, Motion::new(288 * FINE / 100, 0, 384 * FINE / 100));
    assert!(sprint.linvel.x > walk.linvel.x);
    assert!(sprint.linvel.z > walk.linvel.z);
    assert!(horizontal_sq(&sprint.linvel) > horizontal_sq(&walk.linvel));
}

#[test]
fn move_keeps_vertical_velocity() {
    let mut b = dynamic_moving();
    b.apply_move(&Vec3::new(0, 0, 1_000_000), &player(), 100_000);
    assert_eq!(b.linvel, Motion::new(0, -25 * FINE / 10, 30 * FINE));
}

#[test]
fn zero_direction_is_skipped() {
    let before = dynamic_moving();
    let mut b = before;
    b.apply_move(&Vec3::zero(), &player(), 100_000);
    assert_eq!(b, before);
    b.apply_sprint(&Vec3::new(0, 1_000_000, 0), &player(), 100_000);
    assert_eq!(b, before);
    let mut s = SteppedBody::new();
    s.apply_sprint(&Vec3::zero(), &player(), 100_000);
    assert_eq!(s.translation, Motion::zero());
}

#[test]
fn direction_is_flattened() {
    let mut s = SteppedBody::new();
    s.apply_move(&Vec3::new(600_000, 800_000, 0), &player(), 1_000_000);
    assert_eq!(s.translation, Motion::new(3 * FINE, 0, 0));
}

#[test]
fn turn_is_a_tenth_of_a_right_angle() {
    let f = turn_toward(&Vec3::new(0, 0, -1_000_000), &Vec3::new(1_000_000, 0, 0));
    assert!((f.x - 156_434).abs() <= 200, "{:?}", f);
    assert!((f.z + 987_688).abs() <= 200, "{:?}", f);
    assert_eq!(f.y, 0);
}

#[test]
fn halfway_bisects_the_arc() {
    assert_eq!(halfway(&Vec3::new(1_000_000, 0, 0), &Vec3::new(0, 0, 1_000_000)), Vec3::new(707_106, 0, 707_106));
    assert_eq!(halfway(&Vec3::new(1_000_000, 0, 0), &Vec3::new(1_000_000, 0, 0)), Vec3::new(1_000_000, 0, 0));
}

#[test]
fn facing_dot_never_decreases_under_move() {
    let p = player();
    let target = Vec3::new(1_000_000, 0, 0);
    let mut b = DynamicBody::new();
    let dot = |f: &Vec3| f.x as i128 * target.x as i128 + f.z as i128 * target.z as i128;
    let mut last = dot(&b.facing);
    for _ in 0..60 {
        b.apply_move(&target, &p, 16_000);
        let now = dot(&b.facing);
        assert!(now >= last);
        last = now;
    }
    assert!(last > 990_000_000_000);
}

#[test]
fn sprint_turns_only_when_not_facing() {
    let p = player();
    let mut b = DynamicBody::new();
    b.apply_sprint(&Vec3::new(0, 0, -1_000_000), &p, 16_000);
    assert_eq!(b.facing, Vec3::new(0, 0, -1_000_000));
    b.apply_sprint(&Vec3::new(1_000_000, 0, 0), &p, 16_000);
    assert!(b.facing.x > 0);
}

#[test]
fn dynamic_body_turns_round() {
    let p = player();
    let mut b = DynamicBody::new();
    b.apply_move(&Vec3::new(0, 0, 1_000_000), &p, 16_000);
    assert!(b.facing.x.abs() > 308_000 && b.facing.x.abs() < 310_000, "{:?}", b.facing);
    let mut s = DynamicBody::new();
    s.apply_sprint(&Vec3::new(0, 0, 1_000_000), &p, 16_000);
    assert_eq!(s.facing, b.facing);
    let mut last = b.facing.z;
    for _ in 0..200 {
        b.apply_move(&Vec3::new(0, 0, 1_000_000), &p, 16_000);
        assert!(b.facing.z >= last);
        last = b.facing.z;
    }
    assert!(b.facing.z > 999_000);
}

#[test]
fn later_intent_overwrites_earlier() {
    let mut q = IntentQueue::new();
    q.push(MovementIntent::Move(Vec3::new(0, 0, -1_000_000)));
    q.push(MovementIntent::Sprint(Vec3::new(0, 0, -1_000_000)));
    let mut body = Body::Stepped(SteppedBody::new());
    update_movement(&q, &mut body, &player(), 100_000);
    assert_eq!(body, Body::Stepped(SteppedBody { translation: Motion::new(0, 0, -45 * FINE / 100) }));
    q.push(MovementIntent::Idle);
    update_movement(&q, &mut body, &player(), 100_000);
    assert_eq!(body, Body::Stepped(SteppedBody { translation: Motion::zero() }));
}

#[test]
fn queue_clears_at_tick_end() {
    let mut q = IntentQueue::new();
    q.push(MovementIntent::Idle);
    assert_eq!(q.len(), 1);
    assert_eq!(q.get(0), MovementIntent::Idle);
    q.clear();
    assert_eq!(q.len(), 0);
}

fn unit_at(deg: f64) -> Vec3 {
    let r = deg.to_radians();
    Vec3::new((r.sin() * 1e6).round() as i64, 0, (-r.cos() * 1e6).round() as i64)
}

fn angle_of(v: &Vec3) -> f64 {
    (v.x as f64).atan2(-(v.z as f64)).to_degrees()
}

#[test]
fn turn_matches_spherical_step() {
    let mut from = -180.0;
    while from < 180.0 {
        let mut to = -175.0;
        while to < 180.0 {
            let f = unit_at(from);
            let n = unit_at(to);
            let mut delta = to - from;
            while delta > 180.0 {
                delta -= 360.0;
            }
            while delta < -180.0 {
                delta += 360.0;
            }
            if delta.abs() < 179.0 {
                let r = turn_toward(&f, &n);
                if delta == 0.0 {
                    assert_eq!(r, f);
                }
                let mut turned = angle_of(&r) - angle_of(&f);
                while turned > 180.0 {
                    turned -= 360.0;
                }
                while turned < -180.0 {
                    turned += 360.0;
                }
                assert!((turned - delta / 10.0).abs() < 0.01, "{} {} {}", from, to, turned);
                let d0 = f.x as i128 * n.x as i128 + f.z as i128 * n.z as i128;
                let d1 = r.x as i128 * n.x as i128 + r.z as i128 * n.z as i128;
                assert!(d1 >= d0, "{} {}", from, to);
            }
            to += 11.0;
        }
        from += 13.0;
    }
}

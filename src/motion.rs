use vstd::prelude::*;
use crate::vector::{
    Vec3, ONE, bounded, dot, is_zero, near_unit, normalized, normalize, lemma_normalized_bounded,
    lemma_normalized_near_unit,
};
use crate::intent::{MovementIntent, IntentQueue, intent_wf};
use crate::stats::WorldPlayer;

verus! {

/// Unit conversion between a stepped body's distances and a dynamic body's
/// velocities.
pub const DYNAMIC_SCALE: u64 = 100;

/// `0.99` of a product of two unit vectors: a dynamic body already facing a
/// sprint direction this closely is not turned.
pub const FACING_THRESHOLD: i64 = 990_000_000_000;

/// Bound on `speed * scale * elapsed`, which keeps every motion within `i128`.
pub const MAX_TICK_PRODUCT: u128 = 1_000_000_000_000_000_000_000_000_000_000;

/// The fraction of the angle to the heading that a dynamic body turns in one
/// tick is `TURN_NUMERATOR / (2 * TURN_FIRST_HALVING)`, `819 / 8192`: one
/// tenth within `2.5e-5` of the angle.
pub const TURN_NUMERATOR: u64 = 819;

/// The first of the thirteen halvings of the arc that make one turn.
pub const TURN_FIRST_HALVING: u64 = 4096;

/// A motion in exact fine units: `1.0` is `10^18`. A speed in micro-units per
/// second times a time in microseconds times a component of a direction in
/// micro-units is a length in these units, with nothing rounded away.
#[derive(Clone, Copy, Debug, PartialEq, Eq, Structural)]
pub struct Motion {
    pub x: i128,
    pub y: i128,
    pub z: i128,
}

impl Motion {
    pub fn zero() -> (r: Motion)
        ensures
            r == (Motion { x: 0, y: 0, z: 0 }),
    {
        Motion { x: 0, y: 0, z: 0 }
    }

    pub fn new(x: i128, y: i128, z: i128) -> (r: Motion)
        ensures
            r == (Motion { x, y, z }),
    {
        Motion { x, y, z }
    }
}

/// The squared horizontal speed of a motion.
pub open spec fn horizontal_sq(m: Motion) -> int {
    m.x * m.x + m.z * m.z
}

/// The tick's length scale: speed in micro-units per second times `scale`
/// times the elapsed microseconds.
pub open spec fn tick_distance(speed: u64, elapsed: u64, scale: u64) -> int {
    speed * scale * elapsed
}

/// Both speeds of `p` give a tick distance within [`MAX_TICK_PRODUCT`] at
/// `scale`.
pub open spec fn fits(p: WorldPlayer, elapsed: u64, scale: u64) -> bool {
    tick_distance(p.walk_speed, elapsed, scale) <= MAX_TICK_PRODUCT
        && tick_distance(p.sprinting_speed, elapsed, scale) <= MAX_TICK_PRODUCT
}

/// The horizontal unit direction of an intent's direction, or `None` when
/// there is none.
pub open spec fn heading(d: Vec3) -> Option<Vec3> {
    let f = Vec3 { x: d.x, y: 0, z: d.z };
    if is_zero(d) || is_zero(f) {
        None
    } else {
        Some(normalized(f))
    }
}

/// Horizontal motion of `dist` along `n`, with vertical component `y`.
pub open spec fn moved(n: Vec3, dist: int, y: i128) -> Motion {
    Motion { x: (n.x * dist) as i128, y: y, z: (n.z * dist) as i128 }
}

/// `v` turned a quarter turn about the vertical axis.
pub open spec fn quarter(v: Vec3) -> Vec3 {
    Vec3 { x: (-v.z) as i64, y: 0, z: v.x }
}

/// For horizontal vectors of equal length, the direction halfway along the
/// shorter arc from `a` to `b`: `a + b` when they are at most a right angle
/// apart, else the perpendicular to `b - a` on the side of `a + b` (either
/// half turn when they are opposite). Each form is the one that rounding in
/// `a` and `b` disturbs least.
pub open spec fn bisector(a: Vec3, b: Vec3) -> Vec3 {
    let s = Vec3 { x: (a.z - b.z) as i64, y: 0, z: (b.x - a.x) as i64 };
    if dot(a, b) >= 0 {
        Vec3 { x: (a.x + b.x) as i64, y: (a.y + b.y) as i64, z: (a.z + b.z) as i64 }
    } else if s.x * (a.x + b.x) + s.z * (a.z + b.z) >= 0 {
        s
    } else {
        Vec3 { x: (-s.x) as i64, y: 0, z: (-s.z) as i64 }
    }
}

/// The unit vector halfway along the arc from `a` to `b`; `a` when they are
/// equal.
pub open spec fn midpoint(a: Vec3, b: Vec3) -> Vec3 {
    let s = bisector(a, b);
    if a == b || is_zero(s) {
        a
    } else {
        normalized(s)
    }
}

/// The point of the arc from `lo` to `hi` reached by halving it at each of
/// the halvings `half`, `half / 2`, ..., `1`, keeping the far half where
/// [`TURN_NUMERATOR`] has that bit set.
pub open spec fn arc_point(lo: Vec3, hi: Vec3, half: nat) -> Vec3
    decreases half,
{
    if half == 0 {
        lo
    } else {
        let m = midpoint(lo, hi);
        if (TURN_NUMERATOR as nat / half) % 2 == 1 {
            arc_point(m, hi, half / 2)
        } else {
            arc_point(lo, m, half / 2)
        }
    }
}

/// The facing `f` turned `819 / 8192` of the shorter arc toward `n`: a
/// spherical step of one tenth, within `2.5e-5` of the angle and the
/// rounding of each halving to micro-units.
pub open spec fn turned(f: Vec3, n: Vec3) -> Vec3 {
    arc_point(f, n, TURN_FIRST_HALVING as nat)
}

/// A body advanced by an explicit per-tick translation.
#[derive(Clone, Copy, Debug, PartialEq, Eq, Structural)]
pub struct SteppedBody {
    pub translation: Motion,
}

/// A body with integrated linear and angular velocity and a facing direction.
#[derive(Clone, Copy, Debug, PartialEq, Eq, Structural)]
pub struct DynamicBody {
    pub linvel: Motion,
    pub angvel: Motion,
    /// Forward direction, horizontal, of length about [`ONE`].
    pub facing: Vec3,
}

/// The physics representation of a character, fixed when it is created.
#[derive(Clone, Copy, Debug, PartialEq, Eq, Structural)]
pub enum Body {
    Stepped(SteppedBody),
    Dynamic(DynamicBody),
}

/// A stepped body after one intent: `Idle` clears the horizontal
/// translation and, as for every intent, leaves the vertical one; `Move`
/// and `Sprint` translate by the tick distance along the horizontal heading,
/// keeping the vertical component, and leave the body as it was when there is
/// no heading.
pub open spec fn stepped_after(b: SteppedBody, i: MovementIntent, p: WorldPlayer, elapsed: u64) -> SteppedBody {
    match i {
        MovementIntent::Idle => SteppedBody { translation: Motion { x: 0, y: b.translation.y, z: 0 } },
        MovementIntent::Move(d) => match heading(d) {
            None => b,
            Some(n) => SteppedBody {
                translation: moved(n, tick_distance(p.walk_speed, elapsed, 1), b.translation.y),
            },
        },
        MovementIntent::Sprint(d) => match heading(d) {
            None => b,
            Some(n) => SteppedBody {
                translation: moved(n, tick_distance(p.sprinting_speed, elapsed, 1), b.translation.y),
            },
        },
    }
}

/// A dynamic body after one intent: `Idle` stops horizontal and angular
/// motion; `Move` and `Sprint` set the horizontal velocity from the scaled
/// tick distance, stop rotation and turn the facing (a sprint only when not
/// already facing the heading), and leave the body as it was when there is no
/// heading.
pub open spec fn dynamic_after(b: DynamicBody, i: MovementIntent, p: WorldPlayer, elapsed: u64) -> DynamicBody {
    let still = Motion { x: 0, y: 0, z: 0 };
    match i {
        MovementIntent::Idle => DynamicBody {
            linvel: Motion { x: 0, y: b.linvel.y, z: 0 },
            angvel: still,
            facing: b.facing,
        },
        MovementIntent::Move(d) => match heading(d) {
            None => b,
            Some(n) => DynamicBody {
                linvel: moved(n, tick_distance(p.walk_speed, elapsed, DYNAMIC_SCALE), b.linvel.y),
                angvel: still,
                facing: turned(b.facing, n),
            },
        },
        MovementIntent::Sprint(d) => match heading(d) {
            None => b,
            Some(n) => DynamicBody {
                linvel: moved(n, tick_distance(p.sprinting_speed, elapsed, DYNAMIC_SCALE), b.linvel.y),
                angvel: still,
                facing: if dot(b.facing, n) < FACING_THRESHOLD {
                    turned(b.facing, n)
                } else {
                    b.facing
                },
            },
        },
    }
}

/// A body after one intent.
pub open spec fn body_after(b: Body, i: MovementIntent, p: WorldPlayer, elapsed: u64) -> Body {
    match b {
        Body::Stepped(s) => Body::Stepped(stepped_after(s, i, p, elapsed)),
        Body::Dynamic(d) => Body::Dynamic(dynamic_after(d, i, p, elapsed)),
    }
}

/// `b` after every intent of `s`, in order.
pub open spec fn body_after_all(b: Body, s: Seq<MovementIntent>, p: WorldPlayer, elapsed: u64) -> Body
    decreases s.len(),
{
    if s.len() == 0 {
        b
    } else {
        body_after(body_after_all(b, s.drop_last(), p, elapsed), s.last(), p, elapsed)
    }
}

/// The scale of a body's motions: `1` for a stepped body, [`DYNAMIC_SCALE`]
/// for a dynamic one.
pub open spec fn scale_of(b: Body) -> u64 {
    match b {
        Body::Stepped(_) => 1,
        Body::Dynamic(_) => DYNAMIC_SCALE,
    }
}

impl Body {
    /// A dynamic body's facing has components within `[-ONE, ONE]`.
    pub open spec fn wf(&self) -> bool {
        match self {
            Body::Stepped(_) => true,
            Body::Dynamic(d) => bounded(d.facing, ONE as int),
        }
    }
}

/// The tick distance at `speed`, multiplied by `scale`.
pub fn distance_per_tick(speed: u64, elapsed: u64, scale: u64) -> (r: u128)
    requires
        1 <= scale <= DYNAMIC_SCALE,
        tick_distance(speed, elapsed, scale) <= MAX_TICK_PRODUCT,
    ensures
        r == tick_distance(speed, elapsed, scale),
{
    proof {
        assert(speed * scale <= 0xffff_ffff_ffff_ffff * 100) by (nonlinear_arith)
            requires speed <= 0xffff_ffff_ffff_ffff, 1 <= scale <= 100;
    }
    let m: u128 = (speed as u128) * (scale as u128);
    m * (elapsed as u128)
}

/// Horizontal motion of `dist` along the unit direction `n`, keeping `y`.
fn motion_along(n: &Vec3, dist: u128, y: i128) -> (r: Motion)
    requires
        bounded(*n, ONE as int),
        dist <= MAX_TICK_PRODUCT,
    ensures
        r == moved(*n, dist as int, y),
{
    proof {
        lemma_motion_bound(n.x as int, dist as int);
        lemma_motion_bound(n.z as int, dist as int);
    }
    Motion { x: (n.x as i128) * (dist as i128), y, z: (n.z as i128) * (dist as i128) }
}

proof fn lemma_motion_bound(a: int, dist: int)
    requires
        -ONE <= a <= ONE,
        0 <= dist <= MAX_TICK_PRODUCT,
    ensures
        -1_000_000_000_000_000_000_000_000_000_000_000_000 <= a * dist
            <= 1_000_000_000_000_000_000_000_000_000_000_000_000,
{
    assert(-1_000_000_000_000_000_000_000_000_000_000_000_000 <= a * dist
        <= 1_000_000_000_000_000_000_000_000_000_000_000_000) by (nonlinear_arith)
        requires
            -1_000_000 <= a <= 1_000_000,
            0 <= dist <= 1_000_000_000_000_000_000_000_000_000_000,
    ;
}

/// The horizontal unit direction of `d`, or `None` when `d` or its
/// horizontal part is zero.
pub fn flat_heading(d: &Vec3) -> (r: Option<Vec3>)
    requires
        bounded(*d, ONE as int),
    ensures
        r == heading(*d),
        r matches Some(n) ==> bounded(n, ONE as int) && n.y == 0 && near_unit(n),
{
    if d.x == 0 && d.y == 0 && d.z == 0 {
        return None;
    }
    let f = d.flatten();
    if f.x == 0 && f.z == 0 {
        return None;
    }
    proof {
        crate::vector::lemma_normalized_flat(f);
    }
    normalize(&f)
}

/// The unit vector halfway along the shorter arc from `a` to `b`.
pub fn halfway(a: &Vec3, b: &Vec3) -> (r: Vec3)
    requires
        bounded(*a, ONE as int),
        bounded(*b, ONE as int),
    ensures
        r == midpoint(*a, *b),
        bounded(r, ONE as int),
        near_unit(*a) ==> near_unit(r),
{
    if a.x == b.x && a.y == b.y && a.z == b.z {
        return *a;
    }
    let sx: i64 = a.z - b.z;
    let sz: i64 = b.x - a.x;
    proof {
        crate::vector::lemma_unit_product_bound(sx as int, (a.x + b.x) as int);
        crate::vector::lemma_unit_product_bound(sz as int, (a.z + b.z) as int);
    }
    let side: i64 = sx * (a.x + b.x) + sz * (a.z + b.z);
    let s = if a.dot(b) >= 0 {
        Vec3::new(a.x + b.x, a.y + b.y, a.z + b.z)
    } else if side >= 0 {
        Vec3::new(sx, 0, sz)
    } else {
        Vec3::new(-sx, 0, -sz)
    };
    match normalize(&s) {
        Some(u) => u,
        None => *a,
    }
}

/// `f` turned one step toward `n`, as [`turned`] describes.
pub fn turn_toward(f: &Vec3, n: &Vec3) -> (r: Vec3)
    requires
        bounded(*f, ONE as int),
        bounded(*n, ONE as int),
    ensures
        r == turned(*f, *n),
        bounded(r, ONE as int),
        near_unit(*f) && near_unit(*n) ==> near_unit(r),
{
    let mut lo = *f;
    let mut hi = *n;
    let mut half: u64 = TURN_FIRST_HALVING;
    while half > 0
        invariant
            bounded(lo, ONE as int),
            bounded(hi, ONE as int),
            arc_point(lo, hi, half as nat) == turned(*f, *n),
            near_unit(*f) && near_unit(*n) ==> near_unit(lo) && near_unit(hi),
        decreases half,
    {
        let m = halfway(&lo, &hi);
        if (TURN_NUMERATOR / half) % 2 == 1 {
            lo = m;
        } else {
            hi = m;
        }
        half = half / 2;
    }
    lo
}

impl SteppedBody {
    pub fn new() -> (r: SteppedBody)
        ensures
            r.translation == (Motion { x: 0, y: 0, z: 0 }),
    {
        SteppedBody { translation: Motion::zero() }
    }

    /// Clears the horizontal translation; the vertical one stays.
    pub fn apply_idle(&mut self)
        ensures
            final(self).translation == (Motion { x: 0, y: old(self).translation.y, z: 0 }),
    {
        self.translation = Motion::new(0, self.translation.y, 0);
    }

    fn apply_speed(&mut self, direction: &Vec3, speed: u64, elapsed: u64)
        requires
            bounded(*direction, ONE as int),
            tick_distance(speed, elapsed, 1) <= MAX_TICK_PRODUCT,
        ensures
            *final(self) == (match heading(*direction) {
                None => *old(self),
                Some(n) => SteppedBody {
                    translation: moved(n, tick_distance(speed, elapsed, 1), old(self).translation.y),
                },
            }),
    {
        if let Some(n) = flat_heading(direction) {
            let dist = distance_per_tick(speed, elapsed, 1);
            self.translation = motion_along(&n, dist, self.translation.y);
        }
    }

    /// Translates along the horizontal part of `direction` by the walking
    /// distance of this tick, keeping the vertical component.
    pub fn apply_move(&mut self, direction: &Vec3, p: &WorldPlayer, elapsed: u64)
        requires
            bounded(*direction, ONE as int),
            fits(*p, elapsed, 1),
        ensures
            *final(self) == stepped_after(*old(self), MovementIntent::Move(*direction), *p, elapsed),
    {
        self.apply_speed(direction, p.walk_speed, elapsed);
    }

    /// As [`SteppedBody::apply_move`], at the sprinting speed.
    pub fn apply_sprint(&mut self, direction: &Vec3, p: &WorldPlayer, elapsed: u64)
        requires
            bounded(*direction, ONE as int),
            fits(*p, elapsed, 1),
        ensures
            *final(self) == stepped_after(*old(self), MovementIntent::Sprint(*direction), *p, elapsed),
    {
        self.apply_speed(direction, p.sprinting_speed, elapsed);
    }
}

impl DynamicBody {
    /// At rest and facing forward along `-z`.
    pub fn new() -> (r: DynamicBody)
        ensures
            r.linvel == (Motion { x: 0, y: 0, z: 0 }),
            r.angvel == (Motion { x: 0, y: 0, z: 0 }),
            r.facing == (Vec3 { x: 0, y: 0, z: -1_000_000i64 }),
    {
        DynamicBody { linvel: Motion::zero(), angvel: Motion::zero(), facing: Vec3::new(0, 0, -ONE) }
    }

    /// Stops horizontal and angular motion; the vertical velocity stays.
    pub fn apply_idle(&mut self)
        ensures
            final(self).linvel == (Motion { x: 0, y: old(self).linvel.y, z: 0 }),
            final(self).angvel == (Motion { x: 0, y: 0, z: 0 }),
            final(self).facing == old(self).facing,
    {
        self.linvel = Motion::new(0, self.linvel.y, 0);
        self.angvel = Motion::zero();
    }

    fn apply_speed(&mut self, direction: &Vec3, speed: u64, elapsed: u64, always_turn: bool)
        requires
            bounded(old(self).facing, ONE as int),
            bounded(*direction, ONE as int),
            tick_distance(speed, elapsed, DYNAMIC_SCALE) <= MAX_TICK_PRODUCT,
        ensures
            *final(self) == (match heading(*direction) {
                None => *old(self),
                Some(n) => DynamicBody {
                    linvel: moved(n, tick_distance(speed, elapsed, DYNAMIC_SCALE), old(self).linvel.y),
                    angvel: Motion { x: 0, y: 0, z: 0 },
                    facing: if always_turn || dot(old(self).facing, n) < FACING_THRESHOLD {
                        turned(old(self).facing, n)
                    } else {
                        old(self).facing
                    },
                },
            }),
            bounded(final(self).facing, ONE as int),
    {
        if let Some(n) = flat_heading(direction) {
            if always_turn || self.facing.dot(&n) < FACING_THRESHOLD {
                self.facing = turn_toward(&self.facing, &n);
            }
            let dist = distance_per_tick(speed, elapsed, DYNAMIC_SCALE);
            self.linvel = motion_along(&n, dist, self.linvel.y);
            self.angvel = Motion::zero();
        }
    }

    /// Sets the horizontal velocity along the horizontal part of `direction`
    /// at the walking speed scaled by [`DYNAMIC_SCALE`], keeps the vertical
    /// velocity, stops rotation and turns the facing a tenth of the way
    /// toward the direction, as [`turned`] describes.
    pub fn apply_move(&mut self, direction: &Vec3, p: &WorldPlayer, elapsed: u64)
        requires
            bounded(old(self).facing, ONE as int),
            bounded(*direction, ONE as int),
            fits(*p, elapsed, DYNAMIC_SCALE),
        ensures
            *final(self) == dynamic_after(*old(self), MovementIntent::Move(*direction), *p, elapsed),
            bounded(final(self).facing, ONE as int),
    {
        self.apply_speed(direction, p.walk_speed, elapsed, true);
    }

    /// As [`DynamicBody::apply_move`], at the sprinting speed, turning only
    /// when the facing is not already within [`FACING_THRESHOLD`] of the
    /// direction.
    pub fn apply_sprint(&mut self, direction: &Vec3, p: &WorldPlayer, elapsed: u64)
        requires
            bounded(old(self).facing, ONE as int),
            bounded(*direction, ONE as int),
            fits(*p, elapsed, DYNAMIC_SCALE),
        ensures
            *final(self) == dynamic_after(*old(self), MovementIntent::Sprint(*direction), *p, elapsed),
            bounded(final(self).facing, ONE as int),
    {
        self.apply_speed(direction, p.sprinting_speed, elapsed, false);
    }
}

impl Body {
    /// Applies one intent.
    pub fn apply(&mut self, intent: &MovementIntent, p: &WorldPlayer, elapsed: u64)
        requires
            old(self).wf(),
            intent_wf(*intent),
            fits(*p, elapsed, scale_of(*old(self))),
        ensures
            *final(self) == body_after(*old(self), *intent, *p, elapsed),
            final(self).wf(),
    {
        match self {
            Body::Stepped(s) => match intent {
                MovementIntent::Idle => s.apply_idle(),
                MovementIntent::Move(d) => s.apply_move(d, p, elapsed),
                MovementIntent::Sprint(d) => s.apply_sprint(d, p, elapsed),
            },
            Body::Dynamic(b) => match intent {
                MovementIntent::Idle => b.apply_idle(),
                MovementIntent::Move(d) => b.apply_move(d, p, elapsed),
                MovementIntent::Sprint(d) => b.apply_sprint(d, p, elapsed),
            },
        }
    }
}

/// The vertical component that intents leave alone: a stepped body's
/// vertical translation or a dynamic body's vertical velocity.
pub open spec fn vertical(b: Body) -> i128 {
    match b {
        Body::Stepped(s) => s.translation.y,
        Body::Dynamic(d) => d.linvel.y,
    }
}

/// No tick's intents, whatever they are and however many, change a body's
/// vertical component or its kind; in particular a tick of `Idle` keeps a
/// dynamic body's vertical velocity, whatever its horizontal velocity was.
pub proof fn lemma_intents_keep_vertical(b: Body, s: Seq<MovementIntent>, p: WorldPlayer, elapsed: u64)
    ensures
        vertical(body_after_all(b, s, p, elapsed)) == vertical(b),
        scale_of(body_after_all(b, s, p, elapsed)) == scale_of(b),
    decreases s.len(),
{
    if s.len() > 0 {
        lemma_intents_keep_vertical(b, s.drop_last(), p, elapsed);
    }
}

/// `Idle` never changes a dynamic body's vertical velocity, whatever its
/// horizontal velocity was.
pub proof fn lemma_idle_keeps_vertical(b: DynamicBody, p: WorldPlayer, elapsed: u64)
    ensures
        dynamic_after(b, MovementIntent::Idle, p, elapsed).linvel.y == b.linvel.y,
        dynamic_after(b, MovementIntent::Idle, p, elapsed).linvel.x == 0,
        dynamic_after(b, MovementIntent::Idle, p, elapsed).linvel.z == 0,
{
}

/// For the same body, direction and positive elapsed time, sprinting at a
/// greater speed than walking gives a strictly greater horizontal speed, on
/// a stepped body and on a dynamic one.
pub proof fn lemma_sprint_outpaces_walk(b: Body, d: Vec3, p: WorldPlayer, elapsed: u64)
    requires
        bounded(d, ONE as int),
        heading(d) is Some,
        p.sprinting_speed > p.walk_speed,
        elapsed > 0,
        fits(p, elapsed, scale_of(b)),
    ensures
        ({
            let w = body_after(b, MovementIntent::Move(d), p, elapsed);
            let s = body_after(b, MovementIntent::Sprint(d), p, elapsed);
            horizontal_sq(motion_of(s)) > horizontal_sq(motion_of(w))
        }),
{
    let f = Vec3 { x: d.x, y: 0, z: d.z };
    lemma_normalized_near_unit(f);
    lemma_normalized_bounded(f, ONE as int);
    crate::vector::lemma_normalized_flat(f);
    let n = normalized(f);
    let k = scale_of(b);
    let dw = tick_distance(p.walk_speed, elapsed, k);
    let ds = tick_distance(p.sprinting_speed, elapsed, k);
    assert(n.y == 0);
    assert(n.x * n.x + n.z * n.z > 0);
    assert(0 <= dw < ds) by (nonlinear_arith)
        requires
            dw == p.walk_speed * k * elapsed,
            ds == p.sprinting_speed * k * elapsed,
            p.sprinting_speed > p.walk_speed >= 0,
            k >= 1,
            elapsed >= 1,
    ;
    lemma_motion_sq(n.x as int, n.z as int, dw, ds);
}

/// The motion of a body: its translation or its velocity.
pub open spec fn motion_of(b: Body) -> Motion {
    match b {
        Body::Stepped(s) => s.translation,
        Body::Dynamic(d) => d.linvel,
    }
}

proof fn lemma_motion_sq(x: int, z: int, dw: int, ds: int)
    requires
        x * x + z * z > 0,
        0 <= dw < ds,
        -ONE <= x <= ONE,
        -ONE <= z <= ONE,
        ds <= MAX_TICK_PRODUCT,
    ensures
        (x * ds) as i128 * (x * ds) as i128 + (z * ds) as i128 * (z * ds) as i128
            > (x * dw) as i128 * (x * dw) as i128 + (z * dw) as i128 * (z * dw) as i128,
{
    lemma_motion_bound(x, ds);
    lemma_motion_bound(z, ds);
    lemma_motion_bound(x, dw);
    lemma_motion_bound(z, dw);
    assert((x * ds) * (x * ds) + (z * ds) * (z * ds) == (x * x + z * z) * (ds * ds)) by (nonlinear_arith);
    assert((x * dw) * (x * dw) + (z * dw) * (z * dw) == (x * x + z * z) * (dw * dw)) by (nonlinear_arith);
    assert(ds * ds > dw * dw) by (nonlinear_arith) requires 0 <= dw < ds;
    assert((x * x + z * z) * (ds * ds) > (x * x + z * z) * (dw * dw)) by (nonlinear_arith)
        requires x * x + z * z > 0, ds * ds > dw * dw;
}

/// A facing that already points exactly along the heading is left as it is.
pub proof fn lemma_turn_keeps_aligned_facing(f: Vec3)
    ensures
        turned(f, f) == f,
{
    lemma_arc_point_same(f, TURN_FIRST_HALVING as nat);
}

proof fn lemma_arc_point_same(f: Vec3, half: nat)
    ensures
        arc_point(f, f, half) == f,
    decreases half,
{
    if half > 0 {
        lemma_arc_point_same(f, half / 2);
    }
}

/// Each halving of the arc is exact before it is rounded to micro-units: the
/// bisector of two horizontal vectors of the same length makes the same
/// product with each, so it lies at the same angle from both.
pub proof fn lemma_bisector_halves(a: Vec3, b: Vec3)
    requires
        bounded(a, ONE as int),
        bounded(b, ONE as int),
        a.y == 0,
        b.y == 0,
        crate::vector::len_sq(a) == crate::vector::len_sq(b),
    ensures
        dot(bisector(a, b), a) == dot(bisector(a, b), b),
{
    let (ax, az, bx, bz) = (a.x as int, a.z as int, b.x as int, b.z as int);
    if dot(a, b) >= 0 {
        assert((ax + bx) * ax + (az + bz) * az == (ax + bx) * bx + (az + bz) * bz) by (nonlinear_arith)
            requires ax * ax + az * az == bx * bx + bz * bz;
    }
    assert((az - bz) * ax + (bx - ax) * az == (az - bz) * bx + (bx - ax) * bz) by (nonlinear_arith);
    assert(-(az - bz) * ax + -(bx - ax) * az == -(az - bz) * bx + -(bx - ax) * bz) by (nonlinear_arith);
}

/// Applies every intent of this tick to `body`, in emission order.
pub fn update_movement(queue: &IntentQueue, body: &mut Body, p: &WorldPlayer, elapsed: u64)
    requires
        queue.wf(),
        old(body).wf(),
        fits(*p, elapsed, scale_of(*old(body))),
    ensures
        *final(body) == body_after_all(*old(body), queue@, *p, elapsed),
        final(body).wf(),
{
    let n = queue.len();
    let mut i: usize = 0;
    while i < n
        invariant
            n == queue@.len(),
            0 <= i <= n,
            queue.wf(),
            scale_of(*body) == scale_of(*old(body)),
            fits(*p, elapsed, scale_of(*old(body))),
            body.wf(),
            *body == body_after_all(*old(body), queue@.subrange(0, i as int), *p, elapsed),
        decreases n - i,
    {
        let intent = queue.get(i);
        proof {
            lemma_intents_keep_vertical(*old(body), queue@.subrange(0, i + 1), *p, elapsed);
        }
        body.apply(&intent, p, elapsed);
        proof {
            let s = queue@.subrange(0, i + 1);
            assert(s.drop_last() =~= queue@.subrange(0, i as int));
        }
        i = i + 1;
    }
    proof {
        assert(queue@.subrange(0, n as int) =~= queue@);
    }
}

} // verus!

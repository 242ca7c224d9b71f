use vstd::prelude::*;
use crate::vector::{
    Vec3, ONE, bounded, is_zero, len_sq, near_unit, normalized, normalize, lemma_normalized_near_unit,
    lemma_zero_len,
};
use crate::intent::{MovementIntent, IntentQueue, intent_wf};

verus! {

/// The pressed state of the five logical bindings for one tick.
#[derive(Clone, Copy, Debug, PartialEq, Eq, Structural)]
pub struct InputState {
    pub forward: bool,
    pub backward: bool,
    pub left: bool,
    pub right: bool,
    pub sprint: bool,
}

/// The active camera's basis for one tick. Back is the opposite of forward
/// and left the opposite of right.
#[derive(Clone, Copy, Debug, PartialEq, Eq, Structural)]
pub struct CameraOrientation {
    pub forward: Vec3,
    pub right: Vec3,
}

impl CameraOrientation {
    /// The basis vectors have components within `[-ONE, ONE]`.
    pub open spec fn wf(&self) -> bool {
        bounded(self.forward, ONE as int) && bounded(self.right, ONE as int)
    }
}

/// `1` for the positive binding alone, `-1` for the negative one alone, else `0`.
pub open spec fn axis(pos: bool, neg: bool) -> int {
    (if pos { 1int } else { 0int }) - (if neg { 1int } else { 0int })
}

pub open spec fn any_direction_held(k: InputState) -> bool {
    k.forward || k.backward || k.left || k.right
}

/// Sum of the camera vectors of the held bindings, forward and back taken on
/// the horizontal plane.
pub open spec fn accumulated(k: InputState, c: CameraOrientation) -> Vec3 {
    let a = axis(k.forward, k.backward);
    let b = axis(k.right, k.left);
    Vec3 {
        x: (a * c.forward.x + b * c.right.x) as i64,
        y: (b * c.right.y) as i64,
        z: (a * c.forward.z + b * c.right.z) as i64,
    }
}

/// Every direction carried by an intent of `s` is a unit vector within `1e-5`.
pub open spec fn unit_directions(s: Seq<MovementIntent>) -> bool {
    forall|i: int| 0 <= i < s.len() ==> match #[trigger] s[i] {
        MovementIntent::Idle => true,
        MovementIntent::Move(d) => near_unit(d),
        MovementIntent::Sprint(d) => near_unit(d),
    }
}

/// The intents sampled for `k` under camera `c`: `Move` along the normalised
/// sum when a binding is held and the sum is not zero, `Idle` otherwise; then
/// `Sprint` along the same direction when the modifier is held and the sum is
/// not zero.
pub open spec fn sampled(k: InputState, c: CameraOrientation) -> Seq<MovementIntent> {
    let d = accumulated(k, c);
    let n = normalized(d);
    let first = if !is_zero(d) && any_direction_held(k) {
        MovementIntent::Move(n)
    } else {
        MovementIntent::Idle
    };
    if k.sprint && !is_zero(d) {
        seq![first, MovementIntent::Sprint(n)]
    } else {
        seq![first]
    }
}

proof fn lemma_axis_product(a: int, v: int)
    requires
        -1 <= a <= 1,
    ensures
        a == 1 ==> a * v == v,
        a == -1 ==> a * v == -v,
        a == 0 ==> a * v == 0,
{
}

proof fn lemma_axis_products(k: InputState, c: CameraOrientation)
    ensures
        axis(k.forward, k.backward) == 0 ==> axis(k.forward, k.backward) * c.forward.x == 0
            && axis(k.forward, k.backward) * c.forward.z == 0,
        axis(k.right, k.left) == 0 ==> axis(k.right, k.left) * c.right.x == 0
            && axis(k.right, k.left) * c.right.y == 0 && axis(k.right, k.left) * c.right.z == 0,
{
}

/// Holding both bindings of an opposite pair (forward and backward, or left
/// and right) while the other pair is either both held or both released
/// cancels all motion: the only intent of the tick is `Idle`, with or
/// without the sprint modifier.
pub proof fn lemma_opposite_bindings_cancel(k: InputState, c: CameraOrientation)
    requires
        (k.forward && k.backward) || (k.left && k.right),
        k.forward == k.backward,
        k.left == k.right,
    ensures
        sampled(k, c) == seq![MovementIntent::Idle],
{
    let d = accumulated(k, c);
    lemma_axis_products(k, c);
    assert(is_zero(d));
    assert(sampled(k, c) =~= seq![MovementIntent::Idle]);
}

/// With no directional binding held the tick yields exactly one `Idle`
/// intent, whether or not the sprint modifier is held.
pub proof fn lemma_no_direction_is_idle(k: InputState, c: CameraOrientation)
    requires
        !any_direction_held(k),
    ensures
        sampled(k, c) == seq![MovementIntent::Idle],
{
    lemma_axis_products(k, c);
    assert(is_zero(accumulated(k, c)));
    assert(sampled(k, c) =~= seq![MovementIntent::Idle]);
}

/// Exactly one of the four directional bindings is held.
pub open spec fn exactly_one_direction(k: InputState) -> bool {
    (if k.forward { 1int } else { 0 }) + (if k.backward { 1int } else { 0 })
        + (if k.left { 1int } else { 0 }) + (if k.right { 1int } else { 0 }) == 1
}

/// With exactly one directional binding held, the tick's first intent is a
/// `Move`, a `Sprint` follows it exactly when the modifier is held, and their
/// common direction has length [`ONE`] within a relative error of `1e-5`
/// (squared length within `2e7` of `ONE²`), whenever the held binding's
/// camera vector, taken on the horizontal plane for forward and back, is not
/// zero.
pub proof fn lemma_single_binding_unit_direction(k: InputState, c: CameraOrientation)
    requires
        c.wf(),
        exactly_one_direction(k),
        (k.forward || k.backward) ==> !is_zero(Vec3 { x: c.forward.x, y: 0, z: c.forward.z }),
        (k.left || k.right) ==> !is_zero(c.right),
    ensures
        ({
            let n = normalized(accumulated(k, c));
            &&& sampled(k, c)[0] == MovementIntent::Move(n)
            &&& sampled(k, c).len() == (if k.sprint { 2int } else { 1int })
            &&& k.sprint ==> sampled(k, c)[1] == MovementIntent::Sprint(n)
            &&& near_unit(n)
        }),
{
    let d = accumulated(k, c);
    lemma_axis_products(k, c);
    let a = axis(k.forward, k.backward);
    let b = axis(k.right, k.left);
    lemma_axis_product(a, c.forward.x as int);
    lemma_axis_product(a, c.forward.z as int);
    lemma_axis_product(b, c.right.x as int);
    lemma_axis_product(b, c.right.y as int);
    lemma_axis_product(b, c.right.z as int);
    let f = Vec3 { x: c.forward.x, y: 0, z: c.forward.z };
    if k.forward || k.backward {
        assert(len_sq(d) == len_sq(f)) by (nonlinear_arith)
            requires
                d.y == 0,
                d.x == f.x || d.x == -f.x,
                d.z == f.z || d.z == -f.z,
                f.y == 0,
        ;
    } else {
        assert(len_sq(d) == len_sq(c.right)) by (nonlinear_arith)
            requires
                d.x == c.right.x || d.x == -c.right.x,
                d.y == c.right.y || d.y == -c.right.y,
                d.z == c.right.z || d.z == -c.right.z,
        ;
    }
    if is_zero(d) {
        assert(len_sq(d) == 0) by (nonlinear_arith) requires d.x == 0, d.y == 0, d.z == 0;
        if k.forward || k.backward {
            lemma_zero_len(f);
        } else {
            lemma_zero_len(c.right);
        }
    }
    lemma_normalized_near_unit(d);
}

/// The camera-relative sum of the held directional bindings.
pub fn accumulate_direction(k: &InputState, c: &CameraOrientation) -> (r: Vec3)
    requires
        c.wf(),
    ensures
        r == accumulated(*k, *c),
        bounded(r, 2 * ONE),
{
    let mut d = Vec3::zero();
    if k.forward {
        d = d.add(&Vec3::new(c.forward.x, d.y, c.forward.z));
    }
    if k.backward {
        let back = c.forward.neg();
        d = d.add(&Vec3::new(back.x, d.y, back.z));
    }
    if k.left {
        d = d.add(&c.right.neg());
    }
    if k.right {
        d = d.add(&c.right);
    }
    proof {
        let a = axis(k.forward, k.backward);
        let b = axis(k.right, k.left);
        lemma_axis_product(a, c.forward.x as int);
        lemma_axis_product(a, c.forward.z as int);
        lemma_axis_product(b, c.right.x as int);
        lemma_axis_product(b, c.right.y as int);
        lemma_axis_product(b, c.right.z as int);
    }
    d
}

/// The intents of one tick for one entity, in emission order.
pub fn sample_intents(k: &InputState, c: &CameraOrientation) -> (r: Vec<MovementIntent>)
    requires
        c.wf(),
    ensures
        r@ == sampled(*k, *c),
        forall|i: int| 0 <= i < r@.len() ==> #[trigger] intent_wf(r@[i]),
        unit_directions(r@),
{
    let d = accumulate_direction(k, c);
    let n = normalize(&d);
    let mut out: Vec<MovementIntent> = Vec::new();
    match n {
        Some(dir) => {
            if k.forward || k.backward || k.left || k.right {
                out.push(MovementIntent::Move(dir));
            } else {
                out.push(MovementIntent::Idle);
            }
            if k.sprint {
                out.push(MovementIntent::Sprint(dir));
            }
        },
        None => {
            out.push(MovementIntent::Idle);
        },
    }
    proof {
        assert(out@ =~= sampled(*k, *c));
    }
    out
}

/// Samples the bindings of one entity into `queue`. Without a camera the
/// entity is skipped and `queue` is left as it was.
pub fn fetch_keyboard_input(k: &InputState, camera: Option<&CameraOrientation>, queue: &mut IntentQueue)
    requires
        old(queue).wf(),
        camera matches Some(c) ==> c.wf(),
    ensures
        final(queue).wf(),
        camera is None ==> final(queue)@ == old(queue)@,
        camera matches Some(c) ==> final(queue)@ == old(queue)@ + sampled(*k, *c),
{
    match camera {
        Some(c) => {
            let intents = sample_intents(k, c);
            let mut i: usize = 0;
            while i < intents.len()
                invariant
                    queue.wf(),
                    0 <= i <= intents@.len(),
                    intents@ == sampled(*k, *c),
                    forall|j: int| 0 <= j < intents@.len() ==> #[trigger] intent_wf(intents@[j]),
                    queue@ == old(queue)@ + intents@.subrange(0, i as int),
                decreases intents@.len() - i,
            {
                queue.push(intents[i]);
                proof {
                    assert(intents@.subrange(0, i + 1) =~= intents@.subrange(0, i as int).push(intents@[i as int]));
                }
                i = i + 1;
            }
            proof {
                assert(intents@.subrange(0, intents@.len() as int) =~= intents@);
            }
        },
        None => {},
    }
}

} // verus!

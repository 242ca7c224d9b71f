use vstd::prelude::*;

verus! {

/// Fixed-point scale: the length `1.0` in micro-units.
pub const ONE: i64 = 1_000_000;

/// Bound on the squared length of a vector within `[-32 ONE, 32 ONE]`.
pub const MAX_LEN_SQ: u64 = 4_000_000_000_000_000;

/// A three-dimensional vector in fixed-point micro-units. `y` is vertical.
#[derive(Clone, Copy, Debug, PartialEq, Eq, Structural)]
pub struct Vec3 {
    pub x: i64,
    pub y: i64,
    pub z: i64,
}

pub open spec fn abs(a: int) -> int {
    if a < 0 { -a } else { a }
}

/// Every component lies in `[-b, b]`.
pub open spec fn bounded(v: Vec3, b: int) -> bool {
    abs(v.x as int) <= b && abs(v.y as int) <= b && abs(v.z as int) <= b
}

pub open spec fn len_sq(v: Vec3) -> int {
    v.x * v.x + v.y * v.y + v.z * v.z
}

pub open spec fn dot(a: Vec3, b: Vec3) -> int {
    a.x * b.x + a.y * b.y + a.z * b.z
}

pub open spec fn is_zero(v: Vec3) -> bool {
    v.x == 0 && v.y == 0 && v.z == 0
}

/// `r` is the integer square root of `s`.
pub open spec fn is_root(s: int, r: int) -> bool {
    0 <= r && r * r <= s < (r + 1) * (r + 1)
}

/// The integer square root of `s`.
pub open spec fn root(s: int) -> int {
    choose|r: int| is_root(s, r)
}

/// `a * num / den`, rounded toward zero as a float-to-integer conversion does.
pub open spec fn scale_toward_zero(a: int, num: int, den: int) -> int {
    if a >= 0 {
        (a * num) / den
    } else {
        -(((-a) * num) / den)
    }
}

/// `ONE²`: squared lengths are scaled by it before their root is taken, so
/// that a normalised vector keeps full precision however short its input.
pub const ONE_SQ: u64 = 1_000_000_000_000;

/// `v` scaled to length [`ONE`], each component rounded toward zero: each
/// component times `ONE²`, divided by the root of `len_sq(v) * ONE²`.
pub open spec fn normalized(v: Vec3) -> Vec3 {
    let l = root(len_sq(v) * ONE_SQ);
    Vec3 {
        x: scale_toward_zero(v.x as int, ONE_SQ as int, l) as i64,
        y: scale_toward_zero(v.y as int, ONE_SQ as int, l) as i64,
        z: scale_toward_zero(v.z as int, ONE_SQ as int, l) as i64,
    }
}

/// The length of `v` is [`ONE`] within a relative error of `1e-5`: its
/// squared length is within `1e7` of `ONE²`.
pub open spec fn near_unit(v: Vec3) -> bool {
    1_000_000_000_000 - 10_000_000 <= len_sq(v) <= 1_000_000_000_000 + 10_000_000
}

pub proof fn lemma_root_unique(s: int, r1: int, r2: int)
    requires
        is_root(s, r1),
        is_root(s, r2),
    ensures
        r1 == r2,
{
    if r1 < r2 {
        assert((r1 + 1) * (r1 + 1) <= r2 * r2) by (nonlinear_arith)
            requires
                0 <= r1 < r2,
        ;
    } else if r2 < r1 {
        assert((r2 + 1) * (r2 + 1) <= r1 * r1) by (nonlinear_arith)
            requires
                0 <= r2 < r1,
        ;
    }
}

/// Every natural number has an integer square root.
pub proof fn lemma_root_exists(s: int) -> (r: int)
    requires
        0 <= s,
    ensures
        is_root(s, r),
    decreases s,
{
    if s == 0 {
        assert(is_root(0, 0)) by (nonlinear_arith);
        0
    } else {
        let q = lemma_root_exists(s - 1);
        if (q + 1) * (q + 1) <= s {
            assert(s < (q + 2) * (q + 2)) by (nonlinear_arith)
                requires s - 1 < (q + 1) * (q + 1), q >= 0;
            q + 1
        } else {
            q
        }
    }
}

pub proof fn lemma_root_is(s: int, r: int)
    requires
        is_root(s, r),
    ensures
        root(s) == r,
{
    let c = root(s);
    assert(is_root(s, c));
    lemma_root_unique(s, r, c);
}

proof fn lemma_square_bound(a: int, b: int)
    requires
        abs(a) <= b,
    ensures
        a * a <= b * b,
        a * a >= 0,
{
    assert(a * a <= b * b && a * a >= 0) by (nonlinear_arith)
        requires
            -b <= a <= b,
    ;
}

impl Vec3 {
    pub fn new(x: i64, y: i64, z: i64) -> (r: Vec3)
        ensures
            r == (Vec3 { x, y, z }),
    {
        Vec3 { x, y, z }
    }

    pub fn zero() -> (r: Vec3)
        ensures
            is_zero(r),
    {
        Vec3 { x: 0, y: 0, z: 0 }
    }

    /// Component-wise sum.
    pub fn add(&self, o: &Vec3) -> (r: Vec3)
        requires
            bounded(*self, 4 * ONE),
            bounded(*o, 4 * ONE),
        ensures
            r.x == self.x + o.x,
            r.y == self.y + o.y,
            r.z == self.z + o.z,
    {
        Vec3 { x: self.x + o.x, y: self.y + o.y, z: self.z + o.z }
    }

    /// The opposite vector.
    pub fn neg(&self) -> (r: Vec3)
        requires
            bounded(*self, 4 * ONE),
        ensures
            r.x == -self.x,
            r.y == -self.y,
            r.z == -self.z,
    {
        Vec3 { x: -self.x, y: -self.y, z: -self.z }
    }

    /// The projection onto the horizontal plane.
    pub fn flatten(&self) -> (r: Vec3)
        ensures
            r == (Vec3 { x: self.x, y: 0, z: self.z }),
    {
        Vec3 { x: self.x, y: 0, z: self.z }
    }

    pub fn length_squared(&self) -> (r: u64)
        requires
            bounded(*self, 32 * ONE),
        ensures
            r == len_sq(*self),
            r <= MAX_LEN_SQ,
    {
        proof {
            lemma_square_bound(self.x as int, 32 * ONE);
            lemma_square_bound(self.y as int, 32 * ONE);
            lemma_square_bound(self.z as int, 32 * ONE);
            assert(32 * ONE == 32_000_000);
            assert(32_000_000int * 32_000_000int == 1_024_000_000_000_000int);
        }
        let xx: i64 = self.x * self.x;
        let yy: i64 = self.y * self.y;
        let zz: i64 = self.z * self.z;
        (xx + yy + zz) as u64
    }

    pub fn dot(&self, o: &Vec3) -> (r: i64)
        requires
            bounded(*self, 32 * ONE),
            bounded(*o, 32 * ONE),
        ensures
            r == dot(*self, *o),
    {
        proof {
            assert(abs(self.x * o.x) <= 1024 * ONE * ONE) by (nonlinear_arith)
                requires abs(self.x as int) <= 32 * ONE, abs(o.x as int) <= 32 * ONE;
            assert(abs(self.y * o.y) <= 1024 * ONE * ONE) by (nonlinear_arith)
                requires abs(self.y as int) <= 32 * ONE, abs(o.y as int) <= 32 * ONE;
            assert(abs(self.z * o.z) <= 1024 * ONE * ONE) by (nonlinear_arith)
                requires abs(self.z as int) <= 32 * ONE, abs(o.z as int) <= 32 * ONE;
        }
        let xx = (self.x as i128) * (o.x as i128);
        let yy = (self.y as i128) * (o.y as i128);
        let zz = (self.z as i128) * (o.z as i128);
        (xx + yy + zz) as i64
    }
}

/// Largest input of [`isqrt`].
pub const MAX_SCALED_LEN_SQ: u128 = 4_000_000_000_000_000_000_000_000_000;

/// Integer square root by bisection.
pub fn isqrt(s: u128) -> (r: u128)
    requires
        s <= MAX_SCALED_LEN_SQ,
    ensures
        is_root(s as int, r as int),
        r <= 70_368_744_177_664,
{
    let mut lo: u128 = 0;
    let mut hi: u128 = 70_368_744_177_664;
    assert(70_368_744_177_664 * 70_368_744_177_664 > MAX_SCALED_LEN_SQ) by (nonlinear_arith);
    while hi - lo > 1
        invariant
            lo < hi <= 70_368_744_177_664,
            lo * lo <= s,
            s < hi * hi,
        decreases hi - lo,
    {
        let mid = lo + (hi - lo) / 2;
        assert(mid * mid <= 70_368_744_177_664 * 70_368_744_177_664) by (nonlinear_arith)
            requires mid <= 70_368_744_177_664;
        if mid * mid <= s {
            lo = mid;
        } else {
            hi = mid;
        }
    }
    assert(hi == lo + 1);
    lo
}

/// `a * num / den` rounded toward zero.
pub fn scale_component(a: i64, num: u64, den: u64) -> (r: i64)
    requires
        den > 0,
        abs(a as int) * num / (den as int) <= i64::MAX,
    ensures
        r == scale_toward_zero(a as int, num as int, den as int),
{
    let m: u128 = if a < 0 { (-(a as i128)) as u128 } else { a as u128 };
    proof {
        assert(m * num <= 0x8000_0000_0000_0000 * 0xffff_ffff_ffff_ffff) by (nonlinear_arith)
            requires m <= 0x8000_0000_0000_0000, num <= 0xffff_ffff_ffff_ffff;
    }
    let q: u128 = m * (num as u128) / (den as u128);
    if a < 0 {
        -(q as i64)
    } else {
        q as i64
    }
}

/// Facts on the root that [`normalized`] divides by, for `v` within
/// `[-32 ONE, 32 ONE]`.
proof fn lemma_scaled_root(v: Vec3) -> (l: int)
    requires
        bounded(v, 32 * ONE),
        !is_zero(v),
    ensures
        l == root(len_sq(v) * ONE_SQ),
        is_root(len_sq(v) * ONE_SQ, l),
        1_000_000 <= l <= 70_368_744_177_664,
        0 < len_sq(v) <= MAX_LEN_SQ,
        len_sq(v) * ONE_SQ <= MAX_SCALED_LEN_SQ,
        abs(v.x as int) * 1_000_000 <= l,
        abs(v.y as int) * 1_000_000 <= l,
        abs(v.z as int) * 1_000_000 <= l,
{
    let s = len_sq(v);
    lemma_square_bound(v.x as int, 32 * ONE);
    lemma_square_bound(v.y as int, 32 * ONE);
    lemma_square_bound(v.z as int, 32 * ONE);
    assert(32 * ONE == 32_000_000);
    assert(32_000_000int * 32_000_000int == 1_024_000_000_000_000int);
    if s == 0 {
        lemma_zero_len(v);
    }
    let ss = s * ONE_SQ;
    assert(ss <= MAX_SCALED_LEN_SQ) by (nonlinear_arith)
        requires ss == s * 1_000_000_000_000, 0 <= s <= 4_000_000_000_000_000;
    assert(ss >= 1_000_000_000_000) by (nonlinear_arith)
        requires ss == s * 1_000_000_000_000, s >= 1;
    lemma_root_exists(ss);
    let l = root(ss);
    assert(is_root(ss, l));
    assert(l <= 70_368_744_177_664) by {
        if l > 70_368_744_177_664 {
            assert(l * l > 70_368_744_177_664 * 70_368_744_177_664) by (nonlinear_arith)
                requires l > 70_368_744_177_664;
        }
    }
    assert(l >= 1_000_000) by {
        if l < 1_000_000 {
            assert((l + 1) * (l + 1) <= 1_000_000_000_000) by (nonlinear_arith) requires 0 <= l < 1_000_000;
        }
    }
    component_within_root(v.x as int, v.y as int, v.z as int, l);
    component_within_root(v.y as int, v.x as int, v.z as int, l);
    component_within_root(v.z as int, v.y as int, v.x as int, l);
    l
}

/// `v` scaled to length [`ONE`]; `None` when `v` is the zero vector. The
/// result is a unit vector within `1e-5` for every non-zero `v`.
pub fn normalize(v: &Vec3) -> (r: Option<Vec3>)
    requires
        bounded(*v, 32 * ONE),
    ensures
        is_zero(*v) <==> r is None,
        r matches Some(n) ==> n == normalized(*v) && bounded(n, ONE as int) && near_unit(n),
{
    let s = v.length_squared();
    if s == 0 {
        proof {
            lemma_zero_len(*v);
        }
        return None;
    }
    proof {
        if is_zero(*v) {
            assert(len_sq(*v) == 0) by (nonlinear_arith) requires v.x == 0, v.y == 0, v.z == 0;
        }
        lemma_scaled_root(*v);
        lemma_normalized_near_unit(*v);
    }
    let l = isqrt((s as u128) * (ONE_SQ as u128));
    proof {
        lemma_root_is(s as int * ONE_SQ, l as int);
        unit_bound(v.x as int, l as int);
        unit_bound(v.y as int, l as int);
        unit_bound(v.z as int, l as int);
    }
    let x = scale_component(v.x, ONE_SQ, l as u64);
    let y = scale_component(v.y, ONE_SQ, l as u64);
    let z = scale_component(v.z, ONE_SQ, l as u64);
    Some(Vec3 { x, y, z })
}

/// A normalised non-zero vector has components within `[-ONE, ONE]`.
pub proof fn lemma_normalized_bounded(v: Vec3, b: int)
    requires
        bounded(v, b),
        b <= 32 * ONE,
        !is_zero(v),
    ensures
        bounded(normalized(v), ONE as int),
{
    let l = lemma_scaled_root(v);
    unit_bound(v.x as int, l);
    unit_bound(v.y as int, l);
    unit_bound(v.z as int, l);
}

proof fn lemma_quotient_square(m: int, l: int)
    requires
        0 <= m,
        1 <= l,
    ensures
        0 <= m * 1_000_000_000_000 / l,
        (m * 1_000_000_000_000 / l) * (m * 1_000_000_000_000 / l) * (l * l)
            <= m * m * 1_000_000_000_000_000_000_000_000,
        m * m * 1_000_000_000_000_000_000_000_000 < ((m * 1_000_000_000_000 / l) * (m
            * 1_000_000_000_000 / l) + 2 * (m * 1_000_000_000_000 / l) + 1) * (l * l),
{
    let p = m * 1_000_000_000_000;
    let q = p / l;
    assert(p >= 0) by (nonlinear_arith) requires m >= 0, p == m * 1_000_000_000_000;
    assert(q * l <= p && p < (q + 1) * l && q >= 0) by (nonlinear_arith)
        requires q == p / l, l >= 1, p >= 0;
    assert(q * q * (l * l) <= p * p) by (nonlinear_arith)
        requires 0 <= q * l <= p, q >= 0, l >= 1;
    assert(p * p == m * m * 1_000_000_000_000_000_000_000_000) by (nonlinear_arith)
        requires p == m * 1_000_000_000_000;
    assert(p * p < (q * q + 2 * q + 1) * (l * l)) by (nonlinear_arith)
        requires 0 <= p < (q + 1) * l, q >= 0, l >= 1;
}

/// Facts on one component of a normalised vector: its square against the
/// input component's, with `l` the root that [`normalized`] divides by.
proof fn lemma_normalized_component(a: int, l: int)
    requires
        abs(a) * 1_000_000 <= l,
        1_000_000 <= l <= 70_368_744_177_664,
    ensures
        ({
            let n = scale_toward_zero(a, ONE_SQ as int, l);
            let q = abs(n);
            &&& abs(n) <= ONE
            &&& n * n == q * q
            &&& q * q * (l * l) <= a * a * 1_000_000_000_000_000_000_000_000
            &&& a * a * 1_000_000_000_000_000_000_000_000 < (q * q + 2 * q + 1) * (l * l)
        }),
{
    unit_bound(a, l);
    lemma_quotient_square(abs(a), l);
    let n = scale_toward_zero(a, ONE_SQ as int, l);
    assert(abs(a) * abs(a) == a * a) by (nonlinear_arith);
    assert(abs(n) * abs(n) == n * n) by (nonlinear_arith);
}

/// Every non-zero vector normalises to length [`ONE`] within a relative
/// error of `1e-5`.
pub proof fn lemma_normalized_near_unit(v: Vec3)
    requires
        bounded(v, 32 * ONE),
        !is_zero(v),
    ensures
        near_unit(normalized(v)),
{
    let s = len_sq(v);
    let l = lemma_scaled_root(v);
    let (x, y, z) = (v.x as int, v.y as int, v.z as int);
    lemma_normalized_component(x, l);
    lemma_normalized_component(y, l);
    lemma_normalized_component(z, l);
    let n = normalized(v);
    let qx = abs(scale_toward_zero(x, ONE_SQ as int, l));
    let qy = abs(scale_toward_zero(y, ONE_SQ as int, l));
    let qz = abs(scale_toward_zero(z, ONE_SQ as int, l));
    let t = qx * qx + qy * qy + qz * qz;
    assert(len_sq(n) == t);
    let ll = l * l;
    let e = 1_000_000_000_000int;
    let ee = 1_000_000_000_000_000_000_000_000int;
    let ss = s * e;
    assert(ss * e == s * ee) by (nonlinear_arith) requires ss == s * e, e == 1_000_000_000_000int,
        ee == 1_000_000_000_000_000_000_000_000int;
    // Upper bound.
    assert(t * ll <= s * ee) by (nonlinear_arith)
        requires
            qx * qx * ll <= x * x * ee,
            qy * qy * ll <= y * y * ee,
            qz * qz * ll <= z * z * ee,
            s == x * x + y * y + z * z,
            t == qx * qx + qy * qy + qz * qz,
    ;
    assert(ss * e < (ll + 2 * l + 1) * e) by (nonlinear_arith)
        requires ss < (l + 1) * (l + 1), ll == l * l, e > 0;
    assert(t <= e + 10_000_000) by (nonlinear_arith)
        requires t * ll <= ss * e, ss * e < (ll + 2 * l + 1) * e, ll == l * l, l >= 1_000_000,
            e == 1_000_000_000_000int;
    // Lower bound.
    assert(s * ee < (t + 2 * (qx + qy + qz) + 3) * ll) by (nonlinear_arith)
        requires
            x * x * ee < (qx * qx + 2 * qx + 1) * ll,
            y * y * ee < (qy * qy + 2 * qy + 1) * ll,
            z * z * ee < (qz * qz + 2 * qz + 1) * ll,
            s == x * x + y * y + z * z,
            t == qx * qx + qy * qy + qz * qz,
    ;
    assert(e * ll <= ss * e) by (nonlinear_arith) requires ll <= ss, e > 0;
    assert(ll > 0) by (nonlinear_arith) requires ll == l * l, l >= 1_000_000;
    assert(e < t + 2 * (qx + qy + qz) + 3) by (nonlinear_arith)
        requires e * ll < (t + 2 * (qx + qy + qz) + 3) * ll, ll > 0;
}

/// The product of a component within `[-2 ONE, 2 ONE]` and one within
/// `[-2 ONE, 2 ONE]` stays within `[-4 ONE², 4 ONE²]`.
pub proof fn lemma_unit_product_bound(a: int, b: int)
    requires
        -2 * ONE <= a <= 2 * ONE,
        -2 * ONE <= b <= 2 * ONE,
    ensures
        -4_000_000_000_000 <= a * b <= 4_000_000_000_000,
{
    assert(-4_000_000_000_000 <= a * b <= 4_000_000_000_000) by (nonlinear_arith)
        requires -2_000_000 <= a <= 2_000_000, -2_000_000 <= b <= 2_000_000;
}

/// Normalising a horizontal vector keeps it horizontal.
pub proof fn lemma_normalized_flat(v: Vec3)
    requires
        v.y == 0,
        bounded(v, 32 * ONE),
        !is_zero(v),
    ensures
        normalized(v).y == 0,
{
    let l = lemma_scaled_root(v);
    assert(0int * 1_000_000_000_000 / l == 0) by (nonlinear_arith) requires l >= 1;
}

/// Only the zero vector has length zero.
pub proof fn lemma_zero_len(v: Vec3)
    requires
        len_sq(v) == 0,
    ensures
        is_zero(v),
{
    let (x, y, z) = (v.x as int, v.y as int, v.z as int);
    assert(x * x >= 0 && y * y >= 0 && z * z >= 0) by (nonlinear_arith);
    assert(x == 0) by (nonlinear_arith) requires x * x == 0;
    assert(y == 0) by (nonlinear_arith) requires y * y == 0;
    assert(z == 0) by (nonlinear_arith) requires z * z == 0;
}

/// A component times `ONE` is at most the root of the scaled squared length.
proof fn component_within_root(a: int, b: int, c: int, l: int)
    requires
        is_root((a * a + b * b + c * c) * 1_000_000_000_000, l),
    ensures
        abs(a) * 1_000_000 <= l,
{
    let m = abs(a) * 1_000_000;
    assert(b * b >= 0 && c * c >= 0) by (nonlinear_arith);
    assert(m * m == a * a * 1_000_000_000_000) by (nonlinear_arith) requires m == abs(a) * 1_000_000;
    assert(m * m <= (a * a + b * b + c * c) * 1_000_000_000_000) by (nonlinear_arith)
        requires m * m == a * a * 1_000_000_000_000, b * b >= 0, c * c >= 0;
    if m > l {
        assert(m * m >= (l + 1) * (l + 1)) by (nonlinear_arith) requires m >= l + 1, l >= 0;
    }
}

proof fn unit_bound(a: int, l: int)
    requires
        abs(a) * 1_000_000 <= l,
        1 <= l,
    ensures
        abs(scale_toward_zero(a, ONE_SQ as int, l)) <= ONE,
        abs(a) * ONE_SQ / l <= ONE,
{
    let m = abs(a);
    assert(m * 1_000_000_000_000 <= l * 1_000_000) by (nonlinear_arith)
        requires m * 1_000_000 <= l, m >= 0;
    assert(m * 1_000_000_000_000 / l <= 1_000_000) by (nonlinear_arith)
        requires m * 1_000_000_000_000 <= l * 1_000_000, l >= 1, m >= 0;
    assert(m * 1_000_000_000_000 / l >= 0) by (nonlinear_arith) requires m >= 0, l >= 1;
}

} // verus!

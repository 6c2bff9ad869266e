//! Three-component vectors: a ghost model over `int` and an executable
//! fixed-point vector with exactly specified operations.

use vstd::prelude::*;
use crate::fixed::{lemma_sqrt_floor_le, sqrt_floor};

verus! {

/// The mathematical model of a vector: unbounded integer components.
pub ghost struct V3 {
    pub x: int,
    pub y: int,
    pub z: int,
}

pub open spec fn v_add(a: V3, b: V3) -> V3 {
    V3 { x: a.x + b.x, y: a.y + b.y, z: a.z + b.z }
}

pub open spec fn v_sub(a: V3, b: V3) -> V3 {
    V3 { x: a.x - b.x, y: a.y - b.y, z: a.z - b.z }
}

pub open spec fn v_neg(a: V3) -> V3 {
    V3 { x: -a.x, y: -a.y, z: -a.z }
}

pub open spec fn v_dot(a: V3, b: V3) -> int {
    a.x * b.x + a.y * b.y + a.z * b.z
}

/// The floor of the Euclidean length.
pub open spec fn v_norm(a: V3) -> int {
    sqrt_floor(v_dot(a, a))
}

pub open spec fn v_zero() -> V3 {
    V3 { x: 0, y: 0, z: 0 }
}

/// Every component lies in `[-m, m]`.
pub open spec fn v_bounded(a: V3, m: int) -> bool {
    &&& -m <= a.x <= m
    &&& -m <= a.y <= m
    &&& -m <= a.z <= m
}

/// A product of bounded factors is bounded.
pub proof fn lemma_abs_mul(x: int, y: int, mx: int, my: int)
    by (nonlinear_arith)
    requires
        -mx <= x <= mx,
        -my <= y <= my,
        0 <= mx,
        0 <= my,
    ensures
        -(mx * my) <= x * y <= mx * my,
{
}

/// A dot product of bounded vectors is bounded.
pub proof fn lemma_dot_bound(a: V3, b: V3, ma: int, mb: int)
    requires
        v_bounded(a, ma),
        v_bounded(b, mb),
        0 <= ma,
        0 <= mb,
    ensures
        -(3 * ma * mb) <= v_dot(a, b) <= 3 * ma * mb,
{
    lemma_abs_mul(a.x, b.x, ma, mb);
    lemma_abs_mul(a.y, b.y, ma, mb);
    lemma_abs_mul(a.z, b.z, ma, mb);
    assert(3 * ma * mb == (ma * mb) + (ma * mb) + (ma * mb)) by (nonlinear_arith);
}

/// A vector's dot product with itself is nonnegative, and zero only for
/// the zero vector.
pub proof fn lemma_dot_self(a: V3)
    ensures
        v_dot(a, a) >= 0,
        a != v_zero() ==> v_dot(a, a) >= 1,
        v_dot(a, a) == 0 ==> a == v_zero(),
{
    assert(a.x * a.x + a.y * a.y + a.z * a.z >= 0) by (nonlinear_arith);
    if a != v_zero() {
        assert(a.x != 0 || a.y != 0 || a.z != 0);
        assert(a.x * a.x + a.y * a.y + a.z * a.z >= 1) by (nonlinear_arith)
            requires
                a.x != 0 || a.y != 0 || a.z != 0,
        ;
    }
}

/// A nonzero dot product needs two nonzero vectors.
pub proof fn lemma_dot_nonzero(a: V3, b: V3)
    requires
        v_dot(a, b) != 0,
    ensures
        a != v_zero(),
        b != v_zero(),
{
    if a == v_zero() {
        assert(a.x * b.x == 0 && a.y * b.y == 0 && a.z * b.z == 0) by (nonlinear_arith)
            requires
                a.x == 0,
                a.y == 0,
                a.z == 0,
        ;
    }
    if b == v_zero() {
        assert(a.x * b.x == 0 && a.y * b.y == 0 && a.z * b.z == 0) by (nonlinear_arith)
            requires
                b.x == 0,
                b.y == 0,
                b.z == 0,
        ;
    }
}

/// The norm of a bounded vector is bounded.
pub proof fn lemma_norm_bound(a: V3, m: int)
    requires
        v_bounded(a, m),
        0 <= m,
    ensures
        0 <= v_norm(a) <= 2 * m,
{
    lemma_dot_self(a);
    lemma_dot_bound(a, a, m, m);
    assert(3 * m * m <= (2 * m) * (2 * m)) by (nonlinear_arith)
        requires
            0 <= m,
    ;
    lemma_sqrt_floor_le(v_dot(a, a), 2 * m);
    crate::fixed::lemma_sqrt_floor_bounds(v_dot(a, a));
}

/// A square no larger than `d` stays below `d`'s floor square root.
proof fn lemma_sq_le_root(xi: int, d: int, s: int)
    by (nonlinear_arith)
    requires
        xi * xi <= d,
        0 <= s,
        s * s <= d,
        d < (s + 1) * (s + 1),
    ensures
        -s <= xi <= s,
{
}

/// No component exceeds the vector's norm in magnitude.
pub proof fn lemma_component_le_norm(a: V3)
    ensures
        -v_norm(a) <= a.x <= v_norm(a),
        -v_norm(a) <= a.y <= v_norm(a),
        -v_norm(a) <= a.z <= v_norm(a),
{
    lemma_dot_self(a);
    crate::fixed::lemma_sqrt_floor_bounds(v_dot(a, a));
    let d: int = v_dot(a, a);
    let s: int = v_norm(a);
    assert(a.x * a.x <= d && a.y * a.y <= d && a.z * a.z <= d) by (nonlinear_arith)
        requires
            d == a.x * a.x + a.y * a.y + a.z * a.z,
    ;
    lemma_sq_le_root(a.x, d, s);
    lemma_sq_le_root(a.y, d, s);
    lemma_sq_le_root(a.z, d, s);
}

/// A nonzero vector has a norm of at least one.
pub proof fn lemma_norm_pos(a: V3)
    requires
        a != v_zero(),
    ensures
        v_norm(a) >= 1,
{
    lemma_dot_self(a);
    crate::fixed::lemma_sqrt_floor_bounds(v_dot(a, a));
    let s: int = v_norm(a);
    assert(s >= 1) by (nonlinear_arith)
        requires
            0 <= s,
            v_dot(a, a) >= 1,
            v_dot(a, a) < (s + 1) * (s + 1),
    ;
}

/// Executable fixed-point vector.  Components are world coordinates in
/// steps of `1 / SCALE` of a unit.
#[derive(Clone, Copy, PartialEq, Eq, Structural, Debug)]
pub struct Vec3 {
    pub x: i64,
    pub y: i64,
    pub z: i64,
}

impl View for Vec3 {
    type V = V3;

    open spec fn view(&self) -> V3 {
        V3 { x: self.x as int, y: self.y as int, z: self.z as int }
    }
}

/// Components small enough for the vector operations below.
pub const VEC_LIMIT: i64 = 0x1000_0000_0000_0000;

impl Vec3 {
    pub fn new(x: i64, y: i64, z: i64) -> (v: Vec3)
        ensures
            v@ == (V3 { x: x as int, y: y as int, z: z as int }),
    {
        Vec3 { x, y, z }
    }

    pub fn add(&self, other: &Vec3) -> (v: Vec3)
        requires
            v_bounded(self@, VEC_LIMIT as int),
            v_bounded(other@, VEC_LIMIT as int),
        ensures
            v@ == v_add(self@, other@),
    {
        Vec3 { x: self.x + other.x, y: self.y + other.y, z: self.z + other.z }
    }

    pub fn sub(&self, other: &Vec3) -> (v: Vec3)
        requires
            v_bounded(self@, VEC_LIMIT as int),
            v_bounded(other@, VEC_LIMIT as int),
        ensures
            v@ == v_sub(self@, other@),
    {
        Vec3 { x: self.x - other.x, y: self.y - other.y, z: self.z - other.z }
    }

    pub fn neg(&self) -> (v: Vec3)
        requires
            v_bounded(self@, VEC_LIMIT as int),
        ensures
            v@ == v_neg(self@),
    {
        Vec3 { x: -self.x, y: -self.y, z: -self.z }
    }

    /// Dot product, computed without loss in a wider integer.
    pub fn dot(&self, other: &Vec3) -> (d: i128)
        requires
            v_bounded(self@, VEC_LIMIT as int),
            v_bounded(other@, VEC_LIMIT as int),
        ensures
            d as int == v_dot(self@, other@),
    {
        proof {
            lemma_abs_mul(self@.x, other@.x, VEC_LIMIT as int, VEC_LIMIT as int);
            lemma_abs_mul(self@.y, other@.y, VEC_LIMIT as int, VEC_LIMIT as int);
            lemma_abs_mul(self@.z, other@.z, VEC_LIMIT as int, VEC_LIMIT as int);
        }
        self.x as i128 * other.x as i128 + self.y as i128 * other.y as i128
            + self.z as i128 * other.z as i128
    }

    /// The floor of the Euclidean length.
    pub fn magnitude(&self) -> (m: i64)
        requires
            v_bounded(self@, VEC_LIMIT as int),
        ensures
            m as int == v_norm(self@),
            0 <= m,
    {
        let d: i128 = self.dot(self);
        proof {
            lemma_dot_self(self@);
            lemma_dot_bound(self@, self@, VEC_LIMIT as int, VEC_LIMIT as int);
            let l: int = VEC_LIMIT as int;
            assert(3 * l * l < 0x4000_0000_0000_0000_0000_0000_0000_0000) by (nonlinear_arith)
                requires
                    l == 0x1000_0000_0000_0000,
            ;
            lemma_norm_bound(self@, VEC_LIMIT as int);
        }
        let m: u128 = crate::fixed::isqrt(d as u128);
        m as i64
    }
}

} // verus!

//! The algebra that element types must offer: addition, multiplication,
//! negation, zero and one, obeying the ring laws. No division, no ordering.

use vstd::arithmetic::div_mod::{
    lemma_add_mod_noop, lemma_mul_mod_noop_general, lemma_sub_mod_noop,
};
use vstd::prelude::*;
use vstd::wrapping::i64_specs;

verus! {

/// A ring with identity.
///
/// The spec functions say what the operations mean; the proof functions are
/// the ring laws, which every implementation has to prove; the executable
/// functions compute the operations.
pub trait Ring: Sized {
    /// The additive identity.
    spec fn zero_value() -> Self;

    /// The multiplicative identity.
    spec fn one_value() -> Self;

    /// `self + rhs`.
    spec fn sum(self, rhs: Self) -> Self;

    /// `self * rhs`.
    spec fn product(self, rhs: Self) -> Self;

    /// `-self`.
    spec fn negation(self) -> Self;

    /// `(a + b) + c == a + (b + c)`.
    proof fn lemma_add_associative(a: Self, b: Self, c: Self)
        ensures
            a.sum(b).sum(c) == a.sum(b.sum(c)),
    ;

    /// `a + b == b + a`.
    proof fn lemma_add_commutative(a: Self, b: Self)
        ensures
            a.sum(b) == b.sum(a),
    ;

    /// `a + 0 == a`.
    proof fn lemma_add_zero(a: Self)
        ensures
            a.sum(Self::zero_value()) == a,
    ;

    /// `a + (-a) == 0`.
    proof fn lemma_add_negation(a: Self)
        ensures
            a.sum(a.negation()) == Self::zero_value(),
    ;

    /// `(a * b) * c == a * (b * c)`.
    proof fn lemma_mul_associative(a: Self, b: Self, c: Self)
        ensures
            a.product(b).product(c) == a.product(b.product(c)),
    ;

    /// `a * 1 == a` and `1 * a == a`.
    proof fn lemma_mul_one(a: Self)
        ensures
            a.product(Self::one_value()) == a,
            Self::one_value().product(a) == a,
    ;

    /// `a * (b + c) == a * b + a * c` and `(a + b) * c == a * c + b * c`.
    proof fn lemma_distributive(a: Self, b: Self, c: Self)
        ensures
            a.product(b.sum(c)) == a.product(b).sum(a.product(c)),
            a.sum(b).product(c) == a.product(c).sum(b.product(c)),
    ;

    /// The additive identity.
    fn zero() -> (r: Self)
        ensures
            r == Self::zero_value(),
    ;

    /// The multiplicative identity.
    fn one() -> (r: Self)
        ensures
            r == Self::one_value(),
    ;

    /// `self + rhs`.
    fn add(&self, rhs: &Self) -> (r: Self)
        ensures
            r == self.sum(*rhs),
    ;

    /// `self * rhs`.
    fn mul(&self, rhs: &Self) -> (r: Self)
        ensures
            r == self.product(*rhs),
    ;

    /// `-self`.
    fn neg(&self) -> (r: Self)
        ensures
            r == self.negation(),
    ;
}

/// `0 + a == a`.
pub proof fn lemma_zero_add<R: Ring>(a: R)
    ensures
        R::zero_value().sum(a) == a,
{
    R::lemma_add_commutative(R::zero_value(), a);
    R::lemma_add_zero(a);
}

/// `a * 0 == 0` and `0 * a == 0`.
pub proof fn lemma_mul_zero<R: Ring>(a: R)
    ensures
        a.product(R::zero_value()) == R::zero_value(),
        R::zero_value().product(a) == R::zero_value(),
{
    let z = R::zero_value();
    R::lemma_add_zero(z);
    // a * 0 == a * (0 + 0) == a * 0 + a * 0, and cancelling a * 0 leaves 0.
    let p = a.product(z);
    R::lemma_distributive(a, z, z);
    R::lemma_add_negation(p);
    R::lemma_add_associative(p, p, p.negation());
    R::lemma_add_zero(p);
    let q = z.product(a);
    R::lemma_distributive(z, z, a);
    R::lemma_add_negation(q);
    R::lemma_add_associative(q, q, q.negation());
    R::lemma_add_zero(q);
}

/// The integer of `i64` that is congruent to `x` modulo 2^64.
pub open spec fn wrap(x: int) -> i64 {
    i64_specs::signed_crop(x)
}

/// The modulus of 64-bit arithmetic.
pub open spec fn modulus() -> int {
    0x1_0000_0000_0000_0000
}

/// `wrap(x)` differs from `x` by a multiple of the modulus, and leaves the
/// integers of `i64` alone.
pub proof fn lemma_wrap(x: int)
    ensures
        (wrap(x) as int) % modulus() == x % modulus(),
        i64::MIN <= x <= i64::MAX ==> wrap(x) == x,
{
    let y = x % modulus();
    if y > i64::MAX {
        assert((y - modulus()) % modulus() == y % modulus()) by {
            lemma_sub_mod_noop(y, modulus(), modulus());
        }
    }
}

/// Congruent integers wrap to the same `i64`.
pub proof fn lemma_wrap_congruent(x: int, y: int)
    requires
        x % modulus() == y % modulus(),
    ensures
        wrap(x) == wrap(y),
{
}

/// Wrapping addition is addition followed by `wrap`.
pub proof fn lemma_wrapping_add(a: i64, b: i64)
    ensures
        i64_specs::wrapping_add(a, b) == wrap(a + b),
{
    let s = a + b;
    if s > i64::MAX {
        lemma_wrap(s - modulus());
        lemma_sub_mod_noop(s, modulus(), modulus());
        lemma_wrap_congruent(s - modulus(), s);
    } else if s < i64::MIN {
        lemma_wrap(s + modulus());
        lemma_add_mod_noop(s, modulus(), modulus());
        lemma_wrap_congruent(s + modulus(), s);
    } else {
        lemma_wrap(s);
    }
}

/// Wrapping subtraction is subtraction followed by `wrap`.
pub proof fn lemma_wrapping_sub(a: i64, b: i64)
    ensures
        i64_specs::wrapping_sub(a, b) == wrap(a - b),
{
    let s = a - b;
    if s > i64::MAX {
        lemma_wrap(s - modulus());
        lemma_sub_mod_noop(s, modulus(), modulus());
        lemma_wrap_congruent(s - modulus(), s);
    } else if s < i64::MIN {
        lemma_wrap(s + modulus());
        lemma_add_mod_noop(s, modulus(), modulus());
        lemma_wrap_congruent(s + modulus(), s);
    } else {
        lemma_wrap(s);
    }
}

/// The integers modulo 2^64, each named by its representative in `i64`.
impl Ring for i64 {
    open spec fn zero_value() -> i64 {
        0
    }

    open spec fn one_value() -> i64 {
        1
    }

    open spec fn sum(self, rhs: i64) -> i64 {
        wrap(self + rhs)
    }

    open spec fn product(self, rhs: i64) -> i64 {
        wrap(self * rhs)
    }

    open spec fn negation(self) -> i64 {
        wrap(-self)
    }

    proof fn lemma_add_associative(a: i64, b: i64, c: i64) {
        lemma_wrap(a + b);
        lemma_wrap(b + c);
        lemma_add_mod_noop(wrap(a + b) as int, c as int, modulus());
        lemma_add_mod_noop(a + b, c as int, modulus());
        lemma_add_mod_noop(a as int, wrap(b + c) as int, modulus());
        lemma_add_mod_noop(a as int, b + c, modulus());
        lemma_wrap_congruent(wrap(a + b) + c, a + wrap(b + c));
    }

    proof fn lemma_add_commutative(a: i64, b: i64) {
    }

    proof fn lemma_add_zero(a: i64) {
        lemma_wrap(a as int);
    }

    proof fn lemma_add_negation(a: i64) {
        lemma_wrap(-a);
        lemma_add_mod_noop(a as int, wrap(-a) as int, modulus());
        lemma_add_mod_noop(a as int, -a, modulus());
        lemma_wrap_congruent(a + wrap(-a), 0);
        lemma_wrap(0);
    }

    proof fn lemma_mul_associative(a: i64, b: i64, c: i64) {
        lemma_wrap(a * b);
        lemma_wrap(b * c);
        lemma_mul_mod_noop_general(wrap(a * b) as int, c as int, modulus());
        lemma_mul_mod_noop_general(a * b, c as int, modulus());
        lemma_mul_mod_noop_general(a as int, wrap(b * c) as int, modulus());
        lemma_mul_mod_noop_general(a as int, b * c, modulus());
        assert((a * b) * c == a * (b * c)) by (nonlinear_arith);
        lemma_wrap_congruent(wrap(a * b) * c, a * wrap(b * c));
    }

    proof fn lemma_mul_one(a: i64) {
        lemma_wrap(a as int);
    }

    proof fn lemma_distributive(a: i64, b: i64, c: i64) {
        lemma_wrap(b + c);
        lemma_wrap(a + b);
        lemma_wrap(a * b);
        lemma_wrap(a * c);
        lemma_wrap(b * c);
        lemma_mul_mod_noop_general(a as int, wrap(b + c) as int, modulus());
        lemma_mul_mod_noop_general(a as int, b + c, modulus());
        lemma_add_mod_noop(wrap(a * b) as int, wrap(a * c) as int, modulus());
        lemma_add_mod_noop(a * b, a * c, modulus());
        assert(a * (b + c) == a * b + a * c) by (nonlinear_arith);
        lemma_wrap_congruent(a * wrap(b + c), wrap(a * b) + wrap(a * c));
        lemma_mul_mod_noop_general(wrap(a + b) as int, c as int, modulus());
        lemma_mul_mod_noop_general(a + b, c as int, modulus());
        lemma_add_mod_noop(wrap(a * c) as int, wrap(b * c) as int, modulus());
        lemma_add_mod_noop(a * c, b * c, modulus());
        assert((a + b) * c == a * c + b * c) by (nonlinear_arith);
        lemma_wrap_congruent(wrap(a + b) * c, wrap(a * c) + wrap(b * c));
    }

    fn zero() -> (r: i64) {
        0
    }

    fn one() -> (r: i64) {
        1
    }

    fn add(&self, rhs: &i64) -> (r: i64) {
        proof {
            lemma_wrapping_add(*self, *rhs);
        }
        self.wrapping_add(*rhs)
    }

    fn mul(&self, rhs: &i64) -> (r: i64) {
        self.wrapping_mul(*rhs)
    }

    fn neg(&self) -> (r: i64) {
        proof {
            lemma_wrapping_sub(0, *self);
        }
        0i64.wrapping_sub(*self)
    }
}

} // verus!

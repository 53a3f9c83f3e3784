//! The numeric base of the library: an exact fixed-point scalar.
//!
//! A `Scalar` counts millionths, so the value `1.5` is stored as
//! `1_500_000`. Addition and subtraction are exact; multiplication,
//! division and square root truncate toward zero at the sixth decimal
//! place. Every operation states its result exactly, as an integer
//! function of the operands' views.

use vstd::prelude::*;

verus! {

use vstd::math::abs;
use vstd::arithmetic::div_mod::lemma_div_nonincreasing;
use vstd::arithmetic::div_mod::lemma_div_pos_is_pos;

/// One whole unit, in millionths.
pub const SCALE: i128 = 1_000_000;

/// A fixed-point number: `v` millionths of a unit.
#[derive(Clone, Copy, Debug, PartialEq, Eq, Structural)]
pub struct Scalar {
    v: i128,
}

impl View for Scalar {
    type V = int;

    closed spec fn view(&self) -> int {
        self.v as int
    }
}

/// The range every scalar is kept in: one quintillion millionths
/// (one trillion units) either way. Products of two in-range values
/// then fit comfortably in an `i128`.
pub open spec fn fits(x: int) -> bool {
    -1_000_000_000_000_000_000 <= x <= 1_000_000_000_000_000_000
}

/// Division truncating toward zero, the rounding every inexact
/// operation of the library uses.
pub open spec fn trunc_div(a: int, b: int) -> int {
    if (a >= 0) == (b >= 0) {
        abs(a) as int / abs(b) as int
    } else {
        -(abs(a) as int / abs(b) as int)
    }
}

/// The product of two scalars, truncated to millionths.
pub open spec fn s_mul(a: int, b: int) -> int {
    trunc_div(a * b, SCALE as int)
}

/// The quotient of two scalars, truncated to millionths.
pub open spec fn s_div(a: int, b: int) -> int {
    trunc_div(a * (SCALE as int), b)
}

/// The integer square root: the largest `r` with `r * r <= n`.
pub open spec fn isqrt_s(n: nat) -> nat
    decreases n,
{
    if n == 0 {
        0
    } else {
        let r = isqrt_s((n - 1) as nat);
        if (r + 1) * (r + 1) <= n {
            (r + 1) as nat
        } else {
            r
        }
    }
}

/// The square root of a non-negative scalar, truncated to millionths.
pub open spec fn s_sqrt(a: int) -> int {
    isqrt_s((a * (SCALE as int)) as nat) as int
}

/// The `n`-th power of `b`, truncating after each multiplication,
/// as the lighting computation raises its specular factor.
pub open spec fn s_pow(b: int, n: nat) -> int
    decreases n,
{
    if n == 0 {
        SCALE as int
    } else {
        s_mul(s_pow(b, (n - 1) as nat), b)
    }
}

/// Every power up to the `n`-th stays in range.
pub open spec fn pow_ok(b: int, n: nat) -> bool {
    fits(b) && forall|i: nat| i <= n ==> fits(#[trigger] s_pow(b, i))
}

pub proof fn lemma_isqrt_bounds(n: nat)
    ensures
        isqrt_s(n) * isqrt_s(n) <= n,
        n < (isqrt_s(n) + 1) * (isqrt_s(n) + 1),
    decreases n,
{
    if n == 0 {
        assert(isqrt_s(n) == 0);
        assert(n < (isqrt_s(n) + 1) * (isqrt_s(n) + 1)) by (nonlinear_arith)
            requires
                n == 0,
                isqrt_s(n) == 0,
        ;
    } else {
        lemma_isqrt_bounds((n - 1) as nat);
        let r = isqrt_s((n - 1) as nat);
        assert(r * r <= n - 1);
        assert(n - 1 < (r + 1) * (r + 1));
        if (r + 1) * (r + 1) <= n {
            assert(isqrt_s(n) == (r + 1) as nat);
            assert(isqrt_s(n) * isqrt_s(n) <= n) by (nonlinear_arith)
                requires
                    isqrt_s(n) == r + 1,
                    (r + 1) * (r + 1) <= n,
                    r >= 0,
            ;
            assert(n < (isqrt_s(n) + 1) * (isqrt_s(n) + 1)) by (nonlinear_arith)
                requires
                    isqrt_s(n) == r + 1,
                    (r + 1) * (r + 1) > n - 1,
                    r >= 0,
            ;
        } else {
            assert(isqrt_s(n) == r);
            assert(isqrt_s(n) * isqrt_s(n) <= n) by (nonlinear_arith)
                requires
                    isqrt_s(n) == r,
                    r * r <= n - 1,
                    n >= 1,
            ;
            assert(n < (isqrt_s(n) + 1) * (isqrt_s(n) + 1)) by (nonlinear_arith)
                requires
                    isqrt_s(n) == r,
                    !((r + 1) * (r + 1) <= n),
                    r >= 0,
            ;
        }
    }
}

pub proof fn lemma_isqrt_unique(n: nat, r: nat)
    requires
        r * r <= n,
        n < (r + 1) * (r + 1),
    ensures
        r == isqrt_s(n),
{
    lemma_isqrt_bounds(n);
    let s = isqrt_s(n);
    if r < s {
        assert((r + 1) * (r + 1) <= s * s) by (nonlinear_arith)
            requires
                r + 1 <= s,
                r >= 0,
        ;
    }
    if s < r {
        assert((s + 1) * (s + 1) <= r * r) by (nonlinear_arith)
            requires
                s + 1 <= r,
                s >= 0,
        ;
    }
}

/// The integer square root of a perfect square is its root.
pub proof fn lemma_isqrt_square(a: nat)
    ensures
        isqrt_s(a * a) == a,
{
    assert(a * a < (a + 1) * (a + 1)) by (nonlinear_arith);
    lemma_isqrt_unique(a * a, a);
}

pub proof fn lemma_abs_mul(a: int, b: int)
    by (nonlinear_arith)
    ensures
        abs(a * b) == abs(a) * abs(b),
{
}

/// A product bound: when the operands' magnitudes multiply to at most
/// `c` units, the truncated product's magnitude is at most `c`.
pub proof fn lemma_s_mul_bound(a: int, b: int, c: int)
    requires
        abs(a) * abs(b) <= c * (SCALE as int),
        0 <= c,
    ensures
        abs(s_mul(a, b)) <= c,
{
    lemma_abs_mul(a, b);
    lemma_div_pos_is_pos(abs(a * b) as int, SCALE as int);
    assert(c * (SCALE as int) == (SCALE as int) * c) by (nonlinear_arith);
    vstd::arithmetic::div_mod::lemma_div_multiples_vanish(c, SCALE as int);
    vstd::arithmetic::div_mod::lemma_div_is_ordered(
        abs(a * b) as int,
        c * (SCALE as int),
        SCALE as int,
    );
}

/// The truncated square sits within one unit below the exact square.
pub proof fn lemma_square_bracket(x: int)
    ensures
        0 <= s_mul(x, x),
        s_mul(x, x) * (SCALE as int) <= x * x,
        x * x < s_mul(x, x) * (SCALE as int) + SCALE as int,
{
    assert(x * x >= 0) by (nonlinear_arith);
    lemma_div_pos_is_pos(abs(x * x) as int, SCALE as int);
    vstd::arithmetic::div_mod::lemma_fundamental_div_mod(x * x, SCALE as int);
    assert((SCALE as int) * ((x * x) / (SCALE as int)) == ((x * x) / (SCALE as int)) * (
    SCALE as int)) by (nonlinear_arith);
}

/// The truncated quotient brackets the exact one: `|q| b <= |a| SCALE`
/// and `|a| SCALE < (|q| + 1) b`.
pub proof fn lemma_sdiv_bracket(a: int, b: int)
    requires
        b >= 1,
    ensures
        0 <= abs(s_div(a, b)),
        abs(s_div(a, b)) * b <= abs(a) * (SCALE as int),
        abs(a) * (SCALE as int) < (abs(s_div(a, b)) + 1) * b,
{
    lemma_abs_mul(a, SCALE as int);
    let p = abs(a) * (SCALE as int);
    let q = p / b;
    lemma_div_pos_is_pos(p, b);
    vstd::arithmetic::div_mod::lemma_fundamental_div_mod(p, b);
    assert(b * (p / b) == (p / b) * b) by (nonlinear_arith);
    assert(abs(s_div(a, b)) == q);
    assert((q + 1) * b == q * b + b) by (nonlinear_arith);
}

/// A square is never negative, so neither is its truncation.
pub proof fn lemma_s_mul_self_nonneg(x: int)
    ensures
        s_mul(x, x) >= 0,
{
    assert(x * x >= 0) by (nonlinear_arith);
    lemma_div_pos_is_pos(abs(x * x) as int, SCALE as int);
}

/// The square root of at least one millionth is at least one millionth.
pub proof fn lemma_s_sqrt_pos(a: int)
    requires
        a >= 1,
    ensures
        s_sqrt(a) >= 1,
{
    let n = (a * (SCALE as int)) as nat;
    assert(a * (SCALE as int) >= 1_000_000) by (nonlinear_arith)
        requires
            a >= 1,
    ;
    lemma_isqrt_bounds(n);
    if isqrt_s(n) == 0 {
        assert((isqrt_s(n) + 1) * (isqrt_s(n) + 1) == 1) by (nonlinear_arith)
            requires
                isqrt_s(n) == 0,
        ;
    }
}

/// Multiplying by one is exact.
pub proof fn lemma_s_mul_one(x: int)
    ensures
        s_mul(SCALE as int, x) == x,
        s_mul(x, SCALE as int) == x,
{
    lemma_abs_mul(x, SCALE as int);
    assert(x * (SCALE as int) == (SCALE as int) * x) by (nonlinear_arith);
    assert(abs(x) * (SCALE as int) == (SCALE as int) * abs(x)) by (nonlinear_arith);
    vstd::arithmetic::div_mod::lemma_div_multiples_vanish(abs(x) as int, SCALE as int);
    if x >= 0 {
        assert(s_mul(x, SCALE as int) == x);
    } else {
        assert(s_mul(x, SCALE as int) == -(abs(x * (SCALE as int)) as int / (SCALE as int)));
    }
}

/// Multiplying by a whole non-negative number of units is exact.
pub proof fn lemma_s_mul_whole(k: int, a: int)
    requires
        k >= 0,
    ensures
        s_mul(k * (SCALE as int), a) == k * a,
{
    lemma_abs_mul(k * (SCALE as int), a);
    assert(abs(k * (SCALE as int)) == k * (SCALE as int)) by (nonlinear_arith)
        requires
            k >= 0,
    ;
    assert(abs(k * (SCALE as int)) * abs(a) == (k * abs(a)) * (SCALE as int)) by (nonlinear_arith)
        requires
            k >= 0,
    ;
    vstd::arithmetic::div_mod::lemma_div_multiples_vanish(k * abs(a) as int, SCALE as int);
    assert((k * abs(a)) * (SCALE as int) == (SCALE as int) * (k * abs(a))) by (nonlinear_arith);
    assert(k * abs(a) >= 0) by (nonlinear_arith)
        requires
            k >= 0,
    ;
    if a >= 0 {
        assert(k * (SCALE as int) * a >= 0) by (nonlinear_arith)
            requires
                k >= 0,
                a >= 0,
        ;
        assert(k * abs(a) == k * a);
    } else {
        assert(k * (SCALE as int) * a <= 0) by (nonlinear_arith)
            requires
                k >= 0,
                a < 0,
        ;
        assert(k * abs(a) == -(k * a)) by (nonlinear_arith)
            requires
                a < 0,
        ;
        if k * (SCALE as int) * a == 0 {
            assert(k * a == 0) by (nonlinear_arith)
                requires
                    k * (SCALE as int) * a == 0,
            ;
        }
    }
}

/// Dividing by one is exact.
pub proof fn lemma_s_div_one(x: int)
    ensures
        s_div(x, SCALE as int) == x,
{
    lemma_abs_mul(x, SCALE as int);
    assert(abs(x) * (SCALE as int) == (SCALE as int) * abs(x)) by (nonlinear_arith);
    vstd::arithmetic::div_mod::lemma_div_multiples_vanish(abs(x) as int, SCALE as int);
}

/// Multiplying by zero is zero.
pub proof fn lemma_s_mul_zero(x: int)
    ensures
        s_mul(0, x) == 0,
        s_mul(x, 0) == 0,
{
    lemma_abs_mul(x, 0);
    assert(x * 0 == 0) by (nonlinear_arith);
    assert(0 * x == 0) by (nonlinear_arith);
    vstd::arithmetic::div_mod::lemma_div_of0(SCALE as int);
}

/// The magnitude of an in-range scalar, as an unsigned machine word.
fn umag(x: i128) -> (r: u128)
    requires
        fits(x as int),
    ensures
        r as int == abs(x as int),
{
    if x < 0 {
        (-x) as u128
    } else {
        x as u128
    }
}

/// The integer square root of `n`, by bisection.
fn isqrt_exec(n: u128) -> (r: u128)
    requires
        n <= 1_000_000_000_000_000_000_000_000,
    ensures
        r as nat == isqrt_s(n as nat),
{
    let mut lo: u128 = 0;
    let mut hi: u128 = 1_000_000_000_001;
    proof {
        assert(1_000_000_000_001u128 * 1_000_000_000_001u128 > n) by (nonlinear_arith)
            requires
                n <= 1_000_000_000_000_000_000_000_000,
        ;
    }
    while hi - lo > 1
        invariant
            lo < hi,
            hi <= 1_000_000_000_001,
            lo * lo <= n,
            n < hi * hi,
        decreases hi - lo,
    {
        let mid: u128 = lo + (hi - lo) / 2;
        assert(lo < mid < hi);
        proof {
            assert(mid * mid <= 1_000_000_000_001 * 1_000_000_000_001) by (nonlinear_arith)
                requires
                    0 <= mid <= 1_000_000_000_001,
            ;
        }
        if mid * mid <= n {
            lo = mid;
        } else {
            hi = mid;
        }
    }
    proof {
        assert(n < (lo + 1) * (lo + 1)) by (nonlinear_arith)
            requires
                n < hi * hi,
                hi == lo + 1,
                lo >= 0,
        ;
        lemma_isqrt_unique(n as nat, lo as nat);
    }
    lo
}

impl Scalar {
    /// The scalar holding `v` millionths.
    pub fn from_micros(v: i128) -> (r: Scalar)
        requires
            fits(v as int),
        ensures
            r@ == v as int,
    {
        Scalar { v }
    }

    /// The scalar's value in millionths.
    pub fn micros(&self) -> (r: i128)
        ensures
            r as int == self@,
    {
        self.v
    }

    /// The whole number `n`.
    pub fn from_int(n: i64) -> (r: Scalar)
        requires
            fits(n * (SCALE as int)),
        ensures
            r@ == n * (SCALE as int),
    {
        Scalar { v: (n as i128) * SCALE }
    }

    /// The fraction `n / d`, truncated to millionths.
    pub fn ratio(n: i64, d: i64) -> (r: Scalar)
        requires
            d != 0,
            fits(n * (SCALE as int)),
            fits(d * (SCALE as int)),
            fits(s_div(n * (SCALE as int), d * (SCALE as int))),
        ensures
            r@ == s_div(n * (SCALE as int), d * (SCALE as int)),
    {
        let a = Scalar { v: (n as i128) * SCALE };
        let b = Scalar { v: (d as i128) * SCALE };
        proof {
            lemma_abs_mul(n as int, SCALE as int);
            lemma_abs_mul(d as int, SCALE as int);
        }
        a.div(b)
    }

    pub fn zero() -> (r: Scalar)
        ensures
            r@ == 0,
    {
        Scalar { v: 0 }
    }

    pub fn one() -> (r: Scalar)
        ensures
            r@ == SCALE as int,
    {
        Scalar { v: SCALE }
    }

    pub fn add(self, o: Scalar) -> (r: Scalar)
        requires
            fits(self@ + o@),
        ensures
            r@ == self@ + o@,
    {
        Scalar { v: self.v + o.v }
    }

    pub fn sub(self, o: Scalar) -> (r: Scalar)
        requires
            fits(self@ - o@),
        ensures
            r@ == self@ - o@,
    {
        Scalar { v: self.v - o.v }
    }

    pub fn neg(self) -> (r: Scalar)
        requires
            fits(self@),
        ensures
            r@ == -self@,
    {
        Scalar { v: -self.v }
    }

    pub fn mul(self, o: Scalar) -> (r: Scalar)
        requires
            fits(self@),
            fits(o@),
            fits(s_mul(self@, o@)),
        ensures
            r@ == s_mul(self@, o@),
    {
        let ma: u128 = umag(self.v);
        let mb: u128 = umag(o.v);
        proof {
            lemma_abs_mul(self@, o@);
            assert(ma as int * mb as int
                <= 1_000_000_000_000_000_000_000_000_000_000_000_000) by (nonlinear_arith)
                requires
                    0 <= ma as int <= 1_000_000_000_000_000_000,
                    0 <= mb as int <= 1_000_000_000_000_000_000,
            ;
        }
        let p: u128 = ma * mb;
        proof {
            lemma_div_nonincreasing(p as int, SCALE as int);
            lemma_div_pos_is_pos(p as int, SCALE as int);
            assert(((self@ < 0) != (o@ < 0)) ==> self@ * o@ <= 0) by (nonlinear_arith);
            assert(((self@ < 0) == (o@ < 0)) ==> self@ * o@ >= 0) by (nonlinear_arith);
        }
        let q: u128 = p / (SCALE as u128);
        if (self.v < 0) != (o.v < 0) {
            Scalar { v: -(q as i128) }
        } else {
            Scalar { v: q as i128 }
        }
    }

    pub fn div(self, o: Scalar) -> (r: Scalar)
        requires
            fits(self@),
            fits(o@),
            o@ != 0,
            fits(s_div(self@, o@)),
        ensures
            r@ == s_div(self@, o@),
    {
        let ma: u128 = umag(self.v);
        let mb: u128 = umag(o.v);
        proof {
            lemma_abs_mul(self@, SCALE as int);
        }
        let p: u128 = ma * (SCALE as u128);
        proof {
            lemma_div_nonincreasing(p as int, mb as int);
            lemma_div_pos_is_pos(p as int, mb as int);
        }
        let q: u128 = p / mb;
        if (self.v < 0) != (o.v < 0) {
            Scalar { v: -(q as i128) }
        } else {
            Scalar { v: q as i128 }
        }
    }

    /// The square root, truncated to millionths.
    pub fn sqrt(self) -> (r: Scalar)
        requires
            0 <= self@,
            fits(self@),
        ensures
            r@ == s_sqrt(self@),
            0 <= r@ <= 1_000_000_000_000,
    {
        let p: u128 = (self.v as u128) * (SCALE as u128);
        let q: u128 = isqrt_exec(p);
        proof {
            lemma_isqrt_bounds(p as nat);
            assert(isqrt_s(p as nat) <= 1_000_000_000_000) by {
                if isqrt_s(p as nat) > 1_000_000_000_000 {
                    assert(isqrt_s(p as nat) * isqrt_s(p as nat)
                        > 1_000_000_000_000_000_000_000_000) by (nonlinear_arith)
                        requires
                            isqrt_s(p as nat) > 1_000_000_000_000,
                    ;
                }
            }
        }
        Scalar { v: q as i128 }
    }

    /// The `n`-th power, truncating after each multiplication.
    pub fn pow(self, n: u64) -> (r: Scalar)
        requires
            pow_ok(self@, n as nat),
        ensures
            r@ == s_pow(self@, n as nat),
    {
        let mut acc = Scalar::one();
        let mut i: u64 = 0;
        while i < n
            invariant
                pow_ok(self@, n as nat),
                i <= n,
                acc@ == s_pow(self@, i as nat),
            decreases n - i,
        {
            proof {
                assert(fits(s_pow(self@, i as nat)));
                assert(fits(s_pow(self@, (i + 1) as nat)));
                assert(s_pow(self@, (i + 1) as nat) == s_mul(s_pow(self@, i as nat), self@));
            }
            acc = acc.mul(self);
            i = i + 1;
        }
        acc
    }

    pub fn lt(&self, o: &Scalar) -> (r: bool)
        ensures
            r == (self@ < o@),
    {
        self.v < o.v
    }

    pub fn le(&self, o: &Scalar) -> (r: bool)
        ensures
            r == (self@ <= o@),
    {
        self.v <= o.v
    }

    pub fn is_zero(&self) -> (r: bool)
        ensures
            r == (self@ == 0),
    {
        self.v == 0
    }
}

} // verus!

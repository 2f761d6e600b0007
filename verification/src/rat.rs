//! Exact rational coordinates with bounded numerator and denominator.
//!
//! A [`Rat`] denotes the value `num / den` with `den >= 1`. Construction
//! reduces the fraction by the greatest common divisor and rejects values
//! whose reduced parts do not fit [`COORD_LIMIT`], so overflow is impossible
//! in every later comparison or sign test.

use vstd::prelude::*;

verus! {

use vstd::arithmetic::div_mod::{
    lemma_fundamental_div_mod, lemma_mod_multiples_basic, lemma_small_mod,
};

/// Largest magnitude allowed for the reduced numerator and denominator of a
/// coordinate.
pub const COORD_LIMIT: i64 = 32767;

/// Largest magnitude accepted for an unreduced numerator or denominator: big
/// enough for any product or two-term sum of parts bounded by `COORD_LIMIT`.
pub const RAW_LIMIT: i128 = 2147483647;

/// An exact rational coordinate, denoting `num / den`.
#[derive(Clone, Copy, Debug)]
pub struct Rat {
    pub num: i64,
    pub den: i64,
}

/// Greatest common divisor, by Euclid's recursion.
pub open spec fn gcd(a: nat, b: nat) -> nat
    decreases b,
{
    if b == 0 {
        a
    } else {
        gcd(b, a % b)
    }
}

/// Magnitude of an integer.
pub open spec fn int_abs(n: int) -> int {
    if n < 0 {
        -n
    } else {
        n
    }
}

/// The reduced form of `n / d`, when its parts fit the coordinate limit.
pub open spec fn rat_norm(n: int, d: int) -> Option<Rat>
    recommends
        d >= 1,
{
    let g = gcd(int_abs(n) as nat, d as nat) as int;
    let rn = int_abs(n) / g;
    let rd = d / g;
    if rn <= COORD_LIMIT as int && rd <= COORD_LIMIT as int {
        Some(
            Rat {
                num: (if n < 0 {
                    -rn
                } else {
                    rn
                }) as i64,
                den: rd as i64,
            },
        )
    } else {
        None
    }
}

/// The reduced form of `n / d` for a nonzero denominator of either sign.
pub open spec fn rat_of(n: int, d: int) -> Option<Rat>
    recommends
        d != 0,
{
    if d >= 1 {
        rat_norm(n, d)
    } else {
        rat_norm(-n, -d)
    }
}

/// `a` and `b` denote the same rational value (meaningful for `wf` values).
pub open spec fn rat_eq(a: Rat, b: Rat) -> bool {
    a.num * b.den == b.num * a.den
}

/// The value of `a` is at most the value of `b`.
pub open spec fn rat_le(a: Rat, b: Rat) -> bool {
    a.num * b.den <= b.num * a.den
}

/// The value of `a` is strictly below the value of `b`.
pub open spec fn rat_lt(a: Rat, b: Rat) -> bool {
    a.num * b.den < b.num * a.den
}

/// Exact sum of two coordinates, reduced, or `None` past the limit.
pub open spec fn rat_add(a: Rat, b: Rat) -> Option<Rat> {
    rat_norm(a.num * b.den + b.num * a.den, a.den * b.den)
}

/// Exact difference `a - b`, reduced, or `None` past the limit.
pub open spec fn rat_sub(a: Rat, b: Rat) -> Option<Rat> {
    rat_norm(a.num * b.den - b.num * a.den, a.den * b.den)
}

/// Exact product, reduced, or `None` past the limit.
pub open spec fn rat_mul(a: Rat, b: Rat) -> Option<Rat> {
    rat_norm(a.num * b.num, a.den * b.den)
}

/// Exact quotient `a / b` for `b != 0`, reduced, or `None` past the limit.
pub open spec fn rat_div(a: Rat, b: Rat) -> Option<Rat>
    recommends
        b.num != 0,
{
    rat_of(a.num * b.den, a.den * b.num)
}

/// Bound on a product from bounds on its factors.
pub proof fn lemma_mul_within(a: int, b: int, ma: int, mb: int)
    by (nonlinear_arith)
    requires
        -ma <= a <= ma,
        -mb <= b <= mb,
        0 <= ma,
        0 <= mb,
    ensures
        -(ma * mb) <= a * b <= ma * mb,
{
}

/// `v` denotes the fraction `n / d` (an equation, meaningful for `d != 0`).
pub open spec fn val_frac(v: Rat, n: int, d: int) -> bool {
    v.num * d == n * v.den
}

/// Congruence of exact products: if the factors denote `n1 / d1` and
/// `n2 / d2`, their exact product denotes `(n1 * n2) / (d1 * d2)`.
pub proof fn lemma_frac_mul(v1: Rat, n1: int, d1: int, v2: Rat, n2: int, d2: int, v3: Rat)
    by (nonlinear_arith)
    requires
        d1 >= 1,
        d2 >= 1,
        v1.den >= 1,
        v2.den >= 1,
        v3.den >= 1,
        val_frac(v1, n1, d1),
        val_frac(v2, n2, d2),
        v3.num * (v1.den * v2.den) == (v1.num * v2.num) * v3.den,
    ensures
        val_frac(v3, n1 * n2, d1 * d2),
{
}

/// Congruence of exact differences: if the operands denote `n1 / d1` and
/// `n2 / d2`, their exact difference denotes `(n1 * d2 - n2 * d1) / (d1 * d2)`.
/// Ring identity: distribute a difference product over separate factors.
proof fn lemma_ring_expand(p: int, q: int, w: int, d1: int, d2: int)
    ensures
        ((p - q) * w) * (d1 * d2) == (p * d1) * (d2 * w) - (q * d2) * (d1 * w),
{
    let s = d1 * d2;
    assert(((p - q) * w) * s == (p * w) * s - (q * w) * s) by (nonlinear_arith);
    assert((p * w) * s == (p * d1) * (d2 * w)) by (nonlinear_arith)
        requires
            s == d1 * d2,
    ;
    assert((q * w) * s == (q * d2) * (d1 * w)) by (nonlinear_arith)
        requires
            s == d1 * d2,
    ;
}

/// Ring identity: collect substituted terms back into the difference form.
proof fn lemma_ring_collect(n1: int, n2: int, e1: int, e2: int, d1: int, d2: int, w: int)
    ensures
        ((n1 * e1) * e2) * (d2 * w) - ((n2 * e2) * e1) * (d1 * w) == ((n1 * d2 - n2 * d1) * w) * (
        e1 * e2),
{
    let x = n1 * d2;
    let y = n2 * d1;
    let c = e1 * e2;
    assert(((x - y) * w) * c == (x * w) * c - (y * w) * c) by (nonlinear_arith);
    assert((x * w) * c == ((n1 * e1) * e2) * (d2 * w)) by (nonlinear_arith)
        requires
            x == n1 * d2,
            c == e1 * e2,
    ;
    assert((y * w) * c == ((n2 * e2) * e1) * (d1 * w)) by (nonlinear_arith)
        requires
            y == n2 * d1,
            c == e1 * e2,
    ;
}

pub proof fn lemma_frac_sub(v1: Rat, n1: int, d1: int, v2: Rat, n2: int, d2: int, v3: Rat)
    requires
        d1 >= 1,
        d2 >= 1,
        v1.den >= 1,
        v2.den >= 1,
        v3.den >= 1,
        val_frac(v1, n1, d1),
        val_frac(v2, n2, d2),
        v3.num * (v1.den * v2.den) == (v1.num * v2.den - v2.num * v1.den) * v3.den,
    ensures
        val_frac(v3, n1 * d2 - n2 * d1, d1 * d2),
{
    let c = v1.den * v2.den;
    let p = v1.num * v2.den;
    let q = v2.num * v1.den;
    assert(c >= 1) by (nonlinear_arith)
        requires
            v1.den >= 1,
            v2.den >= 1,
            c == v1.den * v2.den,
    ;
    assert(v3.num * c * (d1 * d2) == ((p - q) * v3.den) * (d1 * d2)) by (nonlinear_arith)
        requires
            v3.num * c == (p - q) * v3.den,
    ;
    lemma_ring_expand(p, q, v3.den as int, d1, d2);
    assert((p * d1) * (d2 * v3.den) == ((n1 * v1.den) * v2.den) * (d2 * v3.den))
        by (nonlinear_arith)
        requires
            p == v1.num * v2.den,
            v1.num * d1 == n1 * v1.den,
    ;
    assert((q * d2) * (d1 * v3.den) == ((n2 * v2.den) * v1.den) * (d1 * v3.den))
        by (nonlinear_arith)
        requires
            q == v2.num * v1.den,
            v2.num * d2 == n2 * v2.den,
    ;
    lemma_ring_collect(n1, n2, v1.den as int, v2.den as int, d1, d2, v3.den as int);
    assert(v3.num * c * (d1 * d2) == ((n1 * d2 - n2 * d1) * v3.den) * (v1.den * v2.den));
    assert(v3.num * (d1 * d2) == (n1 * d2 - n2 * d1) * v3.den) by (nonlinear_arith)
        requires
            v3.num * c * (d1 * d2) == ((n1 * d2 - n2 * d1) * v3.den) * c,
            c >= 1,
    ;
}

/// A fraction with a nonzero value has a nonzero numerator.
pub proof fn lemma_frac_nonzero(v: Rat, n: int, d: int)
    by (nonlinear_arith)
    requires
        d >= 1,
        v.den >= 1,
        val_frac(v, n, d),
        n != 0,
    ensures
        v.num != 0,
{
}

/// Ordering by value is transitive (for positive denominators).
pub proof fn lemma_rat_le_trans(a: Rat, b: Rat, c: Rat)
    by (nonlinear_arith)
    requires
        a.den >= 1,
        b.den >= 1,
        c.den >= 1,
        rat_le(a, b),
        rat_le(b, c),
    ensures
        rat_le(a, c),
{
}

/// A product of positive factors is positive.
pub proof fn lemma_mul_pos(a: int, b: int)
    by (nonlinear_arith)
    requires
        a >= 1,
        b >= 1,
    ensures
        a * b >= 1,
{
}

/// The gcd of two naturals, not both zero, is positive and divides both.
pub proof fn lemma_gcd_divides(a: nat, b: nat)
    requires
        a != 0 || b != 0,
    ensures
        gcd(a, b) >= 1,
        a as int % (gcd(a, b) as int) == 0,
        b as int % (gcd(a, b) as int) == 0,
    decreases b,
{
    let g = gcd(a, b) as int;
    if b == 0 {
        assert(g == a as int);
        lemma_mod_multiples_basic(1, a as int);
        assert(1 * (a as int) == a as int) by (nonlinear_arith);
        lemma_small_mod(0, a);
    } else {
        let r = a % b;
        lemma_gcd_divides(b, r);
        assert(gcd(a, b) == gcd(b, r));
        // b == g * (b / g) and r == g * (r / g)
        lemma_fundamental_div_mod(b as int, g);
        lemma_fundamental_div_mod(r as int, g);
        let kb = b as int / g;
        let kr = r as int / g;
        // a == (a / b) * b + r
        lemma_fundamental_div_mod(a as int, b as int);
        let q = a as int / b as int;
        assert(a as int == q * (g * kb) + g * kr);
        let k = q * kb + kr;
        assert(a as int == k * g) by (nonlinear_arith)
            requires
                a as int == q * (g * kb) + g * kr,
                k == q * kb + kr,
        ;
        lemma_mod_multiples_basic(k, g);
    }
}

/// For exact divisions, the quotient can be taken on either factor.
proof fn lemma_div_exact_commute(a: int, b: int, g: int)
    requires
        g >= 1,
        a % g == 0,
        b % g == 0,
    ensures
        (a / g) * b == a * (b / g),
{
    lemma_fundamental_div_mod(a, g);
    lemma_fundamental_div_mod(b, g);
    assert((a / g) * b == a * (b / g)) by (nonlinear_arith)
        requires
            a == g * (a / g),
            b == g * (b / g),
    ;
}

/// Cancel a sign shared by both sides of a cross-multiplied value equation.
proof fn lemma_negate_value(v: Rat, a: int, b: int)
    by (nonlinear_arith)
    requires
        v.num * (-b) == (-a) * v.den,
    ensures
        v.num * b == a * v.den,
{
}

/// A reduced fraction is well-formed and denotes the value it was made from.
pub proof fn lemma_rat_norm_value(n: int, d: int)
    requires
        d >= 1,
    ensures
        rat_norm(n, d) matches Some(v) ==> v.wf() && v.num * d == n * v.den,
{
    let na = int_abs(n);
    lemma_gcd_divides(na as nat, d as nat);
    let g = gcd(na as nat, d as nat) as int;
    let rn = na / g;
    let rd = d / g;
    lemma_fundamental_div_mod(na, g);
    lemma_fundamental_div_mod(d, g);
    assert(na == g * rn && d == g * rd);
    assert(rn >= 0 && rd >= 1) by (nonlinear_arith)
        requires
            na == g * rn,
            d == g * rd,
            na >= 0,
            d >= 1,
            g >= 1,
    ;
    if rn <= COORD_LIMIT as int && rd <= COORD_LIMIT as int {
        lemma_div_exact_commute(na, d, g);
        assert(rn * d == na * rd);
        if n < 0 {
            assert((-rn) * d == n * rd) by (nonlinear_arith)
                requires
                    rn * d == na * rd,
                    na == -n,
            ;
        }
    }
}

impl Rat {
    /// Well-formed: positive denominator, both parts within the limit.
    pub open spec fn wf(self) -> bool {
        &&& -(COORD_LIMIT as int) <= self.num as int <= COORD_LIMIT as int
        &&& 1 <= self.den as int <= COORD_LIMIT as int
    }

    /// The integer `i` as a coordinate.
    pub fn from_int(i: i64) -> (r: Rat)
        requires
            -COORD_LIMIT <= i <= COORD_LIMIT,
        ensures
            r.wf(),
            r.num == i,
            r.den == 1,
    {
        Rat { num: i, den: 1 }
    }

    /// The reduced coordinate `num / den`, or `None` when the reduced parts
    /// do not fit the coordinate limit.
    pub fn new(num: i64, den: i64) -> (r: Option<Rat>)
        requires
            den != 0,
            -RAW_LIMIT <= num as i128 <= RAW_LIMIT,
            -RAW_LIMIT <= den as i128 <= RAW_LIMIT,
        ensures
            r == rat_of(num as int, den as int),
            r matches Some(v) ==> v.wf() && v.num * den == num * v.den,
    {
        proof {
            if den >= 1 {
                lemma_rat_norm_value(num as int, den as int);
            } else {
                lemma_rat_norm_value(-(num as int), -(den as int));
                let r = rat_of(num as int, den as int);
                if r is Some {
                    lemma_negate_value(r->Some_0, num as int, den as int);
                }
            }
        }
        if den >= 1 {
            rat_make(num as i128, den as i128)
        } else {
            rat_make(-(num as i128), -(den as i128))
        }
    }

    /// Exact comparison: the value of `self` is at most that of `other`.
    pub fn le(&self, other: &Rat) -> (r: bool)
        ensures
            r == rat_le(*self, *other),
    {
        proof {
            lemma_mul_within(
                self.num as int,
                other.den as int,
                0x8000_0000_0000_0000,
                0x8000_0000_0000_0000,
            );
            lemma_mul_within(
                other.num as int,
                self.den as int,
                0x8000_0000_0000_0000,
                0x8000_0000_0000_0000,
            );
        }
        (self.num as i128) * (other.den as i128) <= (other.num as i128) * (self.den as i128)
    }

    /// Exact comparison: the value of `self` is strictly below `other`.
    pub fn lt(&self, other: &Rat) -> (r: bool)
        ensures
            r == rat_lt(*self, *other),
    {
        proof {
            lemma_mul_within(
                self.num as int,
                other.den as int,
                0x8000_0000_0000_0000,
                0x8000_0000_0000_0000,
            );
            lemma_mul_within(
                other.num as int,
                self.den as int,
                0x8000_0000_0000_0000,
                0x8000_0000_0000_0000,
            );
        }
        (self.num as i128) * (other.den as i128) < (other.num as i128) * (self.den as i128)
    }

    /// Exact value equality (the fractions may have different parts).
    pub fn eq_val(&self, other: &Rat) -> (r: bool)
        ensures
            r == rat_eq(*self, *other),
    {
        proof {
            lemma_mul_within(
                self.num as int,
                other.den as int,
                0x8000_0000_0000_0000,
                0x8000_0000_0000_0000,
            );
            lemma_mul_within(
                other.num as int,
                self.den as int,
                0x8000_0000_0000_0000,
                0x8000_0000_0000_0000,
            );
        }
        (self.num as i128) * (other.den as i128) == (other.num as i128) * (self.den as i128)
    }

    /// Exact sum.
    pub fn add(&self, other: &Rat) -> (r: Option<Rat>)
        requires
            self.wf(),
            other.wf(),
        ensures
            r == rat_add(*self, *other),
            r matches Some(v) ==> v.wf() && v.num * (self.den * other.den) == (self.num
                * other.den + other.num * self.den) * v.den,
    {
        proof {
            lemma_mul_within(self.num as int, other.den as int, COORD_LIMIT as int, COORD_LIMIT as int);
            lemma_mul_within(other.num as int, self.den as int, COORD_LIMIT as int, COORD_LIMIT as int);
            lemma_mul_within(self.den as int, other.den as int, COORD_LIMIT as int, COORD_LIMIT as int);
            lemma_mul_pos(self.den as int, other.den as int);
            lemma_rat_norm_value(
                self.num * other.den + other.num * self.den,
                self.den * other.den,
            );
        }
        rat_make(
            (self.num as i128) * (other.den as i128) + (other.num as i128) * (self.den as i128),
            (self.den as i128) * (other.den as i128),
        )
    }

    /// Exact difference `self - other`.
    pub fn sub(&self, other: &Rat) -> (r: Option<Rat>)
        requires
            self.wf(),
            other.wf(),
        ensures
            r == rat_sub(*self, *other),
            r matches Some(v) ==> v.wf() && v.num * (self.den * other.den) == (self.num
                * other.den - other.num * self.den) * v.den,
    {
        proof {
            lemma_mul_within(self.num as int, other.den as int, COORD_LIMIT as int, COORD_LIMIT as int);
            lemma_mul_within(other.num as int, self.den as int, COORD_LIMIT as int, COORD_LIMIT as int);
            lemma_mul_within(self.den as int, other.den as int, COORD_LIMIT as int, COORD_LIMIT as int);
            lemma_mul_pos(self.den as int, other.den as int);
            lemma_rat_norm_value(
                self.num * other.den - other.num * self.den,
                self.den * other.den,
            );
        }
        rat_make(
            (self.num as i128) * (other.den as i128) - (other.num as i128) * (self.den as i128),
            (self.den as i128) * (other.den as i128),
        )
    }

    /// Exact product.
    pub fn mul(&self, other: &Rat) -> (r: Option<Rat>)
        requires
            self.wf(),
            other.wf(),
        ensures
            r == rat_mul(*self, *other),
            r matches Some(v) ==> v.wf() && v.num * (self.den * other.den) == (self.num
                * other.num) * v.den,
    {
        proof {
            lemma_mul_within(self.num as int, other.num as int, COORD_LIMIT as int, COORD_LIMIT as int);
            lemma_mul_within(self.den as int, other.den as int, COORD_LIMIT as int, COORD_LIMIT as int);
            lemma_mul_pos(self.den as int, other.den as int);
            lemma_rat_norm_value(self.num * other.num, self.den * other.den);
        }
        rat_make(
            (self.num as i128) * (other.num as i128),
            (self.den as i128) * (other.den as i128),
        )
    }

    /// Exact quotient `self / other`, for a nonzero `other`.
    pub fn div(&self, other: &Rat) -> (r: Option<Rat>)
        requires
            self.wf(),
            other.wf(),
            other.num != 0,
        ensures
            r == rat_div(*self, *other),
            r matches Some(v) ==> v.wf() && v.num * (self.den * other.num) == (self.num
                * other.den) * v.den,
    {
        proof {
            lemma_mul_within(self.num as int, other.den as int, COORD_LIMIT as int, COORD_LIMIT as int);
            lemma_mul_within(self.den as int, other.num as int, COORD_LIMIT as int, COORD_LIMIT as int);
            if other.num >= 1 {
                lemma_mul_pos(self.den as int, other.num as int);
            } else {
                lemma_mul_pos(self.den as int, -(other.num as int));
                assert(self.den * -(other.num as int) == -(self.den * other.num))
                    by (nonlinear_arith);
            }
            if other.num >= 1 {
                lemma_rat_norm_value(self.num * other.den, self.den * other.num);
            } else {
                lemma_rat_norm_value(-(self.num * other.den), -(self.den * other.num));
                let r = rat_of(self.num * other.den, self.den * other.num);
                if r is Some {
                    lemma_negate_value(r->Some_0, self.num * other.den, self.den * other.num);
                }
            }
        }
        let n: i128 = (self.num as i128) * (other.den as i128);
        let d: i128 = (self.den as i128) * (other.num as i128);
        if d >= 1 {
            rat_make(n, d)
        } else {
            rat_make(-n, -d)
        }
    }

    /// Exact negation.
    pub fn neg(&self) -> (r: Rat)
        requires
            self.wf(),
        ensures
            r.wf(),
            r.num as int == -(self.num as int),
            r.den == self.den,
    {
        Rat { num: -self.num, den: self.den }
    }
}

/// Euclid's algorithm.
fn gcd_u64(a0: u64, b0: u64) -> (g: u64)
    ensures
        g as nat == gcd(a0 as nat, b0 as nat),
{
    let mut a = a0;
    let mut b = b0;
    while b != 0
        invariant
            gcd(a as nat, b as nat) == gcd(a0 as nat, b0 as nat),
        decreases b,
    {
        let t = a % b;
        a = b;
        b = t;
    }
    a
}

/// Reduce `n / d` by the gcd and fit-check the parts.
fn rat_make(n: i128, d: i128) -> (r: Option<Rat>)
    requires
        -RAW_LIMIT <= n <= RAW_LIMIT,
        1 <= d <= RAW_LIMIT,
    ensures
        r == rat_norm(n as int, d as int),
{
    let neg = n < 0;
    let na: u64 = if neg {
        (-n) as u64
    } else {
        n as u64
    };
    let du: u64 = d as u64;
    proof {
        lemma_gcd_divides(na as nat, du as nat);
    }
    let g = gcd_u64(na, du);
    let rn = na / g;
    let rd = du / g;
    if rn <= COORD_LIMIT as u64 && rd <= COORD_LIMIT as u64 {
        let num = if neg {
            -(rn as i64)
        } else {
            rn as i64
        };
        Some(Rat { num, den: rd as i64 })
    } else {
        None
    }
}

} // verus!

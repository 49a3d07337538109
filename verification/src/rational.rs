//! Exact rational scalars.
//!
//! Every coordinate and matrix entry in this library is a rational number:
//! an `i64` numerator over a positive `i64` denominator.  Values are kept
//! unreduced; two rationals denote the same number exactly when they
//! cross-multiply equal (`rm_eqv`).  Executable operations compute in `i128`
//! so that no intermediate product can overflow, and require only that the
//! resulting numerator and denominator fit back into `i64`.

use vstd::prelude::*;

verus! {

/// Mathematical model of a rational: an unbounded integer numerator over a
/// positive unbounded integer denominator.
pub ghost struct RatM {
    pub n: int,
    pub d: int,
}

/// A well-formed model has a positive denominator.
pub open spec fn rm_wf(a: RatM) -> bool {
    a.d > 0
}

/// Value equality of two rational models: cross-multiplication.
pub open spec fn rm_eqv(a: RatM, b: RatM) -> bool {
    a.n * b.d == b.n * a.d
}

pub open spec fn rm_zero() -> RatM {
    RatM { n: 0, d: 1 }
}

pub open spec fn rm_one() -> RatM {
    RatM { n: 1, d: 1 }
}

pub open spec fn rm_add(a: RatM, b: RatM) -> RatM {
    RatM { n: a.n * b.d + b.n * a.d, d: a.d * b.d }
}

pub open spec fn rm_sub(a: RatM, b: RatM) -> RatM {
    RatM { n: a.n * b.d - b.n * a.d, d: a.d * b.d }
}

pub open spec fn rm_mul(a: RatM, b: RatM) -> RatM {
    RatM { n: a.n * b.n, d: a.d * b.d }
}

/// Division by a rational with a positive numerator.
pub open spec fn rm_div_pos(a: RatM, b: RatM) -> RatM {
    RatM { n: a.n * b.d, d: a.d * b.n }
}

pub open spec fn rm_neg(a: RatM) -> RatM {
    RatM { n: -a.n, d: a.d }
}

/// `a <= b` as rational values; meaningful when both are well-formed.
pub open spec fn rm_le(a: RatM, b: RatM) -> bool {
    a.n * b.d <= b.n * a.d
}

/// `a < b` as rational values; meaningful when both are well-formed.
pub open spec fn rm_lt(a: RatM, b: RatM) -> bool {
    a.n * b.d < b.n * a.d
}

pub open spec fn rm_min(a: RatM, b: RatM) -> RatM {
    if rm_le(a, b) {
        a
    } else {
        b
    }
}

/// Whether an unbounded integer fits into an `i64`.
pub open spec fn fits_i64(x: int) -> bool {
    -0x8000_0000_0000_0000 <= x && x <= 0x7fff_ffff_ffff_ffff
}

/// Whether a rational model is representable as an executable `Rat`:
/// numerator in `i64` range, denominator positive and in `i64` range.
pub open spec fn rm_fits(a: RatM) -> bool {
    fits_i64(a.n) && 0 < a.d && a.d <= 0x7fff_ffff_ffff_ffff
}

/// Bound on the product of two arbitrary `i64` values: it always fits an
/// `i128`.
proof fn lemma_prod_bound(a: int, b: int)
    by (nonlinear_arith)
    requires
        -0x8000_0000_0000_0000 <= a <= 0x7fff_ffff_ffff_ffff,
        -0x8000_0000_0000_0000 <= b <= 0x7fff_ffff_ffff_ffff,
    ensures
        -0x4000_0000_0000_0000_0000_0000_0000_0000 <= a * b,
        a * b <= 0x4000_0000_0000_0000_0000_0000_0000_0000,
{
}

/// Bound on the product of an `i64` value with a positive `i64` value
/// (a denominator): the sum of two such products still fits an `i128`.
proof fn lemma_prod_den_bound(a: int, b: int)
    by (nonlinear_arith)
    requires
        -0x8000_0000_0000_0000 <= a <= 0x7fff_ffff_ffff_ffff,
        1 <= b <= 0x7fff_ffff_ffff_ffff,
    ensures
        -0x3fff_ffff_ffff_ffff_8000_0000_0000_0000 <= a * b,
        a * b <= 0x3fff_ffff_ffff_ffff_8000_0000_0000_0000,
{
}

/// The product of two positive denominators is a positive denominator.
proof fn lemma_den_prod_pos(a: int, b: int)
    by (nonlinear_arith)
    requires
        1 <= a <= 0x7fff_ffff_ffff_ffff,
        1 <= b <= 0x7fff_ffff_ffff_ffff,
    ensures
        1 <= a * b,
        a * b <= 0x4000_0000_0000_0000_0000_0000_0000_0000,
{
}

/// An exact rational scalar: `num / den` with `den > 0`.
#[derive(Clone, Copy, PartialEq, Eq, Structural, Debug)]
pub struct Rat {
    pub num: i64,
    pub den: i64,
}

impl View for Rat {
    type V = RatM;

    open spec fn view(&self) -> RatM {
        RatM { n: self.num as int, d: self.den as int }
    }
}

impl Rat {
    pub open spec fn wf(self) -> bool {
        self.den > 0
    }

    pub fn new(num: i64, den: i64) -> (r: Rat)
        requires
            den > 0,
        ensures
            r.wf(),
            r@ == (RatM { n: num as int, d: den as int }),
    {
        Rat { num, den }
    }

    pub fn from_int(num: i64) -> (r: Rat)
        ensures
            r.wf(),
            r@ == (RatM { n: num as int, d: 1 }),
    {
        Rat { num, den: 1 }
    }

    pub fn zero() -> (r: Rat)
        ensures
            r.wf(),
            r@ == rm_zero(),
    {
        Rat { num: 0, den: 1 }
    }

    pub fn one() -> (r: Rat)
        ensures
            r.wf(),
            r@ == rm_one(),
    {
        Rat { num: 1, den: 1 }
    }

    pub fn add(&self, other: &Rat) -> (r: Rat)
        requires
            self.wf(),
            other.wf(),
            rm_fits(rm_add(self@, other@)),
        ensures
            r.wf(),
            r@ == rm_add(self@, other@),
    {
        proof {
            lemma_prod_den_bound(self.num as int, other.den as int);
            lemma_prod_den_bound(other.num as int, self.den as int);
            lemma_den_prod_pos(self.den as int, other.den as int);
        }
        let n: i128 = (self.num as i128) * (other.den as i128) + (other.num as i128) * (self.den
            as i128);
        let d: i128 = (self.den as i128) * (other.den as i128);
        Rat { num: n as i64, den: d as i64 }
    }

    pub fn sub(&self, other: &Rat) -> (r: Rat)
        requires
            self.wf(),
            other.wf(),
            rm_fits(rm_sub(self@, other@)),
        ensures
            r.wf(),
            r@ == rm_sub(self@, other@),
    {
        proof {
            lemma_prod_den_bound(self.num as int, other.den as int);
            lemma_prod_den_bound(other.num as int, self.den as int);
            lemma_den_prod_pos(self.den as int, other.den as int);
        }
        let n: i128 = (self.num as i128) * (other.den as i128) - (other.num as i128) * (self.den
            as i128);
        let d: i128 = (self.den as i128) * (other.den as i128);
        Rat { num: n as i64, den: d as i64 }
    }

    pub fn mul(&self, other: &Rat) -> (r: Rat)
        requires
            self.wf(),
            other.wf(),
            rm_fits(rm_mul(self@, other@)),
        ensures
            r.wf(),
            r@ == rm_mul(self@, other@),
    {
        proof {
            lemma_prod_bound(self.num as int, other.num as int);
            lemma_den_prod_pos(self.den as int, other.den as int);
        }
        let n: i128 = (self.num as i128) * (other.num as i128);
        let d: i128 = (self.den as i128) * (other.den as i128);
        Rat { num: n as i64, den: d as i64 }
    }

    /// Addition guarded at run time: `Some` exactly when the unreduced
    /// result fits 64 bits.
    pub fn checked_add(&self, other: &Rat) -> (r: Option<Rat>)
        requires
            self.wf(),
            other.wf(),
        ensures
            r is Some <==> rm_fits(rm_add(self@, other@)),
            r is Some ==> r->0.wf() && r->0@ == rm_add(self@, other@),
    {
        proof {
            lemma_prod_den_bound(self.num as int, other.den as int);
            lemma_prod_den_bound(other.num as int, self.den as int);
            lemma_den_prod_pos(self.den as int, other.den as int);
        }
        let n: i128 = (self.num as i128) * (other.den as i128) + (other.num as i128) * (self.den
            as i128);
        let d: i128 = (self.den as i128) * (other.den as i128);
        if n < -0x8000_0000_0000_0000i128 || n > 0x7fff_ffff_ffff_ffffi128
            || d > 0x7fff_ffff_ffff_ffffi128 {
            None
        } else {
            Some(Rat { num: n as i64, den: d as i64 })
        }
    }

    /// Multiplication guarded at run time: `Some` exactly when the unreduced
    /// result fits 64 bits.
    pub fn checked_mul(&self, other: &Rat) -> (r: Option<Rat>)
        requires
            self.wf(),
            other.wf(),
        ensures
            r is Some <==> rm_fits(rm_mul(self@, other@)),
            r is Some ==> r->0.wf() && r->0@ == rm_mul(self@, other@),
    {
        proof {
            lemma_prod_bound(self.num as int, other.num as int);
            lemma_den_prod_pos(self.den as int, other.den as int);
        }
        let n: i128 = (self.num as i128) * (other.num as i128);
        let d: i128 = (self.den as i128) * (other.den as i128);
        if n < -0x8000_0000_0000_0000i128 || n > 0x7fff_ffff_ffff_ffffi128
            || d > 0x7fff_ffff_ffff_ffffi128 {
            None
        } else {
            Some(Rat { num: n as i64, den: d as i64 })
        }
    }

    /// Division; the divisor must be a positive rational.
    pub fn div_pos(&self, other: &Rat) -> (r: Rat)
        requires
            self.wf(),
            other.wf(),
            other@.n > 0,
            rm_fits(rm_div_pos(self@, other@)),
        ensures
            r.wf(),
            r@ == rm_div_pos(self@, other@),
    {
        proof {
            lemma_prod_den_bound(self.num as int, other.den as int);
            lemma_den_prod_pos(self.den as int, other.num as int);
        }
        let n: i128 = (self.num as i128) * (other.den as i128);
        let d: i128 = (self.den as i128) * (other.num as i128);
        Rat { num: n as i64, den: d as i64 }
    }

    pub fn neg(&self) -> (r: Rat)
        requires
            self.wf(),
            rm_fits(rm_neg(self@)),
        ensures
            r.wf(),
            r@ == rm_neg(self@),
    {
        let n: i128 = -(self.num as i128);
        Rat { num: n as i64, den: self.den }
    }

    /// Value comparison `self <= other`.
    pub fn le(&self, other: &Rat) -> (r: bool)
        requires
            self.wf(),
            other.wf(),
        ensures
            r == rm_le(self@, other@),
    {
        proof {
            lemma_prod_den_bound(self.num as int, other.den as int);
            lemma_prod_den_bound(other.num as int, self.den as int);
        }
        (self.num as i128) * (other.den as i128) <= (other.num as i128) * (self.den as i128)
    }

    /// Value equality: do the two rationals denote the same number?
    pub fn eq_val(&self, other: &Rat) -> (r: bool)
        requires
            self.wf(),
            other.wf(),
        ensures
            r == rm_eqv(self@, other@),
    {
        proof {
            lemma_prod_den_bound(self.num as int, other.den as int);
            lemma_prod_den_bound(other.num as int, self.den as int);
        }
        (self.num as i128) * (other.den as i128) == (other.num as i128) * (self.den as i128)
    }
}

/// Value equality is transitive on well-formed rationals.
pub proof fn lemma_eqv_trans(a: RatM, b: RatM, c: RatM)
    requires
        rm_wf(a),
        rm_wf(b),
        rm_wf(c),
        rm_eqv(a, b),
        rm_eqv(b, c),
    ensures
        rm_eqv(a, c),
{
    assert(a.n * c.d == c.n * a.d) by (nonlinear_arith)
        requires
            b.d > 0,
            a.n * b.d == b.n * a.d,
            b.n * c.d == c.n * b.d,
    ;
}

/// Replacing the left addend by an equal value keeps the sum's value.
#[verifier::rlimit(100)]
pub proof fn lemma_add_congr_left(a: RatM, a2: RatM, b: RatM)
    requires
        rm_eqv(a, a2),
    ensures
        rm_eqv(rm_add(a, b), rm_add(a2, b)),
{
    assert((a.n * b.d + b.n * a.d) * (a2.d * b.d) == (a2.n * b.d + b.n * a2.d) * (a.d * b.d))
        by (nonlinear_arith)
        requires
            a.n * a2.d == a2.n * a.d,
    ;
}

/// Replacing the left factor by an equal value keeps the product's value.
pub proof fn lemma_mul_congr_left(a: RatM, a2: RatM, b: RatM)
    requires
        rm_eqv(a, a2),
    ensures
        rm_eqv(rm_mul(a, b), rm_mul(a2, b)),
{
    assert((a.n * b.n) * (a2.d * b.d) == (a2.n * b.n) * (a.d * b.d)) by (nonlinear_arith)
        requires
            a.n * a2.d == a2.n * a.d,
    ;
}

/// Multiplying by one keeps the value.
pub proof fn lemma_mul_one(b: RatM)
    ensures
        rm_eqv(rm_mul(rm_one(), b), b),
{
    assert((1 * b.n) * b.d == b.n * (1 * b.d)) by (nonlinear_arith);
}

/// Adding a rational with numerator zero keeps the value.
pub proof fn lemma_add_znum(a: RatM, z: RatM)
    requires
        z.n == 0,
    ensures
        rm_eqv(rm_add(a, z), a),
{
    assert((a.n * z.d + 0 * a.d) * a.d == a.n * (a.d * z.d)) by (nonlinear_arith);
}

/// Adding a rational with numerator zero on the left keeps the value.
pub proof fn lemma_add_znum_left(z: RatM, a: RatM)
    requires
        z.n == 0,
    ensures
        rm_eqv(rm_add(z, a), a),
{
    assert((0 * a.d + a.n * z.d) * a.d == a.n * (z.d * a.d)) by (nonlinear_arith);
}

/// The difference of two equal values has value zero.
pub proof fn lemma_sub_eqv_zero(p: RatM, q: RatM)
    requires
        rm_eqv(p, q),
    ensures
        rm_eqv(rm_sub(p, q), rm_zero()),
{
}

/// Adding back a difference restores the value: `x + (y - x)` equals `y`.
pub proof fn lemma_add_sub_cancel(x: RatM, y: RatM)
    ensures
        rm_eqv(rm_add(x, rm_sub(y, x)), y),
{
    assert((x.n * (y.d * x.d) + (y.n * x.d - x.n * y.d) * x.d) * y.d == y.n * (x.d * (y.d
        * x.d))) by (nonlinear_arith);
}

/// A positive rational divided by itself has value one.
pub proof fn lemma_div_self_one(a: RatM)
    requires
        rm_wf(a),
        a.n > 0,
    ensures
        rm_eqv(rm_div_pos(a, a), rm_one()),
{
    assert((a.n * a.d) * 1 == 1 * (a.d * a.n)) by (nonlinear_arith);
}

/// Well-formedness of the arithmetic results: the denominators stay positive.
pub proof fn lemma_ops_wf(a: RatM, b: RatM)
    requires
        rm_wf(a),
        rm_wf(b),
    ensures
        rm_wf(rm_add(a, b)),
        rm_wf(rm_sub(a, b)),
        rm_wf(rm_mul(a, b)),
        rm_wf(rm_neg(a)),
        rm_wf(rm_min(a, b)),
{
    assert(a.d * b.d > 0) by (nonlinear_arith)
        requires
            a.d > 0,
            b.d > 0,
    ;
}

/// Well-formedness of division by a positive rational.
pub proof fn lemma_div_pos_wf(a: RatM, b: RatM)
    requires
        rm_wf(a),
        rm_wf(b),
        b.n > 0,
    ensures
        rm_wf(rm_div_pos(a, b)),
{
    assert(a.d * b.n > 0) by (nonlinear_arith)
        requires
            a.d > 0,
            b.n > 0,
    ;
}

/// The smaller of two rationals by value.
pub fn rat_min(a: &Rat, b: &Rat) -> (r: Rat)
    requires
        a.wf(),
        b.wf(),
    ensures
        r.wf(),
        r@ == rm_min(a@, b@),
{
    if a.le(b) {
        *a
    } else {
        *b
    }
}

} // verus!

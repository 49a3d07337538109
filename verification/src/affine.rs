//! 2D points and homogeneous affine transforms over exact rationals.
//!
//! A transform holds the six free entries of a 3×3 homogeneous matrix in
//! column-major reading order `s[0..9]`: `a = s0`, `b = s1`, `c = s3`,
//! `d = s4`, `e = s6`, `f = s7`, with the implicit third row `[0, 0, 1]`.
//! As a matrix:
//!
//! ```text
//! [ a  c  e ]
//! [ b  d  f ]
//! [ 0  0  1 ]
//! ```

use vstd::prelude::*;

use crate::rational::{
    lemma_add_znum, lemma_add_znum_left, lemma_eqv_trans, lemma_mul_one, lemma_ops_wf, Rat, RatM,
    rm_add, rm_eqv, rm_fits, rm_mul, rm_one, rm_wf, rm_zero,
};

verus! {

/// Mathematical model of a 2D point.
pub ghost struct Pt2M {
    pub x: RatM,
    pub y: RatM,
}

/// Mathematical model of a 2D homogeneous affine transform.
pub ghost struct AffM {
    pub a: RatM,
    pub b: RatM,
    pub c: RatM,
    pub d: RatM,
    pub e: RatM,
    pub f: RatM,
}

pub open spec fn pm_wf(p: Pt2M) -> bool {
    rm_wf(p.x) && rm_wf(p.y)
}

pub open spec fn am_wf(t: AffM) -> bool {
    rm_wf(t.a) && rm_wf(t.b) && rm_wf(t.c) && rm_wf(t.d) && rm_wf(t.e) && rm_wf(t.f)
}

/// Pointwise value equality of two points.
pub open spec fn pm_eqv(p: Pt2M, q: Pt2M) -> bool {
    rm_eqv(p.x, q.x) && rm_eqv(p.y, q.y)
}

/// Entrywise value equality of two transforms.
pub open spec fn am_eqv(t: AffM, u: AffM) -> bool {
    rm_eqv(t.a, u.a) && rm_eqv(t.b, u.b) && rm_eqv(t.c, u.c) && rm_eqv(t.d, u.d) && rm_eqv(
        t.e,
        u.e,
    ) && rm_eqv(t.f, u.f)
}

pub open spec fn am_identity() -> AffM {
    AffM {
        a: rm_one(),
        b: rm_zero(),
        c: rm_zero(),
        d: rm_one(),
        e: rm_zero(),
        f: rm_zero(),
    }
}

/// The linear combination `p*q + r*s` as computed by the executable code.
pub open spec fn rm_lin(p: RatM, q: RatM, r: RatM, s: RatM) -> RatM {
    rm_add(rm_mul(p, q), rm_mul(r, s))
}

/// Every intermediate of `p*q + r*s` is representable.
pub open spec fn rm_lin_fits(p: RatM, q: RatM, r: RatM, s: RatM) -> bool {
    rm_fits(rm_mul(p, q)) && rm_fits(rm_mul(r, s)) && rm_fits(rm_lin(p, q, r, s))
}

/// Matrix product `t · u`: the transform that applies `u` first, then `t`.
pub open spec fn am_compose(t: AffM, u: AffM) -> AffM {
    AffM {
        a: rm_lin(t.a, u.a, t.c, u.b),
        b: rm_lin(t.b, u.a, t.d, u.b),
        c: rm_lin(t.a, u.c, t.c, u.d),
        d: rm_lin(t.b, u.c, t.d, u.d),
        e: rm_add(rm_lin(t.a, u.e, t.c, u.f), t.e),
        f: rm_add(rm_lin(t.b, u.e, t.d, u.f), t.f),
    }
}

/// Every intermediate of `am_compose(t, u)` is representable.
pub open spec fn am_compose_fits(t: AffM, u: AffM) -> bool {
    rm_lin_fits(t.a, u.a, t.c, u.b) && rm_lin_fits(t.b, u.a, t.d, u.b) && rm_lin_fits(
        t.a,
        u.c,
        t.c,
        u.d,
    ) && rm_lin_fits(t.b, u.c, t.d, u.d) && rm_lin_fits(t.a, u.e, t.c, u.f) && rm_fits(
        am_compose(t, u).e,
    ) && rm_lin_fits(t.b, u.e, t.d, u.f) && rm_fits(am_compose(t, u).f)
}

/// The image of point `p` under transform `t`.
pub open spec fn am_apply(t: AffM, p: Pt2M) -> Pt2M {
    Pt2M {
        x: rm_add(rm_lin(t.a, p.x, t.c, p.y), t.e),
        y: rm_add(rm_lin(t.b, p.x, t.d, p.y), t.f),
    }
}

/// Every intermediate of `am_apply(t, p)` is representable.
pub open spec fn am_apply_fits(t: AffM, p: Pt2M) -> bool {
    rm_lin_fits(t.a, p.x, t.c, p.y) && rm_fits(am_apply(t, p).x) && rm_lin_fits(
        t.b,
        p.x,
        t.d,
        p.y,
    ) && rm_fits(am_apply(t, p).y)
}

/// The identity transform leaves every point's value unchanged.
pub proof fn lemma_apply_identity(p: Pt2M)
    requires
        pm_wf(p),
    ensures
        pm_eqv(am_apply(am_identity(), p), p),
{
    let mx = rm_mul(rm_one(), p.x);
    let zx = rm_mul(rm_zero(), p.y);
    lemma_ops_wf(rm_one(), p.x);
    lemma_ops_wf(rm_zero(), p.y);
    lemma_mul_one(p.x);
    lemma_add_znum(mx, zx);
    lemma_ops_wf(mx, zx);
    lemma_add_znum(rm_add(mx, zx), rm_zero());
    lemma_ops_wf(rm_add(mx, zx), rm_zero());
    lemma_eqv_trans(rm_add(rm_add(mx, zx), rm_zero()), rm_add(mx, zx), mx);
    lemma_eqv_trans(rm_add(rm_add(mx, zx), rm_zero()), mx, p.x);
    let my = rm_mul(rm_one(), p.y);
    let zy = rm_mul(rm_zero(), p.x);
    lemma_ops_wf(rm_one(), p.y);
    lemma_ops_wf(rm_zero(), p.x);
    lemma_mul_one(p.y);
    lemma_add_znum_left(zy, my);
    lemma_ops_wf(zy, my);
    lemma_add_znum(rm_add(zy, my), rm_zero());
    lemma_ops_wf(rm_add(zy, my), rm_zero());
    lemma_eqv_trans(rm_add(rm_add(zy, my), rm_zero()), rm_add(zy, my), my);
    lemma_eqv_trans(rm_add(rm_add(zy, my), rm_zero()), my, p.y);
}

/// An executable 2D point with exact rational coordinates.
#[derive(Clone, Copy, PartialEq, Eq, Structural, Debug)]
pub struct Pt2 {
    pub x: Rat,
    pub y: Rat,
}

impl View for Pt2 {
    type V = Pt2M;

    open spec fn view(&self) -> Pt2M {
        Pt2M { x: self.x@, y: self.y@ }
    }
}

impl Pt2 {
    pub open spec fn wf(self) -> bool {
        self.x.wf() && self.y.wf()
    }

    pub fn new(x: Rat, y: Rat) -> (p: Pt2)
        requires
            x.wf(),
            y.wf(),
        ensures
            p.wf(),
            p@ == (Pt2M { x: x@, y: y@ }),
    {
        Pt2 { x, y }
    }
}

/// An executable 2D homogeneous affine transform with exact rational entries.
#[derive(Clone, Copy, PartialEq, Eq, Structural, Debug)]
pub struct Affine {
    pub a: Rat,
    pub b: Rat,
    pub c: Rat,
    pub d: Rat,
    pub e: Rat,
    pub f: Rat,
}

impl View for Affine {
    type V = AffM;

    open spec fn view(&self) -> AffM {
        AffM { a: self.a@, b: self.b@, c: self.c@, d: self.d@, e: self.e@, f: self.f@ }
    }
}

/// The linear combination `p*q + r*s`.
fn lin_pair(p: &Rat, q: &Rat, r: &Rat, s: &Rat) -> (out: Rat)
    requires
        p.wf(),
        q.wf(),
        r.wf(),
        s.wf(),
        rm_lin_fits(p@, q@, r@, s@),
    ensures
        out.wf(),
        out@ == rm_lin(p@, q@, r@, s@),
{
    let left: Rat = p.mul(q);
    let right: Rat = r.mul(s);
    left.add(&right)
}

/// The linear combination `p*q + r*s`, guarded at run time: `Some` exactly
/// when every intermediate fits 64 bits.
fn checked_lin_pair(p: &Rat, q: &Rat, r: &Rat, s: &Rat) -> (out: Option<Rat>)
    requires
        p.wf(),
        q.wf(),
        r.wf(),
        s.wf(),
    ensures
        out is Some <==> rm_lin_fits(p@, q@, r@, s@),
        out is Some ==> out->0.wf() && out->0@ == rm_lin(p@, q@, r@, s@),
{
    let left: Rat = match p.checked_mul(q) {
        Some(v) => v,
        None => {
            return None;
        },
    };
    let right: Rat = match r.checked_mul(s) {
        Some(v) => v,
        None => {
            return None;
        },
    };
    left.checked_add(&right)
}

impl Affine {
    pub open spec fn wf(self) -> bool {
        self.a.wf() && self.b.wf() && self.c.wf() && self.d.wf() && self.e.wf() && self.f.wf()
    }

    pub fn new(a: Rat, b: Rat, c: Rat, d: Rat, e: Rat, f: Rat) -> (t: Affine)
        requires
            a.wf(),
            b.wf(),
            c.wf(),
            d.wf(),
            e.wf(),
            f.wf(),
        ensures
            t.wf(),
            t@ == (AffM { a: a@, b: b@, c: c@, d: d@, e: e@, f: f@ }),
    {
        Affine { a, b, c, d, e, f }
    }

    pub fn identity() -> (t: Affine)
        ensures
            t.wf(),
            t@ == am_identity(),
    {
        Affine {
            a: Rat::one(),
            b: Rat::zero(),
            c: Rat::zero(),
            d: Rat::one(),
            e: Rat::zero(),
            f: Rat::zero(),
        }
    }

    /// Matrix product `self · other`: apply `other` first, then `self`.
    pub fn compose(&self, other: &Affine) -> (r: Affine)
        requires
            self.wf(),
            other.wf(),
            am_compose_fits(self@, other@),
        ensures
            r.wf(),
            r@ == am_compose(self@, other@),
    {
        let a: Rat = lin_pair(&self.a, &other.a, &self.c, &other.b);
        let b: Rat = lin_pair(&self.b, &other.a, &self.d, &other.b);
        let c: Rat = lin_pair(&self.a, &other.c, &self.c, &other.d);
        let d: Rat = lin_pair(&self.b, &other.c, &self.d, &other.d);
        let e: Rat = lin_pair(&self.a, &other.e, &self.c, &other.f).add(&self.e);
        let f: Rat = lin_pair(&self.b, &other.e, &self.d, &other.f).add(&self.f);
        Affine { a, b, c, d, e, f }
    }

    /// Composition guarded at run time: `Some` exactly when every
    /// intermediate of `self · other` fits 64 bits.
    pub fn checked_compose(&self, other: &Affine) -> (r: Option<Affine>)
        requires
            self.wf(),
            other.wf(),
        ensures
            r is Some <==> am_compose_fits(self@, other@),
            r is Some ==> r->0.wf() && r->0@ == am_compose(self@, other@),
    {
        let a: Rat = match checked_lin_pair(&self.a, &other.a, &self.c, &other.b) {
            Some(v) => v,
            None => {
                return None;
            },
        };
        let b: Rat = match checked_lin_pair(&self.b, &other.a, &self.d, &other.b) {
            Some(v) => v,
            None => {
                return None;
            },
        };
        let c: Rat = match checked_lin_pair(&self.a, &other.c, &self.c, &other.d) {
            Some(v) => v,
            None => {
                return None;
            },
        };
        let d: Rat = match checked_lin_pair(&self.b, &other.c, &self.d, &other.d) {
            Some(v) => v,
            None => {
                return None;
            },
        };
        let e0: Rat = match checked_lin_pair(&self.a, &other.e, &self.c, &other.f) {
            Some(v) => v,
            None => {
                return None;
            },
        };
        let e: Rat = match e0.checked_add(&self.e) {
            Some(v) => v,
            None => {
                return None;
            },
        };
        let f0: Rat = match checked_lin_pair(&self.b, &other.e, &self.d, &other.f) {
            Some(v) => v,
            None => {
                return None;
            },
        };
        let f: Rat = match f0.checked_add(&self.f) {
            Some(v) => v,
            None => {
                return None;
            },
        };
        Some(Affine { a, b, c, d, e, f })
    }

    /// The image of `p` under this transform.
    pub fn apply(&self, p: &Pt2) -> (r: Pt2)
        requires
            self.wf(),
            p.wf(),
            am_apply_fits(self@, p@),
        ensures
            r.wf(),
            r@ == am_apply(self@, p@),
    {
        let x: Rat = lin_pair(&self.a, &p.x, &self.c, &p.y).add(&self.e);
        let y: Rat = lin_pair(&self.b, &p.x, &self.d, &p.y).add(&self.f);
        Pt2 { x, y }
    }
}

} // verus!

//! The letterbox fit: the transform that maps a source rectangle into the
//! largest centered sub-rectangle of a destination rectangle with the source's
//! aspect ratio, preserving orientation and never flipping axes.
//!
//! The transform scales both axes by the same factor — the smaller of the two
//! width and height ratios — and translates the source center onto the
//! destination center, so the unscaled axis gets equal margins on both sides.

use vstd::prelude::*;

use crate::affine::{am_apply, am_eqv, am_identity, Affine, AffM, Pt2M};
use crate::rational::{
    lemma_add_congr_left, lemma_add_sub_cancel, lemma_add_znum, lemma_add_znum_left,
    lemma_div_pos_wf, lemma_div_self_one, lemma_eqv_trans, lemma_mul_congr_left, lemma_mul_one,
    lemma_ops_wf, lemma_sub_eqv_zero, rat_min, Rat, RatM, rm_add, rm_div_pos, rm_eqv, rm_fits,
    rm_le, rm_min, rm_mul, rm_one, rm_sub, rm_wf, rm_zero,
};
use crate::rect::{rect_wf, Rect, RectM};

verus! {

/// The width of a rectangle.
pub open spec fn rm_width(r: RectM) -> RatM {
    rm_sub(r.max.x, r.min.x)
}

/// The height of a rectangle.
pub open spec fn rm_height(r: RectM) -> RatM {
    rm_sub(r.max.y, r.min.y)
}

/// One half, used to form center coordinates.
pub open spec fn rm_half() -> RatM {
    RatM { n: 1, d: 2 }
}

/// The x coordinate of a rectangle's center.
pub open spec fn rm_center_x(r: RectM) -> RatM {
    rm_mul(rm_add(r.min.x, r.max.x), rm_half())
}

/// The y coordinate of a rectangle's center.
pub open spec fn rm_center_y(r: RectM) -> RatM {
    rm_mul(rm_add(r.min.y, r.max.y), rm_half())
}

/// The rectangle's center as a point.
pub open spec fn rm_center(r: RectM) -> Pt2M {
    Pt2M { x: rm_center_x(r), y: rm_center_y(r) }
}

/// The uniform letterbox scale factor: the smaller of the two axis ratios.
pub open spec fn fit_scale(dst: RectM, src: RectM) -> RatM {
    rm_min(rm_div_pos(rm_width(dst), rm_width(src)), rm_div_pos(rm_height(dst), rm_height(src)))
}

/// The letterbox transform from `src` into `dst`: a uniform scale by
/// `fit_scale` about the origin followed by the translation that carries the
/// source center onto the destination center.  No rotation, no flip.
pub open spec fn rm_fit(dst: RectM, src: RectM) -> AffM {
    AffM {
        a: fit_scale(dst, src),
        b: rm_zero(),
        c: rm_zero(),
        d: fit_scale(dst, src),
        e: rm_sub(rm_center_x(dst), rm_mul(fit_scale(dst, src), rm_center_x(src))),
        f: rm_sub(rm_center_y(dst), rm_mul(fit_scale(dst, src), rm_center_y(src))),
    }
}

/// Every intermediate of the letterbox computation is representable.
pub open spec fn fit_fits(dst: RectM, src: RectM) -> bool {
    rm_fits(rm_width(src)) && rm_fits(rm_height(src)) && rm_fits(rm_width(dst)) && rm_fits(
        rm_height(dst),
    ) && rm_fits(rm_div_pos(rm_width(dst), rm_width(src))) && rm_fits(
        rm_div_pos(rm_height(dst), rm_height(src)),
    ) && rm_fits(rm_add(src.min.x, src.max.x)) && rm_fits(rm_center_x(src)) && rm_fits(
        rm_add(src.min.y, src.max.y),
    ) && rm_fits(rm_center_y(src)) && rm_fits(rm_add(dst.min.x, dst.max.x)) && rm_fits(
        rm_center_x(dst),
    ) && rm_fits(rm_add(dst.min.y, dst.max.y)) && rm_fits(rm_center_y(dst)) && rm_fits(
        rm_mul(fit_scale(dst, src), rm_center_x(src)),
    ) && rm_fits(rm_fit(dst, src).e) && rm_fits(rm_mul(fit_scale(dst, src), rm_center_y(src)))
        && rm_fits(rm_fit(dst, src).f)
}

/// The letterbox transform that fits `src` into `dst`.
pub fn letter_box(dst: &Rect, src: &Rect) -> (t: Affine)
    requires
        dst.wf(),
        src.wf(),
        fit_fits(dst@, src@),
    ensures
        t.wf(),
        t@ == rm_fit(dst@, src@),
{
    let sw: Rat = src.max.x.sub(&src.min.x);
    let sh: Rat = src.max.y.sub(&src.min.y);
    let dw: Rat = dst.max.x.sub(&dst.min.x);
    let dh: Rat = dst.max.y.sub(&dst.min.y);
    let qx: Rat = dw.div_pos(&sw);
    let qy: Rat = dh.div_pos(&sh);
    let scale: Rat = rat_min(&qx, &qy);
    let half: Rat = Rat::new(1, 2);
    let scx: Rat = src.min.x.add(&src.max.x).mul(&half);
    let scy: Rat = src.min.y.add(&src.max.y).mul(&half);
    let dcx: Rat = dst.min.x.add(&dst.max.x).mul(&half);
    let dcy: Rat = dst.min.y.add(&dst.max.y).mul(&half);
    let e: Rat = dcx.sub(&scale.mul(&scx));
    let f: Rat = dcy.sub(&scale.mul(&scy));
    Affine { a: scale, b: Rat::zero(), c: Rat::zero(), d: scale, e, f }
}

/// The letterbox transform never stretches anisotropically: both axes are
/// scaled by the same factor, and there is no rotation or shear.
pub proof fn lemma_fit_uniform(dst: RectM, src: RectM)
    ensures
        rm_fit(dst, src).a == rm_fit(dst, src).d,
        rm_fit(dst, src).b == rm_zero(),
        rm_fit(dst, src).c == rm_zero(),
{
}

/// The fit scale is the smaller of the two axis ratios: it never exceeds
/// either ratio and equals one of them, so the scaled source is the largest
/// aspect-preserving image that still fits the destination.
pub proof fn lemma_fit_scale_min(dst: RectM, src: RectM)
    ensures
        rm_le(fit_scale(dst, src), rm_div_pos(rm_width(dst), rm_width(src))),
        rm_le(fit_scale(dst, src), rm_div_pos(rm_height(dst), rm_height(src))),
        fit_scale(dst, src) == rm_div_pos(rm_width(dst), rm_width(src)) || fit_scale(dst, src)
            == rm_div_pos(rm_height(dst), rm_height(src)),
{
}

/// The scale factor of a fit between well-formed rectangles is a positive
/// well-formed rational.
pub proof fn lemma_fit_scale_wf(dst: RectM, src: RectM)
    requires
        rect_wf(dst),
        rect_wf(src),
    ensures
        rm_wf(fit_scale(dst, src)),
        fit_scale(dst, src).n > 0,
{
    lemma_ops_wf(src.max.x, src.min.x);
    lemma_ops_wf(src.max.y, src.min.y);
    lemma_ops_wf(dst.max.x, dst.min.x);
    lemma_ops_wf(dst.max.y, dst.min.y);
    lemma_div_pos_wf(rm_width(dst), rm_width(src));
    lemma_div_pos_wf(rm_height(dst), rm_height(src));
    lemma_ratio_pos(rm_width(dst), rm_width(src));
    lemma_ratio_pos(rm_height(dst), rm_height(src));
}

/// The ratio of two positive rationals is positive.
proof fn lemma_ratio_pos(a: RatM, b: RatM)
    requires
        rm_wf(a),
        rm_wf(b),
        a.n > 0,
        b.n > 0,
    ensures
        rm_div_pos(a, b).n > 0,
        rm_div_pos(a, b).d > 0,
{
    assert(a.n * b.d > 0 && a.d * b.n > 0) by (nonlinear_arith)
        requires
            a.n > 0,
            b.d > 0,
            a.d > 0,
            b.n > 0,
    ;
}

/// The centers of a well-formed rectangle are well-formed rationals.
proof fn lemma_center_wf(r: RectM)
    requires
        rect_wf(r),
    ensures
        rm_wf(rm_center_x(r)),
        rm_wf(rm_center_y(r)),
{
    lemma_ops_wf(r.min.x, r.max.x);
    lemma_ops_wf(r.min.y, r.max.y);
    lemma_ops_wf(rm_add(r.min.x, r.max.x), rm_half());
    lemma_ops_wf(rm_add(r.min.y, r.max.y), rm_half());
}

/// Fitting a rectangle into itself yields the identity transform: the scale
/// has value one and the translation has value zero.
pub proof fn lemma_fit_same_rect(r: RectM)
    requires
        rect_wf(r),
    ensures
        am_eqv(rm_fit(r, r), am_identity()),
{
    let s = fit_scale(r, r);
    lemma_ops_wf(r.max.x, r.min.x);
    lemma_ops_wf(r.max.y, r.min.y);
    lemma_div_self_one(rm_width(r));
    lemma_div_self_one(rm_height(r));
    assert(rm_eqv(s, rm_one()));
    lemma_fit_scale_wf(r, r);
    lemma_center_wf(r);
    lemma_translation_zero(s, rm_center_x(r));
    lemma_translation_zero(s, rm_center_y(r));
}

/// If the scale has value one, the translation entry `c - scale * c` has
/// value zero.
proof fn lemma_translation_zero(s: RatM, c: RatM)
    requires
        rm_wf(s),
        rm_wf(c),
        rm_eqv(s, rm_one()),
    ensures
        rm_eqv(rm_sub(c, rm_mul(s, c)), rm_zero()),
{
    lemma_mul_congr_left(s, rm_one(), c);
    lemma_mul_one(c);
    lemma_ops_wf(s, c);
    lemma_ops_wf(rm_one(), c);
    lemma_eqv_trans(rm_mul(s, c), rm_mul(rm_one(), c), c);
    lemma_sub_eqv_zero(c, rm_mul(s, c));
}

/// The letterbox transform carries the source center onto the destination
/// center; together with the uniform scale this puts equal margins on both
/// sides of the unscaled axis.
pub proof fn lemma_fit_centers(dst: RectM, src: RectM)
    requires
        rect_wf(dst),
        rect_wf(src),
    ensures
        rm_eqv(am_apply(rm_fit(dst, src), rm_center(src)).x, rm_center_x(dst)),
        rm_eqv(am_apply(rm_fit(dst, src), rm_center(src)).y, rm_center_y(dst)),
{
    let s = fit_scale(dst, src);
    lemma_fit_scale_wf(dst, src);
    lemma_center_wf(src);
    lemma_center_wf(dst);
    lemma_center_component_x(s, rm_center_x(src), rm_center_y(src), rm_center_x(dst));
    lemma_center_component_y(s, rm_center_x(src), rm_center_y(src), rm_center_y(dst));
}

/// The x row of the center-to-center property: applying the row
/// `(s, 0, d_c - s*s_cx)` to `(s_cx, s_cy)` yields `d_c` in value.
proof fn lemma_center_component_x(s: RatM, scx: RatM, scy: RatM, dc: RatM)
    requires
        rm_wf(s),
        rm_wf(scx),
        rm_wf(scy),
        rm_wf(dc),
    ensures
        rm_eqv(
            rm_add(rm_add(rm_mul(s, scx), rm_mul(rm_zero(), scy)), rm_sub(dc, rm_mul(s, scx))),
            dc,
        ),
{
    let m = rm_mul(s, scx);
    let z = rm_mul(rm_zero(), scy);
    let e = rm_sub(dc, m);
    lemma_ops_wf(s, scx);
    lemma_ops_wf(rm_zero(), scy);
    lemma_ops_wf(dc, m);
    lemma_add_znum(m, z);
    lemma_ops_wf(m, z);
    lemma_ops_wf(rm_add(m, z), e);
    lemma_ops_wf(m, e);
    lemma_add_congr_left(rm_add(m, z), m, e);
    lemma_add_sub_cancel(m, dc);
    lemma_eqv_trans(rm_add(rm_add(m, z), e), rm_add(m, e), dc);
}

/// The y row of the center-to-center property: applying the row
/// `(0, s, d_c - s*s_cy)` to `(s_cx, s_cy)` yields `d_c` in value.
proof fn lemma_center_component_y(s: RatM, scx: RatM, scy: RatM, dc: RatM)
    requires
        rm_wf(s),
        rm_wf(scx),
        rm_wf(scy),
        rm_wf(dc),
    ensures
        rm_eqv(
            rm_add(rm_add(rm_mul(rm_zero(), scx), rm_mul(s, scy)), rm_sub(dc, rm_mul(s, scy))),
            dc,
        ),
{
    let m = rm_mul(s, scy);
    let z = rm_mul(rm_zero(), scx);
    let e = rm_sub(dc, m);
    lemma_ops_wf(s, scy);
    lemma_ops_wf(rm_zero(), scx);
    lemma_ops_wf(dc, m);
    lemma_add_znum_left(z, m);
    lemma_ops_wf(z, m);
    lemma_ops_wf(rm_add(z, m), e);
    lemma_ops_wf(m, e);
    lemma_add_congr_left(rm_add(z, m), m, e);
    lemma_add_sub_cancel(m, dc);
    lemma_eqv_trans(rm_add(rm_add(z, m), e), rm_add(m, e), dc);
}

} // verus!

use flame_mesh::affine::{Affine, Pt2};
use flame_mesh::fitting::letter_box;
use flame_mesh::rational::Rat;
use flame_mesh::rect::Rect;

fn r(num: i64, den: i64) -> Rat {
    Rat::new(num, den)
}

fn rect(x0: i64, y0: i64, x1: i64, y1: i64) -> Rect {
    Rect::new(
        Pt2::new(Rat::from_int(x0), Rat::from_int(y0)),
        Pt2::new(Rat::from_int(x1), Rat::from_int(y1)),
    )
}

fn apply(t: &Affine, x: Rat, y: Rat) -> (Rat, Rat) {
    let p = t.apply(&Pt2::new(x, y));
    (p.x, p.y)
}

#[test]
fn same_rect_gives_identity() {
    // Fitting a rectangle into itself: scale one, translation zero.
    let d = rect(-1, -1, 1, 1);
    let t = letter_box(&d, &d);
    assert!(t.a.eq_val(&Rat::one()));
    assert!(t.d.eq_val(&Rat::one()));
    assert_eq!(t.b.num, 0);
    assert_eq!(t.c.num, 0);
    assert!(t.e.eq_val(&Rat::zero()));
    assert!(t.f.eq_val(&Rat::zero()));
}

#[test]
fn square_into_square_scales_uniformly() {
    // [0,1]² into [-1,1]²: scale two, centered.
    let t = letter_box(&rect(-1, -1, 1, 1), &rect(0, 0, 1, 1));
    assert!(t.a.eq_val(&r(2, 1)));
    assert!(t.d.eq_val(&r(2, 1)));
    // The source center (1/2, 1/2) lands on the destination center (0, 0).
    let (cx, cy) = apply(&t, r(1, 2), r(1, 2));
    assert!(cx.eq_val(&Rat::zero()));
    assert!(cy.eq_val(&Rat::zero()));
}

#[test]
fn wide_destination_letterboxes_with_equal_margins() {
    // Unit square into [0,4]×[0,2]: the height ratio 2 is the smaller one,
    // so both axes scale by 2 and the x axis is centered with margins of 1.
    let t = letter_box(&rect(0, 0, 4, 2), &rect(0, 0, 1, 1));
    assert!(t.a.eq_val(&r(2, 1)));
    assert!(t.d.eq_val(&r(2, 1)));
    let (x0, y0) = apply(&t, r(0, 1), r(0, 1));
    let (x1, y1) = apply(&t, r(1, 1), r(1, 1));
    // Image of the source is [1,3]×[0,2]: flush on y, margin 1 on each x side.
    assert!(x0.eq_val(&r(1, 1)));
    assert!(y0.eq_val(&r(0, 1)));
    assert!(x1.eq_val(&r(3, 1)));
    assert!(y1.eq_val(&r(2, 1)));
}

#[test]
fn tall_destination_letterboxes_on_y() {
    // Unit square into [0,2]×[0,6]: width ratio 2 wins; image is [0,2]×[2,4].
    let t = letter_box(&rect(0, 0, 2, 6), &rect(0, 0, 1, 1));
    assert!(t.a.eq_val(&r(2, 1)));
    assert!(t.d.eq_val(&r(2, 1)));
    let (x0, y0) = apply(&t, r(0, 1), r(0, 1));
    let (x1, y1) = apply(&t, r(1, 1), r(1, 1));
    assert!(x0.eq_val(&r(0, 1)));
    assert!(y0.eq_val(&r(2, 1)));
    assert!(x1.eq_val(&r(2, 1)));
    assert!(y1.eq_val(&r(4, 1)));
}

#[test]
fn never_flips_axes() {
    let t = letter_box(&rect(-3, -5, 7, 11), &rect(-2, -2, 2, 2));
    // Positive uniform scale, no rotation entries.
    assert!(t.a.num > 0 && t.a.den > 0);
    assert!(t.a.eq_val(&t.d));
    assert_eq!(t.b.num, 0);
    assert_eq!(t.c.num, 0);
}

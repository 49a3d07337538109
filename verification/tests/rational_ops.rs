use flame_mesh::rational::{rat_min, Rat};

fn r(num: i64, den: i64) -> Rat {
    Rat::new(num, den)
}

#[test]
fn add_is_exact() {
    let s = r(1, 2).add(&r(1, 3));
    // Unreduced cross-multiplication: 1/2 + 1/3 = (1*3 + 1*2) / (2*3).
    assert_eq!(s.num, 5);
    assert_eq!(s.den, 6);
}

#[test]
fn sub_is_exact() {
    let d = r(1, 2).sub(&r(1, 3));
    assert_eq!(d.num, 1);
    assert_eq!(d.den, 6);
}

#[test]
fn mul_is_exact() {
    let p = r(3, 4).mul(&r(-2, 5));
    assert_eq!(p.num, -6);
    assert_eq!(p.den, 20);
}

#[test]
fn div_is_exact() {
    let q = r(3, 4).div_pos(&r(2, 5));
    // (3*5) / (4*2)
    assert_eq!(q.num, 15);
    assert_eq!(q.den, 8);
}

#[test]
fn neg_flips_sign() {
    let n = r(7, 3).neg();
    assert_eq!(n.num, -7);
    assert_eq!(n.den, 3);
}

#[test]
fn value_equality_ignores_representation() {
    assert!(r(1, 2).eq_val(&r(2, 4)));
    assert!(r(-3, 6).eq_val(&r(-1, 2)));
    assert!(!r(1, 2).eq_val(&r(1, 3)));
}

#[test]
fn le_compares_values() {
    assert!(r(1, 3).le(&r(1, 2)));
    assert!(!r(1, 2).le(&r(1, 3)));
    assert!(r(-1, 2).le(&r(1, 1000)));
    assert!(r(2, 4).le(&r(1, 2)));
}

#[test]
fn min_picks_smaller_value() {
    let m = rat_min(&r(3, 2), &r(4, 3));
    assert!(m.eq_val(&r(4, 3)));
    let m2 = rat_min(&r(-1, 2), &r(1, 2));
    assert!(m2.eq_val(&r(-1, 2)));
}

#[test]
fn constants() {
    assert_eq!(Rat::zero().num, 0);
    assert_eq!(Rat::zero().den, 1);
    assert_eq!(Rat::one().num, 1);
    assert_eq!(Rat::one().den, 1);
    assert_eq!(Rat::from_int(-5).num, -5);
    assert_eq!(Rat::from_int(-5).den, 1);
}

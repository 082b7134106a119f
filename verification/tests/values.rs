use magfield::fixed::{Fixed, ONE_RAW, RAW_LIMIT};
use magfield::magnets::magnet2d::{FieldError, Rectangle, REMANENCE_LIMIT};
use magfield::utils::comparison::nearly_equal;
use magfield::utils::points2::Point2;
use magfield::{ERR_CUTOFF, FP_CUTOFF};

/// The number nearest to `v`.
fn fx(v: f64) -> Fixed {
    Fixed::from_raw((v * 281474976710656.0).round() as i64).unwrap()
}

/// The value of `v` as a float.
fn float(v: Fixed) -> f64 {
    v.raw() as f64 / 281474976710656.0
}

fn raw(v: i64) -> Fixed {
    Fixed::from_raw(v).unwrap()
}

#[test]
fn cutoffs_are_the_nearest_units() {
    assert_eq!(FP_CUTOFF, (1e-6_f64 * ONE_RAW as f64).round() as i64);
    assert_eq!(ERR_CUTOFF, (1e-12_f64 * ONE_RAW as f64).round() as i64);
}

#[test]
fn fixed_holds_what_is_within_range() {
    assert_eq!(ONE_RAW, 1 << 48);
    assert_eq!(RAW_LIMIT, 1 << 61);
    assert_eq!(Fixed::from_raw(RAW_LIMIT).unwrap().raw(), RAW_LIMIT);
    assert_eq!(Fixed::from_raw(-RAW_LIMIT).unwrap().raw(), -RAW_LIMIT);
    assert_eq!(Fixed::from_raw(RAW_LIMIT + 1), None);
    assert_eq!(Fixed::from_raw(-RAW_LIMIT - 1), None);
    assert_eq!(Fixed::from_raw(i64::MIN), None);
    assert_eq!(Fixed::from_wide(12345).unwrap().raw(), 12345);
    assert_eq!(Fixed::from_wide(-(1 << 61)).unwrap().wide(), -(1 << 61));
    assert_eq!(Fixed::from_wide((1 << 61) + 1), None);
    assert_eq!(Fixed::from_wide(1 << 100), None);
    assert_eq!(Fixed::from_wide(i128::MIN), None);
    assert_eq!(Fixed::zero().raw(), 0);
    assert_eq!(Fixed::one().raw(), ONE_RAW);
    assert_eq!(float(Fixed::one()), 1.0);
}

#[test]
fn fixed_adds_and_subtracts_within_range() {
    assert_eq!(raw(5).checked_add(raw(-7)), Some(raw(-2)));
    assert_eq!(raw(5).checked_sub(raw(-7)), Some(raw(12)));
    assert_eq!(raw(RAW_LIMIT).checked_add(raw(1)), None);
    assert_eq!(raw(RAW_LIMIT).checked_add(raw(0)), Some(raw(RAW_LIMIT)));
    assert_eq!(raw(-RAW_LIMIT).checked_sub(raw(1)), None);
    assert_eq!(raw(RAW_LIMIT).checked_sub(raw(RAW_LIMIT)), Some(raw(0)));
    assert_eq!(raw(RAW_LIMIT).neg(), raw(-RAW_LIMIT));
    assert_eq!(raw(-3).neg().raw(), 3);
    assert_eq!(fx(1.5).checked_add(fx(2.25)), Some(fx(3.75)));
}

#[test]
fn points_add_componentwise() {
    let p = Point2::new(raw(1), raw(2));
    let q = Point2::new(raw(10), raw(-20));
    let r = Point2::new(raw(100), raw(200));
    assert_eq!(p.checked_add(q), Some(Point2::new(raw(11), raw(-18))));
    assert_eq!(p.checked_sub(q), Some(Point2::new(raw(-9), raw(22))));
    assert_eq!(p.checked_add(Point2::zero()), Some(p));
    assert_eq!(p.checked_add(q), q.checked_add(p));
    assert_eq!(
        p.checked_add(q).unwrap().checked_add(r),
        p.checked_add(q.checked_add(r).unwrap())
    );
    let edge = Point2::new(raw(RAW_LIMIT), raw(0));
    assert_eq!(edge.checked_add(p), None);
    assert_eq!(Point2::new(raw(0), raw(-RAW_LIMIT)).checked_sub(p), None);
}

#[test]
fn points_accumulate_in_place() {
    let mut sum = Point2::zero();
    assert!(sum.accumulate(Point2::new(raw(1), raw(2))));
    assert!(sum.accumulate(Point2::new(raw(10), raw(-20))));
    assert_eq!(sum, Point2::new(raw(11), raw(-18)));
    assert!(!sum.accumulate(Point2::new(raw(RAW_LIMIT), raw(0))));
    assert_eq!(sum, Point2::new(raw(11), raw(-18)));
}

#[test]
fn numbers_within_the_tolerance_are_nearly_equal() {
    assert!(nearly_equal(raw(1000), raw(1000)));
    assert!(nearly_equal(raw(1000), raw(1000 + ERR_CUTOFF)));
    assert!(nearly_equal(raw(1000 + ERR_CUTOFF), raw(1000)));
    assert!(!nearly_equal(raw(1000), raw(1001 + ERR_CUTOFF)));
    assert!(!nearly_equal(raw(1001 + ERR_CUTOFF), raw(1000)));
    assert!(!nearly_equal(raw(RAW_LIMIT), raw(-RAW_LIMIT)));
    assert!(nearly_equal(fx(0.5), fx(0.5 + 9e-13)));
    assert!(!nearly_equal(fx(0.5), fx(0.5 + 2e-12)));
}

#[test]
fn magnet_holds_what_it_was_described_with() {
    let center = Point2::new(fx(0.25), fx(-0.5));
    let m = Rectangle::new(fx(3.0), fx(1.0), center, 0, fx(1.2), fx(30.0)).unwrap();
    assert_eq!(m.a(), fx(1.5));
    assert_eq!(m.b(), fx(0.5));
    assert_eq!(m.center(), center);
    assert_eq!(m.alpha(), 0);
    assert_eq!(m.jr(), fx(1.2));
    assert_eq!(m.phi(), fx(30.0));
    assert_eq!(m.jx().raw(), 292517376433273);
    assert_eq!(m.jy().raw(), 168884986026393);
    assert!((float(m.jx()) - 1.2 * 30.0_f64.to_radians().cos()).abs() < 1e-14);
    assert!((float(m.jy()) - 1.2 * 30.0_f64.to_radians().sin()).abs() < 1e-14);
}

#[test]
fn magnetisation_components_keep_the_remanence() {
    for degrees in [0.0, 12.5, 45.0, 77.0, 90.0, 135.0, 200.0, 359.5, -30.0, 725.0] {
        let m = Rectangle::new(fx(1.0), fx(1.0), Point2::zero(), 0, fx(1.4), fx(degrees)).unwrap();
        let (jx, jy, jr) = (float(m.jx()), float(m.jy()), float(m.jr()));
        assert!((jx * jx + jy * jy - jr * jr).abs() < 1e-13, "at {degrees} degrees");
        assert!(m.jx().raw().abs() <= m.jr().raw() && m.jy().raw().abs() <= m.jr().raw());
        // In squares of units the components fall short of the remanence
        // by no more than five times the remanence and two.
        let (x, y, r) = (m.jx().wide(), m.jy().wide(), m.jr().wide());
        assert!(r * r - 5 * r - 2 <= x * x + y * y && x * x + y * y <= r * r);
    }
}

#[test]
fn magnetisation_angle_counts_modulo_a_full_turn() {
    let make = |degrees: f64| {
        Rectangle::new(fx(1.0), fx(1.0), Point2::zero(), 0, fx(1.0), fx(degrees)).unwrap()
    };
    assert_eq!((make(390.0).jx(), make(390.0).jy()), (make(30.0).jx(), make(30.0).jy()));
    assert_eq!((make(-330.0).jx(), make(-330.0).jy()), (make(30.0).jx(), make(30.0).jy()));
    assert_eq!((make(90.0).jx().raw(), make(90.0).jy().raw()), (0, ONE_RAW));
    assert_eq!((make(180.0).jx().raw(), make(180.0).jy().raw()), (-ONE_RAW, 0));
}

#[test]
fn half_extents_are_rounded_up() {
    let m = Rectangle::new(raw(1), raw(3), Point2::zero(), 0, fx(1.0), fx(0.0)).unwrap();
    assert_eq!((m.a().raw(), m.b().raw()), (1, 2));
    let even = Rectangle::new(raw(2), raw(RAW_LIMIT), Point2::zero(), 0, fx(1.0), fx(0.0)).unwrap();
    assert_eq!((even.a().raw(), even.b().raw()), (1, RAW_LIMIT / 2));
}

#[test]
fn magnet_without_extent_is_refused() {
    let make = |w: f64, h: f64| Rectangle::new(fx(w), fx(h), Point2::zero(), 0, fx(1.0), fx(0.0));
    assert_eq!(make(0.0, 1.0), Err(FieldError::InvalidGeometry));
    assert_eq!(make(1.0, 0.0), Err(FieldError::InvalidGeometry));
    assert_eq!(make(-1.0, 1.0), Err(FieldError::InvalidGeometry));
    assert_eq!(make(1.0, -2.5), Err(FieldError::InvalidGeometry));
    assert_eq!(make(0.0, 0.0), Err(FieldError::InvalidGeometry));
    assert!(make(1.0, 1.0).is_ok());
}

#[test]
fn remanence_beyond_the_limit_is_refused() {
    let make = |w: f64, jr: i64| Rectangle::new(fx(w), fx(1.0), Point2::zero(), 0, raw(jr), fx(0.0));
    assert_eq!(REMANENCE_LIMIT, 1 << 57);
    assert!(make(1.0, REMANENCE_LIMIT).is_ok());
    assert!(make(1.0, -REMANENCE_LIMIT).is_ok());
    assert_eq!(make(1.0, REMANENCE_LIMIT + 1), Err(FieldError::Domain));
    assert_eq!(make(1.0, -REMANENCE_LIMIT - 1), Err(FieldError::Domain));
    // A missing extent is reported first.
    assert_eq!(make(0.0, REMANENCE_LIMIT + 1), Err(FieldError::InvalidGeometry));
}

#[test]
fn fixed_multiplies_and_rounds_toward_zero() {
    assert_eq!(fx(1.5).checked_mul(fx(2.5)), Some(fx(3.75)));
    assert_eq!(fx(-1.5).checked_mul(fx(2.5)), Some(fx(-3.75)));
    assert_eq!(raw(1).checked_mul(raw(1)), Some(raw(0)));
    assert_eq!(raw(-1).checked_mul(raw(ONE_RAW - 1)), Some(raw(0)));
    assert_eq!(raw(3).checked_mul(fx(0.5)), Some(raw(1)));
    assert_eq!(raw(-3).checked_mul(fx(0.5)), Some(raw(-1)));
    assert_eq!(fx(8192.0).checked_mul(Fixed::one()), Some(fx(8192.0)));
    assert_eq!(fx(8192.0).checked_mul(fx(1.5)), None);
    assert_eq!(fx(100.0).checked_mul(fx(-100.0)), None);
    assert_eq!(fx(64.0).checked_mul(fx(128.0)), Some(fx(8192.0)));
}

#[test]
fn points_scale_componentwise() {
    let p = Point2::new(fx(1.5), fx(-0.25));
    assert_eq!(p.checked_scale(fx(2.0)), Some(Point2::new(fx(3.0), fx(-0.5))));
    assert_eq!(p.checked_scale(fx(-3.0)), Some(Point2::new(fx(-4.5), fx(0.75))));
    assert_eq!(p.checked_scale(Fixed::zero()), Some(Point2::zero()));
    assert_eq!(p.checked_scale(Fixed::one()), Some(p));
    assert_eq!(p.checked_scale(fx(8000.0)), None);
    // Scaling is linear for whole factors.
    let q = Point2::new(fx(0.7), fx(2.9));
    let sum = p.checked_add(q).unwrap();
    assert_eq!(
        sum.checked_scale(fx(5.0)),
        p.checked_scale(fx(5.0)).unwrap().checked_add(q.checked_scale(fx(5.0)).unwrap())
    );
}

#[test]
fn points_within_the_tolerance_are_nearly_equal() {
    let p = Point2::new(raw(1000), raw(-1000));
    assert!(p.nearly_equal(p));
    assert!(p.nearly_equal(Point2::new(raw(1000 + ERR_CUTOFF), raw(-1000 - ERR_CUTOFF))));
    assert!(!p.nearly_equal(Point2::new(raw(1001 + ERR_CUTOFF), raw(-1000))));
    assert!(!p.nearly_equal(Point2::new(raw(1000), raw(-1001 - ERR_CUTOFF))));
}

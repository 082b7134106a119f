use magfield::fixed::Fixed;
use magfield::magnets::magnet2d::rectangle_field::{
    field_in_x_for_x_mag, field_in_x_for_y_mag, field_in_y_for_x_mag, field_in_y_for_y_mag,
};
use magfield::magnets::magnet2d::FieldError;

const ONE: i64 = 1 << 48;

/// The number nearest to `v`.
fn fx(v: f64) -> Fixed {
    Fixed::from_raw((v * 281474976710656.0).round() as i64).unwrap()
}

/// The value of `v` as a float.
fn float(v: Fixed) -> f64 {
    v.raw() as f64 / 281474976710656.0
}

fn raw(v: i64) -> Fixed {
    Fixed::from_raw(v).unwrap()
}

#[test]
fn field_in_x_for_x_mag_has_expected_value() {
    let value = field_in_x_for_x_mag(fx(0.3), fx(0.7), fx(1.0), fx(0.5), fx(1.0)).unwrap();
    assert_eq!(value.raw(), -60799685396019);
    let expected = (1.0 / (2.0 * std::f64::consts::PI))
        * ((2.0_f64 * 1.2).atan2(0.09 - 1.0 + 1.44) + (2.0_f64 * -0.2).atan2(0.09 - 1.0 + 0.04));
    assert!((float(value) - expected).abs() < 1e-14);
}

#[test]
fn field_in_y_for_x_mag_has_expected_value() {
    let value = field_in_y_for_x_mag(fx(0.3), fx(0.7), fx(1.0), fx(0.5), fx(1.0)).unwrap();
    assert_eq!(value.raw(), 15667848960568);
    let expected = -(1.0 / (4.0 * std::f64::consts::PI))
        * (((0.49_f64 + 0.04) / (1.69 + 0.04)).ln() - ((0.49_f64 + 1.44) / (1.69 + 1.44)).ln());
    assert!((float(value) - expected).abs() < 1e-14);
}

#[test]
fn field_in_x_for_y_mag_has_expected_value() {
    let value = field_in_x_for_y_mag(fx(0.3), fx(0.7), fx(1.0), fx(0.5), fx(1.0)).unwrap();
    assert_eq!(value.raw(), 15667848960568);
    let expected = (1.0 / (4.0 * std::f64::consts::PI))
        * (((1.69_f64 + 0.04) / (1.69 + 1.44)).ln() - ((0.49_f64 + 0.04) / (0.49 + 1.44)).ln());
    assert!((float(value) - expected).abs() < 1e-14);
}

#[test]
fn field_in_y_for_y_mag_has_expected_value() {
    let value = field_in_y_for_y_mag(fx(0.3), fx(0.7), fx(1.0), fx(0.5), fx(1.0)).unwrap();
    assert_eq!(value.raw(), 60799685396019);
    let expected = (1.0 / (2.0 * std::f64::consts::PI))
        * ((1.0_f64 * 1.3).atan2(1.69 + 0.49 - 0.25) - (1.0_f64 * -0.7).atan2(0.49 + 0.49 - 0.25));
    assert!((float(value) - expected).abs() < 1e-14);
}

#[test]
fn kernels_are_indeterminate_at_the_corners() {
    for (x, y) in [(1.0, 0.5), (-1.0, 0.5), (1.0, -0.5), (-1.0, -0.5)] {
        let (x, y, a, b, j) = (fx(x), fx(y), fx(1.0), fx(0.5), fx(1.0));
        assert_eq!(field_in_x_for_x_mag(x, y, a, b, j), Err(FieldError::Singularity));
        assert_eq!(field_in_y_for_x_mag(x, y, a, b, j), Err(FieldError::Singularity));
        assert_eq!(field_in_x_for_y_mag(x, y, a, b, j), Err(FieldError::Singularity));
        assert_eq!(field_in_y_for_y_mag(x, y, a, b, j), Err(FieldError::Singularity));
    }
}

#[test]
fn kernels_are_determinate_next_to_a_corner() {
    let (a, b, j) = (fx(1.0), fx(0.5), fx(1.0));
    let x = raw(a.raw() + 1);
    assert!(field_in_x_for_x_mag(x, b, a, b, j).is_ok());
    assert!(field_in_y_for_y_mag(x, b, a, b, j).is_ok());
    let across = field_in_y_for_x_mag(x, b, a, b, j).unwrap();
    assert_eq!(across.raw(), 1485483402602853);
    assert!((float(across) - 5.2774972040582675).abs() < 1e-12);
}

#[test]
fn logarithmic_kernels_refuse_a_value_too_large_to_hold() {
    let (a, b) = (fx(1.0), fx(0.5));
    let x = raw(a.raw() + 1);
    let largest = raw(1 << 61);
    assert_eq!(field_in_y_for_x_mag(x, b, a, b, largest), Err(FieldError::Domain));
    assert_eq!(field_in_x_for_y_mag(x, b, a, b, largest), Err(FieldError::Domain));
    // At the corner itself the indeterminate form is reported first.
    assert_eq!(field_in_y_for_x_mag(a, b, a, b, largest), Err(FieldError::Singularity));
    // The arctangent kernels never exceed the magnetisation.
    let along = field_in_x_for_x_mag(x, b, a, b, largest).unwrap();
    assert!(along.raw().abs() <= 1 << 61);
    // With the largest remanence of a magnet the value can be held.
    let limit = raw(1 << 57);
    let across = field_in_y_for_x_mag(x, b, a, b, limit).unwrap();
    assert_eq!(across.raw(), 760567502132661105);
}

#[test]
fn cross_kernels_vanish_on_the_axes() {
    let (a, b, j) = (fx(1.0), fx(0.5), fx(1.3));
    for t in [-3.0, -0.5, 0.0, 0.25, 0.5, 1.0, 7.0] {
        assert_eq!(field_in_y_for_x_mag(fx(0.0), fx(t), a, b, j).unwrap().raw(), 0);
        assert_eq!(field_in_x_for_y_mag(fx(0.0), fx(t), a, b, j).unwrap().raw(), 0);
        assert_eq!(field_in_y_for_x_mag(fx(t), fx(0.0), a, b, j).unwrap().raw(), 0);
        assert_eq!(field_in_x_for_y_mag(fx(t), fx(0.0), a, b, j).unwrap().raw(), 0);
    }
}

#[test]
fn kernels_are_mirrored_exactly() {
    let (a, b, j) = (fx(1.0), fx(0.5), fx(1.3));
    for (x, y) in [(0.3, 0.7), (1.0, 0.2), (2.5, -1.75), (0.125, 0.5)] {
        let (px, py, nx, ny) = (fx(x), fx(y), fx(-x), fx(-y));
        let bxx = field_in_x_for_x_mag(px, py, a, b, j).unwrap().raw();
        let byx = field_in_y_for_x_mag(px, py, a, b, j).unwrap().raw();
        let bxy = field_in_x_for_y_mag(px, py, a, b, j).unwrap().raw();
        let byy = field_in_y_for_y_mag(px, py, a, b, j).unwrap().raw();
        assert_eq!(field_in_x_for_x_mag(nx, py, a, b, j).unwrap().raw(), bxx);
        assert_eq!(field_in_x_for_x_mag(px, ny, a, b, j).unwrap().raw(), bxx);
        assert_eq!(field_in_y_for_y_mag(px, ny, a, b, j).unwrap().raw(), byy);
        assert_eq!(field_in_y_for_x_mag(nx, py, a, b, j).unwrap().raw(), -byx);
        assert_eq!(field_in_y_for_x_mag(px, ny, a, b, j).unwrap().raw(), -byx);
        assert_eq!(field_in_x_for_y_mag(nx, py, a, b, j).unwrap().raw(), -bxy);
        assert_eq!(field_in_x_for_y_mag(px, ny, a, b, j).unwrap().raw(), -bxy);
    }
}

#[test]
fn zero_numerator_tells_inside_from_outside() {
    // On the line of the upper face the second arctangent term has a zero
    // numerator: its angle is pi between the corners and 0 beyond them.
    let (a, b, j) = (fx(1.0), fx(0.5), fx(1.0));
    let inside = field_in_x_for_x_mag(fx(0.0), b, a, b, j).unwrap();
    let expected_inside = ((2.0_f64).atan2(0.0) + std::f64::consts::PI) / (2.0 * std::f64::consts::PI);
    assert!((float(inside) - expected_inside).abs() < 1e-14);
    assert_eq!(inside.raw(), 3 * ONE / 4);
    let outside = field_in_x_for_x_mag(fx(2.0), b, a, b, j).unwrap();
    let expected_outside = (2.0_f64).atan2(4.0) / (2.0 * std::f64::consts::PI);
    assert!((float(outside) - expected_outside).abs() < 1e-14);
}

#[test]
fn kernels_of_a_magnet_without_width_vanish() {
    let (a, b, j) = (fx(0.0), fx(0.5), fx(1.0));
    assert_eq!(field_in_x_for_x_mag(fx(0.3), fx(0.7), a, b, j).unwrap().raw(), 0);
    assert_eq!(field_in_y_for_x_mag(fx(0.3), fx(0.7), a, b, j).unwrap().raw(), 0);
}

use magfield::fixed::Fixed;
use magfield::magnets::magnet2d::rectangle_field::{
    get_field_rectangle, get_field_rectangle_global, get_field_rectangle_over,
    get_field_rectangle_with_cutoff, magnetic_field_x, magnetic_field_y, to_local_frame,
};
use magfield::magnets::magnet2d::{FieldError, Rectangle};
use magfield::utils::comparison::nearly_equal;
use magfield::utils::points2::Point2;

const ONE: i64 = 1 << 48;

/// The number nearest to `v`.
fn fx(v: f64) -> Fixed {
    Fixed::from_raw((v * 281474976710656.0).round() as i64).unwrap()
}

/// The value of `v` as a float.
fn float(v: Fixed) -> f64 {
    v.raw() as f64 / 281474976710656.0
}

/// A magnet of the given width and height at the origin.
fn magnet(width: f64, height: f64, jr: f64, phi: f64) -> Rectangle {
    Rectangle::new(fx(width), fx(height), Point2::new(fx(0.0), fx(0.0)), 0, fx(jr), fx(phi)).unwrap()
}

/// The closed forms in floating point: the field of the magnetisation
/// `(jx, jy)` at `(x, y)`.
fn float_field(x: f64, y: f64, a: f64, b: f64, jx: f64, jy: f64) -> (f64, f64) {
    let i_2pi = 1.0 / (2.0 * std::f64::consts::PI);
    let i_4pi = 1.0 / (4.0 * std::f64::consts::PI);
    let bxx = jx
        * i_2pi
        * ((2.0 * a * (b + y)).atan2(x * x - a * a + (b + y).powi(2))
            + (2.0 * a * (b - y)).atan2(x * x - a * a + (b - y).powi(2)));
    let byx = -jx
        * i_4pi
        * ((((x - a).powi(2) + (y - b).powi(2)) / ((x + a).powi(2) + (y - b).powi(2))).ln()
            - (((x - a).powi(2) + (y + b).powi(2)) / ((x + a).powi(2) + (y + b).powi(2))).ln());
    let bxy = jy
        * i_4pi
        * ((((x + a).powi(2) + (y - b).powi(2)) / ((x + a).powi(2) + (y + b).powi(2))).ln()
            - (((x - a).powi(2) + (y - b).powi(2)) / ((x - a).powi(2) + (y + b).powi(2))).ln());
    let byy = jy
        * i_2pi
        * ((2.0 * b * (x + a)).atan2((x + a).powi(2) + y * y - b * b)
            - (2.0 * b * (x - a)).atan2((x - a).powi(2) + y * y - b * b));
    (bxx + bxy, byx + byy)
}

#[test]
fn symmetry_field_in_y() {
    let magnet = Rectangle::new(fx(1.0), fx(1.0), Point2::new(fx(0.), fx(-0.5)), 0, fx(1.0), fx(90.0))
        .unwrap();
    let point = Point2::new(fx(0.0), fx(0.0));
    let field = get_field_rectangle(&magnet, &point).unwrap();
    let result = nearly_equal(field.x, fx(0.0)) && nearly_equal(field.y, fx(0.5));
    assert!(result);
    assert!((float(field.x) - 0.0).abs() <= 1e-12);
    assert!((float(field.y) - 0.5).abs() <= 1e-12);
}

#[test]
fn symmetry_field_in_x() {
    let magnet = Rectangle::new(fx(1.0), fx(1.0), Point2::new(fx(0.), fx(-0.5)), 0, fx(1.0), fx(0.0))
        .unwrap();
    let point = Point2::new(fx(0.0), fx(0.0));
    let field = get_field_rectangle(&magnet, &point).unwrap();
    let result = nearly_equal(field.x, fx(0.5)) && nearly_equal(field.y, fx(0.0));
    assert!(result);
    assert!((float(field.x) - 0.5).abs() <= 1e-12);
    assert!((float(field.y) - 0.0).abs() <= 1e-12);
}

#[test]
fn symmetry_field_45_degree() {
    let magnet = Rectangle::new(fx(1.0), fx(1.0), Point2::new(fx(0.), fx(-0.5)), 0, fx(1.0), fx(45.0))
        .unwrap();
    let point = Point2::new(fx(0.0), fx(0.0));
    let field = get_field_rectangle(&magnet, &point).unwrap();
    let result = nearly_equal(field.x, fx(0.5 / 2.0_f64.sqrt()))
        && nearly_equal(field.y, fx(0.5 / 2.0_f64.sqrt()));
    assert!(result);
    assert!((float(field.x) - 0.5 / 2.0_f64.sqrt()).abs() <= 1e-12);
    assert!((float(field.y) - 0.5 / 2.0_f64.sqrt()).abs() <= 1e-12);
}

#[test]
fn field_at_centre_of_square_is_exactly_half() {
    let along_x = get_field_rectangle(&magnet(1.0, 1.0, 1.0, 0.0), &Point2::zero()).unwrap();
    assert_eq!((along_x.x.raw(), along_x.y.raw()), (ONE / 2, 0));
    let along_y = get_field_rectangle(&magnet(3.0, 3.0, 1.0, 90.0), &Point2::zero()).unwrap();
    assert_eq!((along_y.x.raw(), along_y.y.raw()), (0, ONE / 2));
    let diagonal = get_field_rectangle(&magnet(1.0, 1.0, 1.0, 45.0), &Point2::zero()).unwrap();
    assert_eq!((diagonal.x.raw(), diagonal.y.raw()), (99516432383215, 99516432383215));
}

#[test]
fn field_of_tilted_magnetisation_has_expected_units() {
    let m = magnet(2.0, 1.0, 1.2, 30.0);
    assert_eq!(m.jx().raw(), 292517376433273);
    assert_eq!(m.jy().raw(), 168884986026393);
    let point = Point2::new(fx(0.3), fx(0.7));
    let field = get_field_rectangle(&m, &point).unwrap();
    assert_eq!((field.x.raw(), field.y.raw()), (-53784177137724, 52762317504622));
    let expected = float_field(0.3, 0.7, 1.0, 0.5, float(m.jx()), float(m.jy()));
    assert!((float(field.x) - expected.0).abs() < 1e-13);
    assert!((float(field.y) - expected.1).abs() < 1e-13);
}

#[test]
fn field_is_the_sum_of_the_two_axis_fields() {
    let m = magnet(2.0, 1.0, 1.2, 30.0);
    let point = Point2::new(fx(0.3), fx(0.7));
    let from_x = magnetic_field_x(&m, &point).unwrap();
    let from_y = magnetic_field_y(&m, &point).unwrap();
    assert_eq!((from_x.x.raw(), from_x.y.raw()), (-63184886514065, 16282506267011));
    assert_eq!((from_y.x.raw(), from_y.y.raw()), (9400709376341, 36479811237611));
    let field = get_field_rectangle(&m, &point).unwrap();
    assert_eq!(field, from_x.checked_add(from_y).unwrap());
}

#[test]
fn field_agrees_with_floating_point_over_a_grid() {
    let m = magnet(2.0, 1.0, 1.0, 30.0);
    let (jx, jy) = (float(m.jx()), float(m.jy()));
    for i in -12..=12 {
        for k in -12..=12 {
            // Odd multiples of an eighth: none of them on a face or a corner.
            let (x, y) = (0.125 + 0.25 * i as f64, 0.125 + 0.25 * k as f64);
            let field = get_field_rectangle(&m, &Point2::new(fx(x), fx(y))).unwrap();
            let expected = float_field(x, y, 1.0, 0.5, jx, jy);
            assert!((float(field.x) - expected.0).abs() < 1e-13, "x at ({x}, {y})");
            assert!((float(field.y) - expected.1).abs() < 1e-13, "y at ({x}, {y})");
        }
    }
}

#[test]
fn component_below_cutoff_adds_exactly_nothing() {
    // sin(0.00005 degrees) is about 8.7e-7, below one millionth.
    let tilted = magnet(1.0, 1.0, 1.0, 0.00005);
    assert_eq!(tilted.jy().raw(), 245633255);
    let at_centre = get_field_rectangle(&tilted, &Point2::zero()).unwrap();
    assert_eq!(at_centre.y.raw(), 0);
    assert_eq!(float(at_centre.y), 0.0);
    assert_eq!(at_centre.x.raw(), 140737488355274);
    let point = Point2::new(fx(0.3), fx(0.2));
    let field = get_field_rectangle(&tilted, &point).unwrap();
    assert_eq!(field, magnetic_field_x(&tilted, &point).unwrap());
    assert_eq!((field.x.raw(), field.y.raw()), (131271714010387, 21691574020224));
}

#[test]
fn component_above_cutoff_adds_its_field() {
    // sin(0.0001 degrees) is about 1.7e-6, above one millionth.
    let tilted = magnet(1.0, 1.0, 1.0, 0.0001);
    assert_eq!(tilted.jy().raw(), 491266510);
    let at_centre = get_field_rectangle(&tilted, &Point2::zero()).unwrap();
    assert_eq!((at_centre.x.raw(), at_centre.y.raw()), (140737488355113, 245633255));
}

#[test]
fn caller_may_set_the_cutoff() {
    let m = magnet(1.0, 1.0, 1.0, 30.0);
    let point = Point2::new(fx(0.3), fx(0.2));
    // cos(30 degrees) is above 0.6 and sin(30 degrees) below.
    let only_x = get_field_rectangle_with_cutoff(&m, &point, fx(0.6)).unwrap();
    assert_eq!(only_x, magnetic_field_x(&m, &point).unwrap());
    let nothing = get_field_rectangle_with_cutoff(&m, &point, fx(0.9)).unwrap();
    assert_eq!(nothing, Point2::zero());
    let both = get_field_rectangle_with_cutoff(&m, &point, fx(0.0)).unwrap();
    assert_eq!(both, get_field_rectangle(&m, &point).unwrap());
}

#[test]
fn magnet_without_remanence_has_no_field() {
    let m = magnet(1.0, 1.0, 0.0, 30.0);
    let field = get_field_rectangle(&m, &Point2::new(fx(0.3), fx(0.2))).unwrap();
    assert_eq!(field, Point2::zero());
}

#[test]
fn field_scales_with_remanence_up_to_rounding() {
    let single = magnet(1.0, 1.0, 1.0, 0.0);
    let triple = magnet(1.0, 1.0, 3.0, 0.0);
    assert_eq!(triple.jx().raw(), 3 * single.jx().raw());
    let expected = [
        ((0.3, 0.2), (131271714010438, 21691574020233), (0, 0)),
        ((1.7, -0.4), (13121388789049, -6421584462566), (2, -2)),
        ((0.0, 0.9), (-49549553372137, 0), (-1, 0)),
    ];
    for ((x, y), (bx, by), (cut_x, cut_y)) in expected {
        let point = Point2::new(fx(x), fx(y));
        let one = get_field_rectangle(&single, &point).unwrap();
        let three = get_field_rectangle(&triple, &point).unwrap();
        assert_eq!((one.x.raw(), one.y.raw()), (bx, by));
        assert_eq!(three.x.raw() - 3 * one.x.raw(), cut_x);
        assert_eq!(three.y.raw() - 3 * one.y.raw(), cut_y);
        assert!((three.x.raw() - 3 * one.x.raw()).abs() <= 2);
        assert!((three.y.raw() - 3 * one.y.raw()).abs() <= 2);
    }
}

#[test]
fn reversed_magnetisation_has_exactly_the_reversed_field() {
    let forward = magnet(1.0, 1.0, 1.0, 0.0);
    let backward = magnet(1.0, 1.0, 1.0, 180.0);
    assert_eq!(backward.jx().raw(), -forward.jx().raw());
    for (x, y) in [(0.3, 0.2), (1.7, -0.4), (-2.5, 3.25)] {
        let point = Point2::new(fx(x), fx(y));
        let one = get_field_rectangle(&forward, &point).unwrap();
        let other = get_field_rectangle(&backward, &point).unwrap();
        assert_eq!(other.x.raw(), -one.x.raw());
        assert_eq!(other.y.raw(), -one.y.raw());
    }
}

#[test]
fn field_is_zero_at_the_corners() {
    let m = magnet(2.0, 1.0, 1.0, 30.0);
    for (x, y) in [(1.0, 0.5), (-1.0, 0.5), (1.0, -0.5), (-1.0, -0.5)] {
        let point = Point2::new(fx(x), fx(y));
        assert_eq!(magnetic_field_x(&m, &point), Err(FieldError::Singularity));
        assert_eq!(magnetic_field_y(&m, &point), Err(FieldError::Singularity));
        assert_eq!(get_field_rectangle(&m, &point), Ok(Point2::zero()));
    }
}

#[test]
fn field_is_given_on_the_faces() {
    let m = magnet(2.0, 1.0, 1.0, 30.0);
    let (jx, jy) = (float(m.jx()), float(m.jy()));
    for (x, y) in [(1.0, 0.0), (-1.0, 0.0), (0.0, 0.5), (0.0, -0.5), (1.0, 0.25), (0.5, 0.5)] {
        let field = get_field_rectangle(&m, &Point2::new(fx(x), fx(y))).unwrap();
        let expected = float_field(x, y, 1.0, 0.5, jx, jy);
        assert!((float(field.x) - expected.0).abs() < 1e-13, "x at ({x}, {y})");
        assert!((float(field.y) - expected.1).abs() < 1e-13, "y at ({x}, {y})");
    }
}

#[test]
fn evaluation_never_fails_on_a_dense_grid() {
    let m = magnet(2.0, 1.0, 1.5, 37.0);
    let bound = 16 * m.jr().raw();
    for i in -40..=40 {
        for k in -40..=40 {
            // Steps of a sixteenth: the corners, the faces and their
            // midpoints are among the points.
            let point = Point2::new(fx(0.0625 * i as f64), fx(0.0625 * k as f64));
            let field = get_field_rectangle(&m, &point);
            assert!(field.is_ok());
            let field = field.unwrap();
            assert!(field.x.raw().abs() <= bound && field.y.raw().abs() <= bound);
            assert!(float(field.x).is_finite() && float(field.y).is_finite());
        }
    }
}

#[test]
fn evaluation_succeeds_one_unit_from_a_corner() {
    let m = magnet(2.0, 1.0, 512.0, 45.0);
    let corner = Point2::new(fx(1.0), fx(0.5));
    for (dx, dy) in [(1, 0), (-1, 0), (0, 1), (0, -1), (1, 1), (-1, -1)] {
        let point = Point2::new(
            Fixed::from_raw(corner.x.raw() + dx).unwrap(),
            Fixed::from_raw(corner.y.raw() + dy).unwrap(),
        );
        let field = get_field_rectangle(&m, &point).unwrap();
        assert!(field.x.raw().abs() <= 16 * m.jr().raw());
        assert!(field.y.raw().abs() <= 16 * m.jr().raw());
        assert_ne!(field, Point2::zero());
    }
}

#[test]
fn far_field_falls_off_as_a_dipole() {
    let m = magnet(1.0, 1.0, 1.0, 0.0);
    let at = |r: f64| get_field_rectangle(&m, &Point2::new(fx(r), fx(0.0))).unwrap();
    let (near, middle, far) = (at(10.0), at(20.0), at(40.0));
    assert_eq!(near.x.raw(), 447977605879);
    assert_eq!(middle.x.raw(), 111995276419);
    assert_eq!(far.x.raw(), 27998832776);
    assert_eq!((near.y.raw(), middle.y.raw(), far.y.raw()), (0, 0, 0));
    assert!(near.x.raw() > middle.x.raw() && middle.x.raw() > far.x.raw());
    // A dipole in the plane falls off with the square of the distance.
    assert!((float(near.x) / float(middle.x) - 4.0).abs() < 0.01);
    assert!((float(middle.x) / float(far.x) - 4.0).abs() < 0.01);
}

#[test]
fn point_is_brought_into_the_frame_of_the_magnet() {
    let m = Rectangle::new(fx(1.0), fx(1.0), Point2::new(fx(0.), fx(-0.5)), 0, fx(1.0), fx(0.0))
        .unwrap();
    let local = to_local_frame(&m, &Point2::new(fx(0.25), fx(1.0))).unwrap();
    assert_eq!(local, Point2::new(fx(0.25), fx(1.5)));
    let at_centre = get_field_rectangle_global(&m, &Point2::new(fx(0.0), fx(-0.5))).unwrap();
    assert_eq!((at_centre.x.raw(), at_centre.y.raw()), (ONE / 2, 0));
    let elsewhere = get_field_rectangle_global(&m, &Point2::new(fx(0.3), fx(-0.3))).unwrap();
    assert_eq!(elsewhere, get_field_rectangle(&m, &Point2::new(fx(0.3), fx(0.2))).unwrap());
}

#[test]
fn turned_magnet_is_outside_the_domain() {
    let m = Rectangle::new(fx(1.0), fx(1.0), Point2::zero(), 1, fx(1.0), fx(0.0)).unwrap();
    let point = Point2::new(fx(0.3), fx(0.2));
    assert_eq!(to_local_frame(&m, &point), Err(FieldError::Domain));
    assert_eq!(get_field_rectangle_global(&m, &point), Err(FieldError::Domain));
}

#[test]
fn point_too_far_from_the_centre_is_outside_the_domain() {
    let m = Rectangle::new(fx(1.0), fx(1.0), Point2::new(fx(-8000.0), fx(0.0)), 0, fx(1.0), fx(0.0))
        .unwrap();
    let point = Point2::new(fx(8000.0), fx(0.0));
    assert_eq!(to_local_frame(&m, &point), Err(FieldError::Domain));
    assert_eq!(get_field_rectangle_global(&m, &point), Err(FieldError::Domain));
    let reachable = Point2::new(fx(192.0), fx(0.0));
    assert!(get_field_rectangle_global(&m, &reachable).is_ok());
}

#[test]
fn fields_over_many_points_come_in_their_order() {
    let m = magnet(2.0, 1.0, 1.2, 30.0);
    let points = vec![
        Point2::new(fx(0.3), fx(0.7)),
        Point2::new(fx(1.0), fx(0.5)),
        Point2::new(fx(-4.0), fx(2.5)),
    ];
    let fields = get_field_rectangle_over(&m, &points);
    assert_eq!(fields.len(), 3);
    assert_eq!((fields[0].x.raw(), fields[0].y.raw()), (-53784177137724, 52762317504622));
    assert_eq!(fields[1], Point2::zero());
    for (point, field) in points.iter().zip(fields.iter()) {
        assert_eq!(*field, get_field_rectangle(&m, point).unwrap());
    }
    assert_eq!(get_field_rectangle_over(&m, &Vec::new()), Vec::new());
}

#[test]
fn field_is_the_sum_of_the_fields_of_the_two_parts() {
    let whole = magnet(2.0, 1.0, 1.2, 30.0);
    let make = |jr: Fixed, phi: f64| {
        Rectangle::new(fx(2.0), fx(1.0), Point2::zero(), 0, jr, fx(phi)).unwrap()
    };
    let along_x = make(whole.jx(), 0.0);
    let along_y = make(whole.jy(), 90.0);
    assert_eq!((along_x.jx(), along_x.jy().raw()), (whole.jx(), 0));
    assert_eq!((along_y.jx().raw(), along_y.jy()), (0, whole.jy()));
    for (x, y) in [(0.3, 0.7), (1.0, 0.5), (-2.0, 0.25), (0.0, 0.0), (5.5, -3.0)] {
        let point = Point2::new(fx(x), fx(y));
        let sum = get_field_rectangle(&along_x, &point)
            .unwrap()
            .checked_add(get_field_rectangle(&along_y, &point).unwrap())
            .unwrap();
        assert_eq!(get_field_rectangle(&whole, &point).unwrap(), sum);
    }
}

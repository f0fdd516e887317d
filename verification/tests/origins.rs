use ripple::origin::{validate_render_origin, RenderOrigin};

fn at(x: f64, y: f64) -> RenderOrigin {
    RenderOrigin {
        x_bits: x.to_bits(),
        y_bits: y.to_bits(),
    }
}

#[test]
fn accepts_origins_on_and_inside_frame_edges() {
    for origin in [at(0.0, 0.0), at(0.5, 0.5), at(1.0, 1.0)] {
        assert!(validate_render_origin(origin).is_ok());
    }
}

#[test]
fn rejects_origins_outside_the_frame_or_not_finite() {
    for origin in [at(-0.1, 0.5), at(0.5, 1.1), at(f64::NAN, 0.5), at(0.5, f64::INFINITY)] {
        assert!(validate_render_origin(origin).is_err());
    }
}

#[test]
fn an_accepted_origin_is_kept() {
    let origin = at(0.25, -0.0);
    assert_eq!(validate_render_origin(origin), Ok(origin));
}

#[test]
fn a_refused_origin_is_explained() {
    assert_eq!(
        validate_render_origin(at(2.0, 0.5)).unwrap_err(),
        "Choose a ripple origin inside the frame."
    );
}

#[test]
fn coordinates_are_accepted_as_the_numbers_that_they_are() {
    let just_above_one = f64::from_bits(1.0f64.to_bits() + 1);
    let just_below_one = f64::from_bits(1.0f64.to_bits() - 1);
    let smallest = f64::from_bits(1);
    for x in [
        0.0,
        -0.0,
        smallest,
        -smallest,
        f64::MIN_POSITIVE,
        -f64::MIN_POSITIVE,
        0.1,
        0.5,
        just_below_one,
        1.0,
        just_above_one,
        2.0,
        1e300,
        f64::MAX,
        f64::MIN,
        f64::INFINITY,
        f64::NEG_INFINITY,
        f64::NAN,
        -f64::NAN,
        -1.0,
    ] {
        let expected = x.is_finite() && (0.0..=1.0).contains(&x);
        assert_eq!(validate_render_origin(at(x, 0.5)).is_ok(), expected, "{}", x);
        assert_eq!(validate_render_origin(at(0.5, x)).is_ok(), expected, "{}", x);
    }
}

use geodot::Interpolation;

#[test]
fn iter_yields_all_twelve_variants() {
    assert_eq!(Interpolation::iter().into_iter().count(), 12);
}

#[test]
fn try_from_usize_maps_valid_indices_in_order() {
    assert!(matches!(
        Interpolation::try_from_usize(0),
        Ok(Interpolation::NearestNeighbour)
    ));
    assert!(matches!(
        Interpolation::try_from_usize(1),
        Ok(Interpolation::Bilinear)
    ));
    assert!(matches!(
        Interpolation::try_from_usize(6),
        Ok(Interpolation::Mode)
    ));
    assert!(matches!(
        Interpolation::try_from_usize(11),
        Ok(Interpolation::Q2)
    ));
}

#[test]
fn try_from_usize_returns_none_variant_boundary() {
    assert!(Interpolation::iter().into_iter().nth(12).is_none());
}

#[test]
fn try_from_usize_out_of_range_names_value_and_modes() {
    assert_eq!(
        Interpolation::try_from_usize(12),
        Err("Value '12' is not a possible value from [NearestNeighbour, Bilinear, Cubic, CubicSpline, Lanczos, Average, Mode, Max, Min, Med, Q1, Q2]".to_string())
    );
    assert_eq!(
        Interpolation::try_from_usize(1305),
        Err("Value '1305' is not a possible value from [NearestNeighbour, Bilinear, Cubic, CubicSpline, Lanczos, Average, Mode, Max, Min, Med, Q1, Q2]".to_string())
    );
}

#[test]
fn every_mode_round_trips_through_its_index() {
    for (i, mode) in Interpolation::iter().into_iter().enumerate() {
        assert_eq!(Interpolation::try_from_usize(i), Ok(mode));
    }
}

#[test]
fn names_are_variant_names_and_default_is_nearest() {
    assert_eq!(Interpolation::NearestNeighbour.name(), "NearestNeighbour");
    assert_eq!(Interpolation::CubicSpline.name(), "CubicSpline");
    assert_eq!(Interpolation::Q1.name(), "Q1");
    assert_eq!(Interpolation::default(), Interpolation::NearestNeighbour);
}

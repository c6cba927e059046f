use flowy::interpolation::{CubicInterpolation, InterpolationError, LinearInterpolation};

#[test]
fn linear_stencil_at_integer_indices_reads_that_sample() {
    for i in 0..5i64 {
        let (c0, c1) = LinearInterpolation::stencil(5, i).unwrap();
        assert_eq!(c0, i as usize);
        assert_eq!(c1, (i as usize + 1).min(4));
    }
}

#[test]
fn cubic_stencil_at_integer_indices_reads_that_sample() {
    assert_eq!(CubicInterpolation::stencil(5, 0).unwrap(), (0, 0, 1, 2));
    assert_eq!(CubicInterpolation::stencil(5, 1).unwrap(), (0, 1, 2, 3));
    assert_eq!(CubicInterpolation::stencil(5, 2).unwrap(), (1, 2, 3, 4));
    assert_eq!(CubicInterpolation::stencil(5, 3).unwrap(), (2, 3, 4, 4));
    assert_eq!(CubicInterpolation::stencil(5, 4).unwrap(), (3, 4, 4, 4));
}

#[test]
fn stencils_clamp_indices_outside_the_sequence() {
    assert_eq!(LinearInterpolation::stencil(5, -7).unwrap(), LinearInterpolation::stencil(5, 0).unwrap());
    assert_eq!(LinearInterpolation::stencil(5, 12).unwrap(), (4, 4));
    assert_eq!(LinearInterpolation::stencil(5, i64::MAX).unwrap(), (4, 4));
    assert_eq!(CubicInterpolation::stencil(5, -1).unwrap(), (0, 0, 1, 2));
    assert_eq!(CubicInterpolation::stencil(5, 9).unwrap(), CubicInterpolation::stencil(5, 4).unwrap());
    assert_eq!(CubicInterpolation::stencil(5, i64::MIN).unwrap(), (0, 0, 1, 2));
}

#[test]
fn stencils_reject_empty_sequences() {
    assert_eq!(LinearInterpolation::stencil(0, 0), Err(InterpolationError::NoSamples));
    assert_eq!(CubicInterpolation::stencil(0, 3), Err(InterpolationError::NoSamples));
}

#[test]
fn single_sample_stencils_read_only_that_sample() {
    for i in -2..3i64 {
        assert_eq!(LinearInterpolation::stencil(1, i).unwrap(), (0, 0));
        assert_eq!(CubicInterpolation::stencil(1, i).unwrap(), (0, 0, 0, 0));
    }
}

#[test]
fn two_sample_cubic_stencil_repeats_the_boundary() {
    assert_eq!(CubicInterpolation::stencil(2, 0).unwrap(), (0, 0, 1, 1));
    assert_eq!(CubicInterpolation::stencil(2, 1).unwrap(), (0, 1, 1, 1));
}

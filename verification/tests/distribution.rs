use time_complexity_plot::input::distribution::{
    Distribution, Exponential, GenerationType, ProbabilityDistribution, Reciprocal, Uniform,
};
use time_complexity_plot::numeric::Fraction;
use time_complexity_plot::Error;

#[test]
fn uniform_fixed_intervals_exact_sequence() {
    let uniform = Uniform::new(1..=100).unwrap();
    let lengths = uniform.generate(10).unwrap();
    assert_eq!(lengths, vec![1, 12, 23, 34, 45, 56, 67, 78, 89, 100]);
}

#[test]
fn uniform_fixed_intervals_deterministic_and_nondecreasing() {
    let uniform = Uniform::new(37..=9999).unwrap();
    let first = uniform.generate(25).unwrap();
    let second = uniform.generate(25).unwrap();
    assert_eq!(first, second);
    for w in first.windows(2) {
        assert!(w[0] <= w[1]);
    }
}

#[test]
fn uniform_single_size_request() {
    let uniform = Uniform::new(5..=10).unwrap();
    assert_eq!(uniform.generate(1).unwrap(), vec![5]);
}

#[test]
fn generate_counts_and_bounds_for_every_law() {
    let n = 40;
    let uniform = Uniform::new(100..=5000).unwrap();
    let exponential = Exponential::new(100..=5000).unwrap();
    let reciprocal = Reciprocal::new(100..=5000).unwrap();
    for lengths in [
        uniform.generate(n).unwrap(),
        exponential.generate(n).unwrap(),
        reciprocal.generate(n).unwrap(),
    ] {
        assert_eq!(lengths.len(), n);
        for len in lengths {
            assert!((100..=5000).contains(&len));
        }
    }
}

#[test]
fn random_generation_counts_and_bounds() {
    let mut uniform = Uniform::new(10..=20).unwrap();
    uniform.set_gen_type(GenerationType::Random);
    let lengths = uniform.generate(200).unwrap();
    assert_eq!(lengths.len(), 200);
    for len in lengths {
        assert!((10..=20).contains(&len));
    }
    let mut exponential = Exponential::new(10..=20).unwrap();
    exponential.set_gen_type(GenerationType::Random);
    for len in exponential.generate(50).unwrap() {
        assert!((10..=20).contains(&len));
    }
    let mut reciprocal = Reciprocal::new(10..=20).unwrap();
    reciprocal.set_gen_type(GenerationType::Random);
    for len in reciprocal.generate(50).unwrap() {
        assert!((10..=20).contains(&len));
    }
}

#[test]
fn exponential_edges_hit_range_bounds() {
    let exponential = Exponential::new(1000..=500000).unwrap();
    let lengths = exponential.generate(3).unwrap();
    assert_eq!(lengths, vec![1000, 56496, 500000]);
}

#[test]
fn exponential_inverse_cdf_edge_fractions() {
    let exponential = Exponential::new(123..=98765).unwrap();
    assert_eq!(exponential.inverse_cdf(Fraction::new(0, 7).unwrap()), 123);
    assert_eq!(exponential.inverse_cdf(Fraction::new(7, 7).unwrap()), 98765);
}

#[test]
fn exponential_inverse_cdf_midpoint() {
    let exponential = Exponential::new(1..=256).unwrap();
    assert_eq!(exponential.inverse_cdf(Fraction::new(1, 2).unwrap()), 33);
}

#[test]
fn exponential_degenerate_range() {
    let exponential = Exponential::new(42..=42).unwrap();
    assert_eq!(exponential.generate(4).unwrap(), vec![42, 42, 42, 42]);
}

#[test]
fn reciprocal_fixed_intervals_sequence() {
    let reciprocal = Reciprocal::new(1..=1000).unwrap();
    let lengths = reciprocal.generate(5).unwrap();
    assert_eq!(lengths, vec![1, 5, 31, 177, 1000]);
}

#[test]
fn reciprocal_inverse_cdf_edge_fractions() {
    let reciprocal = Reciprocal::new(33..=44).unwrap();
    assert_eq!(reciprocal.inverse_cdf(Fraction::new(0, 3).unwrap()), 33);
    assert_eq!(reciprocal.inverse_cdf(Fraction::new(3, 3).unwrap()), 44);
}

#[test]
fn zero_count_is_rejected() {
    let uniform = Uniform::new(1..=100).unwrap();
    assert_eq!(uniform.generate(0), Err(Error::InvalidArgument));
    let exponential = Exponential::new(1..=100).unwrap();
    assert_eq!(exponential.generate(0), Err(Error::InvalidArgument));
}

#[test]
fn inverted_range_is_rejected() {
    assert!(matches!(Uniform::new(10..=5), Err(Error::InvalidArgument)));
    assert!(matches!(Exponential::new(10..=5), Err(Error::InvalidArgument)));
    assert!(matches!(Reciprocal::new(10..=5), Err(Error::InvalidArgument)));
}

#[test]
fn zero_lower_bound_is_rejected_for_ratio_laws() {
    assert!(Uniform::new(0..=5).is_ok());
    assert!(matches!(Exponential::new(0..=5), Err(Error::InvalidArgument)));
    assert!(matches!(Reciprocal::new(0..=5), Err(Error::InvalidArgument)));
}

#[test]
fn fraction_validation() {
    assert!(Fraction::new(1, 2).is_ok());
    assert!(Fraction::new(2, 2).is_ok());
    assert_eq!(Fraction::new(3, 2), Err(Error::InvalidArgument));
    assert_eq!(Fraction::new(1, 0), Err(Error::InvalidArgument));
}

#[test]
fn exponential_and_reciprocal_fixed_intervals_deterministic() {
    let exponential = Exponential::new(50..=70000).unwrap();
    assert_eq!(exponential.generate(12).unwrap(), exponential.generate(12).unwrap());
    let reciprocal = Reciprocal::new(50..=70000).unwrap();
    assert_eq!(reciprocal.generate(12).unwrap(), reciprocal.generate(12).unwrap());
}

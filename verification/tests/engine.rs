use time_complexity_plot::algorithms::Algorithm;
use time_complexity_plot::input::distribution::Uniform;
use time_complexity_plot::input::{Input, InputBuilder};
use time_complexity_plot::measurements::{
    get_average_resolution, get_resolution, get_time, get_time_sample, measure, measure_mut,
};
use time_complexity_plot::numeric::Ratio;
use time_complexity_plot::strings::{StringGen, StringGenFunction, TextInput};
use time_complexity_plot::Error;

fn text_builder() -> StringGen {
    StringGen::new(StringGenFunction::method1(), vec!['a', 'b']).unwrap()
}

fn small_input_set(n: usize, repetitions: usize) -> time_complexity_plot::input::InputSet<TextInput> {
    let distribution = Uniform::new(1..=16).unwrap();
    let builder: InputBuilder<TextInput, Uniform> = InputBuilder::new(distribution, text_builder());
    builder.build_with_repetitions(n, repetitions).unwrap()
}

#[test]
fn builder_produces_grouped_inputs() {
    let inputs = small_input_set(5, 3);
    assert_eq!(inputs.inputs.len(), 5);
    for group in &inputs.inputs {
        assert_eq!(group.len(), 3);
        let size = group[0].get_size();
        assert!((1..=16).contains(&size));
        for instance in group {
            assert!((1..=16).contains(&instance.get_size()));
        }
    }
}

#[test]
fn builder_rejects_zero_count_and_zero_repetitions() {
    let distribution = Uniform::new(1..=16).unwrap();
    let builder: InputBuilder<TextInput, Uniform> = InputBuilder::new(distribution, text_builder());
    assert!(matches!(builder.build(0), Err(Error::InvalidArgument)));
    assert!(matches!(
        builder.build_with_repetitions(3, 0),
        Err(Error::InvalidArgument)
    ));
}

#[test]
fn clock_resolution_is_positive() {
    assert!(get_resolution() >= 1);
    assert!(get_average_resolution() >= 1);
}

#[test]
fn timing_sample_exceeds_minimum_measurable() {
    let algorithm = Algorithm::smart();
    let input = TextInput {
        text: b"abcabcabcabcabcabcab".to_vec(),
    };
    let relative_error = Ratio::new(1, 2).unwrap();
    let resolution = get_average_resolution();
    let sample = get_time_sample(&algorithm, &input, &relative_error, resolution).unwrap();
    // The loop must run until the elapsed time exceeds
    // resolution * (1 / relative_error + 1).
    let min_measurable = resolution * (relative_error.den / relative_error.num + 1);
    assert!(sample.elapsed > min_measurable);
    assert!(sample.calls >= 1);
    // The mean is the elapsed time divided by the number of calls.
    let mean = sample.elapsed / sample.calls;
    assert!(mean * sample.calls <= sample.elapsed);
    assert!(sample.elapsed - mean * sample.calls < sample.calls);
}

#[test]
fn mean_duration_is_bounded_by_elapsed() {
    let algorithm = Algorithm::naive1();
    let input = TextInput {
        text: b"ababababab".to_vec(),
    };
    let relative_error = Ratio::new(1, 2).unwrap();
    let resolution = get_average_resolution();
    let mean = get_time(&algorithm, &input, &relative_error, resolution).unwrap();
    // One call cannot take longer than a loop that ran above the
    // minimum measurable time.
    assert!(mean <= resolution.saturating_mul(relative_error.den / relative_error.num + 1) * 2 + u64::from(u32::MAX));
}

#[test]
fn measure_produces_one_series_per_algorithm() {
    let inputs = small_input_set(3, 2);
    let algorithms = [Algorithm::naive1(), Algorithm::naive2(), Algorithm::smart()];
    let relative_error = Ratio::new(1, 2).unwrap();
    let results = measure(&inputs, &algorithms, relative_error).unwrap();
    assert_eq!(results.relative_error, relative_error);
    assert!(results.resolution >= 1);
    assert_eq!(results.measurements.len(), 3);
    assert_eq!(results.measurements[0].algorithm_name, "period naive1");
    assert_eq!(results.measurements[1].algorithm_name, "period naive2");
    assert_eq!(results.measurements[2].algorithm_name, "period smart");
    for series in &results.measurements {
        assert_eq!(series.measurement.len(), 3);
        for (point, group) in series.measurement.iter().zip(inputs.inputs.iter()) {
            assert_eq!(point.size, group[0].get_size());
        }
    }
}

#[test]
fn measure_mut_produces_one_series_per_algorithm() {
    let inputs = small_input_set(2, 1);
    let algorithms = [Algorithm::smart()];
    let relative_error = Ratio::new(1, 2).unwrap();
    let results = measure_mut(&inputs, &algorithms, relative_error).unwrap();
    assert_eq!(results.measurements.len(), 1);
    assert_eq!(results.measurements[0].algorithm_name, "period smart");
    assert_eq!(results.measurements[0].measurement.len(), 2);
}

#[test]
fn measure_rejects_zero_relative_error() {
    let inputs = small_input_set(2, 1);
    let algorithms = [Algorithm::naive1()];
    let zero = Ratio { num: 0, den: 1 };
    assert!(matches!(
        measure(&inputs, &algorithms, zero),
        Err(Error::InvalidArgument)
    ));
    assert!(matches!(
        measure_mut(&inputs, &algorithms, zero),
        Err(Error::InvalidArgument)
    ));
}

#[test]
fn ratio_validation() {
    assert!(Ratio::new(1, 1000).is_ok());
    assert_eq!(Ratio::new(0, 5), Err(Error::InvalidArgument));
    assert_eq!(Ratio::new(5, 0), Err(Error::InvalidArgument));
}

#[test]
fn timing_times_out_when_precision_unreachable() {
    // A relative error so small that the minimum measurable time
    // saturates: no elapsed time can ever exceed it, so the loop stops
    // at its iteration cap.
    let algorithm = Algorithm::smart();
    let input = TextInput { text: b"a".to_vec() };
    let relative_error = Ratio::new(1, u64::MAX).unwrap();
    let result = get_time_sample(&algorithm, &input, &relative_error, u64::MAX);
    assert_eq!(result, Err(Error::Timeout));
}

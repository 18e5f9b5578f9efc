use time_complexity_plot::measurements::{Measurement, Measurements, Point};
use time_complexity_plot::numeric::{floor_log2, Ratio};

fn series(name: &str, points: Vec<Point>) -> Measurement {
    Measurement {
        algorithm_name: name.to_string(),
        measurement: points,
    }
}

fn sample_measurement() -> Measurement {
    series(
        "sample",
        vec![
            Point { size: 10, time: 4_000 },
            Point { size: 70, time: 1_000 },
            Point { size: 30, time: 9_000 },
        ],
    )
}

#[test]
fn measurement_extrema() {
    let m = sample_measurement();
    assert_eq!(m.max_time(), 9_000);
    assert_eq!(m.min_time(), 1_000);
    assert_eq!(m.max_length(), 70);
    assert_eq!(m.min_length(), 10);
}

#[test]
fn measurements_extrema() {
    let all = Measurements {
        measurements: vec![
            sample_measurement(),
            series(
                "other",
                vec![
                    Point { size: 5, time: 12_000 },
                    Point { size: 90, time: 2_000 },
                ],
            ),
        ],
        relative_error: Ratio { num: 1, den: 1000 },
        resolution: 25,
    };
    assert_eq!(all.max_time(), 12_000);
    assert_eq!(all.min_time(), 1_000);
    assert_eq!(all.max_length(), 90);
    assert_eq!(all.min_length(), 5);
}

#[test]
fn floor_log2_values() {
    assert_eq!(floor_log2(0), 0);
    assert_eq!(floor_log2(1), 0);
    assert_eq!(floor_log2(2), 1);
    assert_eq!(floor_log2(255), 7);
    assert_eq!(floor_log2(256), 8);
    assert_eq!(floor_log2(2000), 10);
}

#[test]
fn log_log_scale_maps_size_256_to_8() {
    let m = series(
        "scale",
        vec![Point { size: 256, time: 2_000_000 }],
    );
    let scaled = m.log_log_scale();
    assert_eq!(scaled.algorithm_name, "scale");
    assert_eq!(scaled.measurement.len(), 1);
    // size: log2(256) == 8.
    assert_eq!(scaled.measurement[0].size, 8);
    // time: 2_000_000 ns are 2000 microseconds, log2(2000) == 10,
    // rebuilt from microseconds.
    assert_eq!(scaled.measurement[0].time, 10_000);
}

#[test]
fn log_log_scale_is_not_idempotent() {
    let m = series(
        "twice",
        vec![Point { size: 256, time: 2_000_000 }],
    );
    let once = m.log_log_scale();
    let twice = once.log_log_scale();
    // A second application keeps shrinking the values: the transform
    // is not idempotent.
    assert_eq!(twice.measurement[0].size, 3);
    assert_ne!(once.measurement[0].size, twice.measurement[0].size);
    assert_ne!(once.measurement[0].time, twice.measurement[0].time);
}

#[test]
fn measurements_log_log_scale_keeps_metadata() {
    let all = Measurements {
        measurements: vec![sample_measurement()],
        relative_error: Ratio { num: 1, den: 500 },
        resolution: 40,
    };
    let scaled = all.log_log_scale();
    assert_eq!(scaled.relative_error, Ratio { num: 1, den: 500 });
    assert_eq!(scaled.resolution, 40);
    assert_eq!(scaled.measurements.len(), 1);
    assert_eq!(scaled.measurements[0].measurement.len(), 3);
}

#[test]
fn linear_regression_recovers_exact_line() {
    // Times chosen so that micros == 3 * size + 7 exactly.
    let points: Vec<Point> = [1usize, 2, 3, 4, 5]
        .iter()
        .map(|&size| Point {
            size,
            time: 1_000 * (3 * size as u64 + 7),
        })
        .collect();
    let m = series("linear", points);
    let (slope, intercept) = m.linear_regression();
    assert!(slope.den != 0);
    assert_eq!(slope.num, 3 * slope.den);
    assert!(intercept.den != 0);
    assert_eq!(intercept.num, 7 * intercept.den);
}

#[test]
fn linear_regression_exact_sums() {
    // Two points: (1, 10 us) and (3, 30 us).
    let m = series(
        "sums",
        vec![
            Point { size: 1, time: 10_000 },
            Point { size: 3, time: 30_000 },
        ],
    );
    let (slope, intercept) = m.linear_regression();
    // n*sum_xy - sum_x*sum_y = 2*100 - 4*40 = 40;
    // n*sum_xx - sum_x^2 = 2*10 - 16 = 4.
    assert_eq!(slope.num, 40);
    assert_eq!(slope.den, 4);
    // intercept = (sum_y*den - num*sum_x) / (n*den) = (160 - 160) / 8.
    assert_eq!(intercept.num, 0);
    assert_eq!(intercept.den, 8);
}

#[test]
fn linear_regression_degenerate_when_sizes_equal() {
    let m = series(
        "flat",
        vec![
            Point { size: 4, time: 1_000 },
            Point { size: 4, time: 9_000 },
        ],
    );
    let (slope, _) = m.linear_regression();
    // All sizes equal: the denominator vanishes, the undefined value.
    assert_eq!(slope.den, 0);
}

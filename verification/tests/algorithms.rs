use time_complexity_plot::algorithms::{period_naive1, period_naive2, period_smart, Algorithm};

/// The algorithms to be tested
fn all_algorithms() -> [Algorithm; 3] {
    [Algorithm::naive1(), Algorithm::naive2(), Algorithm::smart()]
}

/// Test the given period finding algorithms
///
/// # Arguments
///
/// * `input` - The string to be analyzed
/// * `expected` - The expected period
/// * `algorithms` - The algorithms to be tested
fn test_algorithms(input: &str, expected: usize, algorithms: &[Algorithm]) {
    for algorithm in algorithms {
        let actual = algorithm.run(input.as_bytes());
        assert_eq!(expected, actual);
    }
}

/// Test all the period finding algorithms
///
/// # Arguments
///
/// * `input` - The string to be analyzed
/// * `expected` - The expected period
fn test(input: &str, expected: usize) {
    test_algorithms(input, expected, &all_algorithms());
}

#[test]
fn test_1() {
    let input = "abcabcab";
    let expected = 3;
    test(input, expected);
}

#[test]
fn test_2() {
    let input = "aba";
    let expected = 2;
    test(input, expected);
}

#[test]
fn test_3() {
    let input = "abca";
    let expected = 3;
    test(input, expected);
}

#[test]
fn period_of_constant_string() {
    test("aaaa", 1);
}

#[test]
fn period_of_aperiodic_string() {
    test("abcd", 4);
}

#[test]
fn period_of_single_character() {
    test("x", 1);
}

#[test]
fn period_functions_agree_on_empty() {
    assert_eq!(period_naive1(b""), 0);
    assert_eq!(period_naive2(b""), 0);
    for algorithm in all_algorithms() {
        assert_eq!(algorithm.run(b""), 0);
    }
}

#[test]
fn period_smart_matches_naive_on_many_inputs() {
    let samples: [&[u8]; 8] = [
        b"ababab",
        b"aabaabaa",
        b"abaababaab",
        b"zzzzy",
        b"abcabcabcabc",
        b"aabbaabbaa",
        b"ba",
        b"aab",
    ];
    for s in samples {
        let expected = period_naive1(s);
        assert_eq!(period_naive2(s), expected);
        assert_eq!(period_smart(s), expected);
    }
}

#[test]
fn algorithm_names() {
    assert_eq!(Algorithm::naive1().name, "period naive1");
    assert_eq!(Algorithm::naive2().name, "period naive2");
    assert_eq!(Algorithm::smart().name, "period smart");
}

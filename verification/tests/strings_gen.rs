use time_complexity_plot::input::Input;
use time_complexity_plot::strings::{GenMethod, StringGen, StringGenFunction, TextInput};
use time_complexity_plot::Error;

#[test]
fn string_gen_rejects_bad_character_sets() {
    assert!(matches!(
        StringGen::new(StringGenFunction::method1(), vec![]),
        Err(Error::InvalidArgument)
    ));
    assert!(matches!(
        StringGen::new(StringGenFunction::method1(), vec!['a', 'b', 'a']),
        Err(Error::InvalidArgument)
    ));
    assert!(matches!(
        StringGen::new(StringGenFunction::method1(), vec!['a', '\u{00e9}']),
        Err(Error::InvalidArgument)
    ));
}

#[test]
fn string_gen_accepts_plain_sets() {
    let gen = StringGen::new(StringGenFunction::method2(), vec!['a', 'b', 'c']).unwrap();
    assert_eq!(gen.function.method, GenMethod::PeriodicTail);
    assert_eq!(gen.char_set, vec!['a', 'b', 'c']);
}

#[test]
fn random_chars_strings_have_requested_length() {
    let gen = StringGen::new(StringGenFunction::method1(), vec!['a', 'b']).unwrap();
    for n in [1usize, 2, 17, 100] {
        let s = gen.create_random_string(n);
        assert_eq!(s.len(), n);
        assert!(s.chars().all(|c| c == 'a' || c == 'b'));
    }
}

#[test]
fn periodic_tail_strings_have_requested_length() {
    let gen = StringGen::new(StringGenFunction::method2(), vec!['x', 'y', 'z']).unwrap();
    for n in [1usize, 2, 33] {
        let s = gen.create_random_string(n);
        assert_eq!(s.len(), n);
        assert!(s.chars().all(|c| c == 'x' || c == 'y' || c == 'z'));
    }
}

#[test]
fn periodic_tail_strings_repeat_their_prefix() {
    let gen = StringGen::new(StringGenFunction::method2(), vec!['x', 'y', 'z']).unwrap();
    let n = 40;
    let s: Vec<char> = gen.create_random_string(n).chars().collect();
    // Some prefix length q makes the rest of the string repeat with
    // period q + 1.
    let periodic = (0..n).any(|q| {
        let start = if q == 0 { 1 } else { q };
        (start..n).all(|i| s[i] == s[(i - 1) % (q + 1)])
    });
    assert!(periodic);
}

#[test]
fn cyclic_chars_string_is_exact() {
    let gen = StringGen::new(StringGenFunction::method4(), vec!['a', 'b', 'c']).unwrap();
    assert_eq!(gen.create_random_string(5), "abcaa");
    assert_eq!(gen.create_random_string(1), "a");
    assert_eq!(gen.create_random_string(7), "abcabcc");
}

#[test]
fn text_input_size_matches_payload() {
    let input = TextInput {
        text: b"abcab".to_vec(),
    };
    assert_eq!(input.get_size(), 5);
}

#[test]
fn text_input_generation_honours_requested_size() {
    let gen = StringGen::new(StringGenFunction::method1(), vec!['a', 'b']).unwrap();
    let input = TextInput::generate_input(12, &gen);
    assert_eq!(input.get_size(), 12);
    for byte in input.text {
        assert!(byte == b'a' || byte == b'b');
    }
    let empty = TextInput::generate_input(0, &gen);
    assert_eq!(empty.get_size(), 0);
}

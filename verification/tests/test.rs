use rust_password::generate;
use rust_password::DigitsExceedsAvailableError;
use rust_password::ExceedsTotalLengthError;
use rust_password::Generator;
use rust_password::GeneratorConst;
use rust_password::GeneratorError;
use rust_password::GeneratorInput;
use rust_password::LettersExceedsAvailableError;
use rust_password::SymbolsExceedsAvailableError;
use std::collections::HashSet;
use std::hash::Hash;

#[test]
fn test_generator_generate_custom() {
    let gen = Generator::new(Some(&GeneratorInput {
        lower_letters: "abcde",
        upper_letters: "ABCDE",
        symbols: "!@#$%",
        digits: "01234",
    }))
    .unwrap();

    for _ in 0..500 {
        let res = gen.generate(52, 10, 10, false, true).unwrap();

        assert!(!res.contains("f"), "{} should only contain lower letters abcde", res);

        assert!(!res.contains("F"), "{} should only contain upper letters ABCDE", res);

        assert!(!res.contains("&"), "{} should only include symbols !@#$%%", res);

        assert!(!res.contains("5"), "{} should only contain digits 01234", res);
    }
}

#[test]
fn test_generator_generate_exceeds_length() {
    let gen: Generator = Generator::new(None).unwrap();

    let mut actual_error_kind = gen.generate(0, 1, 0, false, false).unwrap_err();
    assert_eq!(
        ExceedsTotalLengthError().message(),
        actual_error_kind.message(),
        "expected {} to be ExceedsTotalLengthError",
        actual_error_kind.message()
    );

    actual_error_kind = gen.generate(0, 0, 1, false, false).unwrap_err();
    assert_eq!(
        ExceedsTotalLengthError().message(),
        actual_error_kind.message(),
        "expected {} to be ExceedsTotalLengthError",
        actual_error_kind.message()
    );
}

#[test]
fn test_generator_generate_exceeds_letters_available() {
    let gen: Generator = Generator::new(None).unwrap();

    let actual_error_kind = gen.generate(1000, 0, 0, false, false).unwrap_err();
    assert_eq!(
        LettersExceedsAvailableError().message(),
        actual_error_kind.message(),
        "expected {} to be LettersExceedsAvailableError",
        actual_error_kind.message()
    );
}

#[test]
fn test_generator_generate_exceeds_digits_available() {
    let gen: Generator = Generator::new(None).unwrap();

    let actual_error_kind = gen.generate(52, 11, 0, false, false).unwrap_err();
    assert_eq!(
        DigitsExceedsAvailableError().message(),
        actual_error_kind.message(),
        "expected {} to be DigitsExceedsAvailableError",
        actual_error_kind.message()
    );
}

#[test]
fn test_generator_generate_exceeds_symbols_available() {
    let gen: Generator = Generator::new(None).unwrap();

    let actual_error_kind = gen.generate(52, 0, 31, false, false).unwrap_err();
    assert_eq!(
        SymbolsExceedsAvailableError().message(),
        actual_error_kind.message(),
        "expected {} to be SymbolsExceedsAvailableError",
        actual_error_kind.message()
    );
}

#[test]
fn test_generator_generate_lowercase() {
    let gen: Generator = Generator::new(None).unwrap();

    for i in 0..500 {
        let res = gen
            .generate(i % GeneratorConst::LOWER_LETTERS.len(), 0, 0, true, true)
            .unwrap();

        assert_eq!(res, res.to_lowercase(), "{} is not lowercase", res);
    }
}

#[test]
fn test_generator_generate_uppercase() {
    let gen: Generator = Generator::new(None).unwrap();

    for _ in 0..500 {
        let res = gen.generate(1000, 0, 0, false, true).unwrap();

        assert_ne!(res, res.to_lowercase(), "{} does not include uppercase", res);
    }
}

#[test]
fn test_generator_no_repeats() {
    let gen: Generator = Generator::new(None).unwrap();

    for _ in 0..500 {
        let res = gen.generate(52, 10, 30, false, false).unwrap();

        assert_eq!(
            has_unique_elements(res.chars()),
            true,
            "{} should not have duplicates",
            res
        );
    }
}

#[test]
fn test_generate_length_matches_request() {
    for _ in 0..100 {
        let res = generate(64, 10, 10, false, true).unwrap();
        assert_eq!(res.chars().count(), 64);
    }
    let res = generate(0, 0, 0, false, false).unwrap();
    assert_eq!(res.chars().count(), 0);
    let res = generate(52, 10, 30, false, false).unwrap();
    assert_eq!(res.chars().count(), 52);
}

#[test]
fn test_generate_error_variants() {
    assert!(matches!(
        generate(0, 1, 0, false, false),
        Err(GeneratorError::ParseExceedsTotalLengthError(_))
    ));
    assert!(matches!(
        generate(1000, 0, 0, false, false),
        Err(GeneratorError::ParseLettersExceedsAvailableError(_))
    ));
    assert!(matches!(
        generate(52, 11, 0, false, false),
        Err(GeneratorError::ParseDigitsExceedsAvailableError(_))
    ));
    assert!(matches!(
        generate(52, 0, 31, false, false),
        Err(GeneratorError::ParseSymbolsExceedsAvailableError(_))
    ));
}

#[test]
fn test_generate_boundary_requests_succeed() {
    // Exactly exhausting each pool with repeats disallowed is still valid.
    let res = generate(92, 10, 30, false, false).unwrap();
    assert_eq!(res.chars().count(), 92);
    assert!(has_unique_elements(res.chars()), "{} should not have duplicates", res);

    // Letters only, using the whole lowercase pool.
    let res = generate(26, 0, 0, true, false).unwrap();
    assert_eq!(res.chars().count(), 26);
    assert!(has_unique_elements(res.chars()), "{} should not have duplicates", res);
}

#[test]
fn test_generate_digits_and_symbols_present() {
    for _ in 0..100 {
        let res = generate(20, 5, 5, false, true).unwrap();
        let digits: usize = res.chars().filter(|c| c.is_ascii_digit()).count();
        assert!(digits >= 5, "{} should hold at least 5 digits", res);
        let letters: usize = res.chars().filter(|c| c.is_ascii_alphabetic()).count();
        assert_eq!(letters, 10, "{} should hold exactly 10 letters", res);
    }
}

#[test]
fn test_generate_not_deterministic() {
    let a = generate(1000, 0, 0, false, true).unwrap();
    let b = generate(1000, 0, 0, false, true).unwrap();
    assert_ne!(a, b, "two independent calls agreed on a 1000-character password");
}

#[test]
fn test_generator_empty_custom_pools_fall_back_to_defaults() {
    let gen = Generator::new(Some(&GeneratorInput {
        lower_letters: "",
        upper_letters: "",
        digits: "",
        symbols: "",
    }))
    .unwrap();

    // Only the 52 default letters make this satisfiable without repeats.
    let res = gen.generate(52, 0, 0, false, false).unwrap();
    assert_eq!(res.chars().count(), 52);
    assert!(has_unique_elements(res.chars()), "{} should not have duplicates", res);
}

#[test]
fn test_generator_adversarial_small_pools() {
    // A pool that repeats its one character can never yield two distinct
    // characters; the engine reports the starvation instead of spinning.
    let gen = Generator::new(Some(&GeneratorInput {
        lower_letters: "aa",
        upper_letters: "B",
        digits: "7",
        symbols: "!",
    }))
    .unwrap();
    let res = gen.generate(2, 0, 0, true, false);
    assert!(matches!(
        res,
        Err(GeneratorError::ParseLettersExceedsAvailableError(_))
    ));

    // With repeats allowed the same request succeeds.
    let res = gen.generate(2, 0, 0, true, true).unwrap();
    assert_eq!(res, "aa");
}

#[test]
fn test_random_element_draws_from_pool() {
    let pool: Vec<char> = "xyz".chars().collect();
    for _ in 0..100 {
        let c = rust_password::random_element(&pool).unwrap();
        assert!(pool.contains(&c), "{} should come from the pool", c);
    }
    let single: Vec<char> = "q".chars().collect();
    assert_eq!(rust_password::random_element(&single).unwrap(), 'q');
}

#[test]
fn test_random_insert_keeps_characters() {
    let mut s: Vec<char> = Vec::new();
    rust_password::random_insert(&mut s, 'a').unwrap();
    assert_eq!(s, vec!['a']);
    rust_password::random_insert(&mut s, 'b').unwrap();
    rust_password::random_insert(&mut s, 'c').unwrap();
    assert_eq!(s.len(), 3);
    let held: HashSet<char> = s.iter().copied().collect();
    let expected: HashSet<char> = ['a', 'b', 'c'].iter().copied().collect();
    assert_eq!(held, expected);
}

#[test]
fn test_random_insert_uses_every_position() {
    // Inserting 'x' into "ab" must over many trials land at the front, the
    // middle and the back: positions are drawn uniformly from [0, len].
    let mut seen: HashSet<String> = HashSet::new();
    for _ in 0..500 {
        let mut s: Vec<char> = vec!['a', 'b'];
        rust_password::random_insert(&mut s, 'x').unwrap();
        seen.insert(s.iter().collect());
    }
    let expected: HashSet<String> =
        ["xab", "axb", "abx"].iter().map(|s| s.to_string()).collect();
    assert_eq!(seen, expected);
}

#[test]
fn test_error_messages() {
    assert_eq!(
        ExceedsTotalLengthError().message(),
        "number of digits and symbols must be less than total length"
    );
    assert_eq!(
        LettersExceedsAvailableError().message(),
        "number of letters exceeds available letters and repeats are not allowed"
    );
    assert_eq!(
        DigitsExceedsAvailableError().message(),
        "number of digits exceeds available digits and repeats are not allowed"
    );
    assert_eq!(
        SymbolsExceedsAvailableError().message(),
        "number of symbols exceeds available symbols and repeats are not allowed"
    );
}

fn has_unique_elements<T>(iter: T) -> bool
where
    T: IntoIterator,
    T::Item: Eq + Hash,
{
    let mut uniq = HashSet::new();
    iter.into_iter().all(move |x| uniq.insert(x))
}

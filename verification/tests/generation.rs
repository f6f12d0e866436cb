use regex_data_gen::{DataGenerator, Error, GenerationMode, RegexEngine};

#[test]
fn test_sequential_letter_generation() {
    let mut generator = DataGenerator::new("[a-z]{2}").unwrap();
    let data = generator.generate_with_mode(5, GenerationMode::Sequential).unwrap();

    assert_eq!(data.len(), 5);
    assert_eq!(data[0], "aa");
    assert_eq!(data[1], "ab");
    assert_eq!(data[2], "ac");
    assert_eq!(data[3], "ad");
    assert_eq!(data[4], "ae");
}

#[test]
fn test_reverse_letter_generation() {
    let mut generator = DataGenerator::new("[a-z]{2}").unwrap();
    let data = generator.generate_with_mode(3, GenerationMode::ReverseSequential).unwrap();

    assert_eq!(data.len(), 3);
    assert_eq!(data[0], "zz");
    assert_eq!(data[1], "yz");
    assert_eq!(data[2], "xz");
}

#[test]
fn test_sequential_digit_generation() {
    let mut generator = DataGenerator::new("[0-9]{3}").unwrap();
    let data = generator.generate_with_mode(5, GenerationMode::Sequential).unwrap();

    assert_eq!(data.len(), 5);
    assert_eq!(data[0], "000");
    assert_eq!(data[1], "001");
    assert_eq!(data[2], "002");
    assert_eq!(data[3], "003");
    assert_eq!(data[4], "004");
}

#[test]
fn test_reverse_digit_generation() {
    let mut generator = DataGenerator::new("[0-9]{2}").unwrap();
    let data = generator.generate_with_mode(3, GenerationMode::ReverseSequential).unwrap();

    assert_eq!(data.len(), 3);
    assert_eq!(data[0], "99");
    assert_eq!(data[1], "98");
    assert_eq!(data[2], "97");
}

#[test]
fn test_complex_pattern_fallback() {
    let mut generator = DataGenerator::new("[a-z]+@[a-z]+\\.com").unwrap();
    let result = generator.generate_with_mode(5, GenerationMode::Sequential);

    // Complex patterns should fail with sequential mode
    assert!(result.is_err());
    assert!(result.unwrap_err().to_string().contains("Sequential generation not supported"));
}

#[test]
fn test_regex_validation() {
    // Valid patterns
    assert!(RegexEngine::validate_pattern(r"\d{3}-\d{2}-\d{4}").is_ok());
    assert!(RegexEngine::validate_pattern(r"[a-z]+@[a-z]+\.com").is_ok());
    assert!(RegexEngine::validate_pattern(r"\+1-\d{3}-\d{3}-\d{4}").is_ok());

    // Invalid patterns
    assert!(RegexEngine::validate_pattern(r"[invalid").is_err());
    assert!(RegexEngine::validate_pattern(r"*invalid").is_err());
    assert!(RegexEngine::validate_pattern(r"(?invalid)").is_err());
}

#[test]
fn test_data_generator_with_seed() {
    let mut gen1 = DataGenerator::with_seed(r"\d{2}", 42).unwrap();
    let mut gen2 = DataGenerator::with_seed(r"\d{2}", 42).unwrap();

    let data1 = gen1.generate(5).unwrap();
    let data2 = gen2.generate(5).unwrap();

    // With same seed, should generate same data
    assert_eq!(data1, data2);
}

#[test]
fn test_ascii_only_generation() {
    let mut generator = DataGenerator::with_seed_ascii_only(r"\d{4}", 42).unwrap();
    assert!(generator.is_ascii());

    let data = generator.generate(10).unwrap();
    for item in data {
        assert!(item.is_ascii());
        assert_eq!(item.len(), 4);
        assert!(item.chars().all(|c| c.is_ascii_digit()));
    }
}

#[test]
fn random_strings_match_their_pattern() {
    let patterns = [
        r"\d{3}-\d{2}-\d{4}",
        r"[a-z]{3,8}@[a-z]{3,6}\.(com|org|net)",
        r"[A-Z][a-z]+",
        r"\+1-\d{3}-\d{3}-\d{4}",
        r"(foo|bar)*x?",
    ];
    for pattern in patterns {
        let matcher = regex::Regex::new(pattern).unwrap();
        let mut generator = DataGenerator::with_seed(pattern, 7).unwrap();
        let data = generator.generate(50).unwrap();
        assert_eq!(data.len(), 50);
        for item in &data {
            assert!(matcher.is_match(item), "{:?} does not match {}", item, pattern);
        }
        let mut ascii = DataGenerator::with_seed_ascii_only(pattern, 7).unwrap();
        for item in ascii.generate(50).unwrap() {
            assert!(matcher.is_match(&item));
            assert!(item.is_ascii());
        }
    }
}

#[test]
fn repetition_bounds_are_respected() {
    let mut generator = DataGenerator::with_seed("[a-z]{3,8}", 1).unwrap();
    for item in generator.generate(200).unwrap() {
        assert!(item.len() >= 3 && item.len() <= 8);
    }
    let mut open_ended = DataGenerator::with_seed("a+", 1).unwrap();
    for item in open_ended.generate(200).unwrap() {
        assert!(item.len() >= 1 && item.len() <= 101);
    }
    assert_eq!(open_ended.capacity(), 101);
}

#[test]
fn same_seed_same_batch_for_many_seeds() {
    for seed in [0u64, 1, 42, 12345, u64::MAX] {
        for count in [0usize, 1, 7, 30] {
            let mut first = DataGenerator::with_seed(r"[a-z]{3,8}\d{2}", seed).unwrap();
            let mut second = DataGenerator::with_seed(r"[a-z]{3,8}\d{2}", seed).unwrap();
            let a = first.generate(count).unwrap();
            let b = second.generate(count).unwrap();
            assert_eq!(a.len(), count);
            assert_eq!(a, b);
            // the sources are left in the same state
            assert_eq!(first.generate(3).unwrap(), second.generate(3).unwrap());
        }
    }
}

#[test]
fn same_seed_same_batch_ascii_only() {
    let mut first = DataGenerator::with_seed_ascii_only(r"\w{5}", 99).unwrap();
    let mut second = DataGenerator::with_seed_ascii_only(r"\w{5}", 99).unwrap();
    assert_eq!(first.generate(20).unwrap(), second.generate(20).unwrap());
}

#[test]
fn different_seeds_differ() {
    let mut first = DataGenerator::with_seed(r"[a-z]{16}", 1).unwrap();
    let mut second = DataGenerator::with_seed(r"[a-z]{16}", 2).unwrap();
    assert_ne!(first.generate(5).unwrap(), second.generate(5).unwrap());
}

#[test]
fn a_batch_leaves_the_source_advanced() {
    let mut whole = DataGenerator::with_seed(r"\d{6}", 5).unwrap();
    let mut parts = DataGenerator::with_seed(r"\d{6}", 5).unwrap();
    let all = whole.generate(6).unwrap();
    let mut joined = parts.generate(2).unwrap();
    joined.extend(parts.generate(4).unwrap());
    assert_eq!(all, joined);
}

#[test]
fn enumeration_leaves_the_source_untouched() {
    let mut plain = DataGenerator::with_seed("[a-c]{2}", 11).unwrap();
    let mut mixed = DataGenerator::with_seed("[a-c]{2}", 11).unwrap();
    let listed = mixed.generate_with_mode(4, GenerationMode::Sequential).unwrap();
    assert_eq!(listed, vec!["aa", "ab", "ac", "ba"]);
    let listed = mixed.generate_with_mode(2, GenerationMode::ReverseSequential).unwrap();
    assert_eq!(listed, vec!["cc", "bc"]);
    assert_eq!(plain.generate(5).unwrap(), mixed.generate(5).unwrap());
}

#[test]
fn generate_is_random_mode() {
    let mut first = DataGenerator::with_seed(r"[a-z]{2}", 3).unwrap();
    let mut second = DataGenerator::with_seed(r"[a-z]{2}", 3).unwrap();
    assert_eq!(
        first.generate(9).unwrap(),
        second.generate_with_mode(9, GenerationMode::Random).unwrap()
    );
}

#[test]
fn unseeded_generators_work() {
    let mut generator = DataGenerator::new(r"\d{4}-\d{2}").unwrap();
    let data = generator.generate(10).unwrap();
    assert_eq!(data.len(), 10);
    let matcher = regex::Regex::new(r"^\d{4}-\d{2}$").unwrap();
    for item in data {
        assert!(matcher.is_match(&item));
    }
    let mut ascii = DataGenerator::new_ascii_only(r"\d{4}").unwrap();
    assert!(ascii.is_ascii());
    for item in ascii.generate(10).unwrap() {
        assert_eq!(item.len(), 4);
    }
}

#[test]
fn queries_report_pattern_domain_and_length() {
    let generator = DataGenerator::with_seed(r"\d{4}-\d{2}-\d{2}", 12345).unwrap();
    assert_eq!(generator.pattern(), r"\d{4}-\d{2}-\d{2}");
    assert!(!generator.is_ascii());
    assert_eq!(generator.capacity(), 34);

    let ascii = DataGenerator::with_seed_ascii_only(r"\d{4}-\d{2}-\d{2}", 12345).unwrap();
    assert_eq!(ascii.pattern(), r"\d{4}-\d{2}-\d{2}");
    assert!(ascii.is_ascii());
    assert_eq!(ascii.capacity(), 10);

    let letters = DataGenerator::new("[0-9]+").unwrap();
    assert!(letters.is_ascii());
    assert_eq!(letters.capacity(), 101);
}

#[test]
fn invalid_pattern_is_refused_by_every_constructor() {
    for pattern in ["[invalid", "*invalid", "(?invalid)"] {
        assert!(matches!(DataGenerator::new(pattern), Err(Error::InvalidRegex(_))));
        assert!(matches!(DataGenerator::with_seed(pattern, 1), Err(Error::InvalidRegex(_))));
        assert!(matches!(DataGenerator::new_ascii_only(pattern), Err(Error::InvalidRegex(_))));
        assert!(matches!(
            DataGenerator::with_seed_ascii_only(pattern, 1),
            Err(Error::InvalidRegex(_))
        ));
    }
}

#[test]
fn invalid_pattern_carries_the_diagnostic() {
    let expected = regex::Regex::new("[invalid").unwrap_err().to_string();
    match RegexEngine::new("[invalid") {
        Err(Error::InvalidRegex(reason)) => assert_eq!(reason, expected),
        _ => panic!("expected an invalid pattern"),
    }
    match RegexEngine::validate_pattern("[invalid") {
        Err(e) => assert_eq!(e.to_string(), format!("Invalid regex pattern: {}", expected)),
        Ok(()) => panic!("expected an invalid pattern"),
    }
}

#[test]
fn pattern_without_a_sampler_fails_to_generate() {
    // anchors compile, but nothing can be sampled from them
    assert!(RegexEngine::validate_pattern(r"^abc$").is_ok());
    match DataGenerator::with_seed(r"^abc$", 1) {
        Err(Error::GenerationFailed(reason)) => assert_eq!(reason, "anchor is not supported"),
        _ => panic!("expected a failure to generate"),
    }
    match DataGenerator::new_ascii_only(r"\bword\b") {
        Err(Error::GenerationFailed(reason)) => assert_eq!(reason, "anchor is not supported"),
        _ => panic!("expected a failure to generate"),
    }
    // a class that only Unicode mode knows does not parse without it
    assert!(DataGenerator::new(r"\pL{3}").is_ok());
    assert!(matches!(
        DataGenerator::new_ascii_only(r"\pL{3}"),
        Err(Error::GenerationFailed(_))
    ));
}

#[test]
fn regex_engine_matches() {
    let engine = RegexEngine::new(r"\d{3}-\d{2}").unwrap();
    assert_eq!(engine.pattern(), r"\d{3}-\d{2}");
    assert!(engine.is_match("123-45"));
    assert!(engine.is_match("call 123-45 now"));
    assert!(!engine.is_match("12-345"));
    assert!(!engine.is_match(""));
}

#[test]
fn zero_count_gives_an_empty_batch() {
    let mut generator = DataGenerator::with_seed("[a-z]{2}", 1).unwrap();
    assert!(generator.generate(0).unwrap().is_empty());
    assert!(generator.generate_with_mode(0, GenerationMode::Sequential).unwrap().is_empty());
    assert!(generator
        .generate_with_mode(0, GenerationMode::ReverseSequential)
        .unwrap()
        .is_empty());
}

#[test]
fn generation_mode_is_a_plain_value() {
    let mode = GenerationMode::Sequential;
    let copy = mode;
    assert_eq!(mode, copy);
    assert_ne!(GenerationMode::Random, GenerationMode::ReverseSequential);
    assert_eq!(format!("{:?}", GenerationMode::Random), "Random");
}

#[test]
fn a_draw_is_accepted_only_if_it_matches() {
    let engine = RegexEngine::new(r"^\d+$").unwrap();
    assert!(matches!(engine.accept(Some("123".to_string())), Ok(text) if text == "123"));
    match engine.accept(Some("abc".to_string())) {
        Err(Error::GenerationFailed(reason)) => {
            assert_eq!(reason, "Sampled text does not match the pattern")
        }
        _ => panic!("expected a failure to generate"),
    }
    match engine.accept(None) {
        Err(Error::GenerationFailed(reason)) => {
            assert_eq!(reason, "Sampled bytes are not valid UTF-8")
        }
        _ => panic!("expected a failure to generate"),
    }
    // a match somewhere is not enough: the whole text must match
    let anywhere = RegexEngine::new(r"\d").unwrap();
    assert!(anywhere.is_match("a1b"));
    assert!(!anywhere.is_full_match("a1b"));
    assert!(anywhere.accept(Some("a1b".to_string())).is_err());
    assert!(anywhere.accept(Some("1".to_string())).is_ok());
    assert!(anywhere.accept(Some(String::new())).is_err());
    // the longer alternative counts as well as the first
    let either = RegexEngine::new("a|ab").unwrap();
    assert!(either.accept(Some("ab".to_string())).is_ok());
    assert!(either.accept(Some("abb".to_string())).is_err());
    let bounded = RegexEngine::new("a{3,8}").unwrap();
    assert!(bounded.accept(Some("aaa".to_string())).is_ok());
    assert!(bounded.accept(Some("aaaaaaaaa".to_string())).is_err());
    assert!(bounded.accept(Some("aa".to_string())).is_err());
}

#[test]
fn a_pattern_that_cannot_be_anchored_is_searched_for() {
    // the comment runs to the end of the pattern and would hide the anchor
    let verbose = RegexEngine::new("(?x) ab # two letters").unwrap();
    assert!(verbose.is_match("ab"));
    assert!(verbose.is_full_match("xabx"));
    assert!(verbose.accept(Some("ab".to_string())).is_ok());
    assert!(verbose.accept(Some("xabx".to_string())).is_ok());
    assert!(verbose.accept(Some("ba".to_string())).is_err());
    let mut generator = DataGenerator::with_seed("(?x) ab # two letters", 1).unwrap();
    assert_eq!(generator.generate(2).unwrap(), vec!["ab", "ab"]);
}

#[test]
fn random_strings_match_their_pattern_in_full() {
    let patterns = [
        r"\d{3}-\d{2}-\d{4}",
        r"[a-z]{3,8}@[a-z]{3,6}\.(com|org|net)",
        r"a|ab|abc",
        r"(foo|bar)*x?",
        r"[A-Z][a-z]+",
        r"(?i)k+",
        r"(?s).{2}",
    ];
    for pattern in patterns {
        let whole = regex::Regex::new(&format!("^(?:{})$", pattern)).unwrap();
        for seed in [1u64, 2, 3] {
            let mut generator = DataGenerator::with_seed(pattern, seed).unwrap();
            for item in generator.generate(40).unwrap() {
                assert!(whole.is_match(&item), "{:?} is no whole match of {}", item, pattern);
            }
        }
    }
}

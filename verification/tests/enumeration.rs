use regex_data_gen::sequential::{
    enumerate, generate_char_sequence, generate_digit_sequence, generate_simple_sequential,
    numeral_string,
};
use regex_data_gen::shape::{recognize, RecognizedShape};
use regex_data_gen::Error;

#[test]
fn enumerates_letters_in_dictionary_order() {
    assert_eq!(
        enumerate("[a-z]{2}", 5, false).unwrap(),
        vec!["aa", "ab", "ac", "ad", "ae"]
    );
}

#[test]
fn enumerates_letters_from_the_top() {
    assert_eq!(enumerate("[a-z]{2}", 3, true).unwrap(), vec!["zz", "yz", "xz"]);
}

#[test]
fn enumerates_digits_padded_with_zeros() {
    assert_eq!(
        enumerate("[0-9]{3}", 5, false).unwrap(),
        vec!["000", "001", "002", "003", "004"]
    );
}

#[test]
fn enumerates_digits_from_the_top() {
    assert_eq!(enumerate("[0-9]{2}", 3, true).unwrap(), vec!["99", "98", "97"]);
}

#[test]
fn refuses_a_compound_pattern() {
    let refused = enumerate("[a-z]+@[a-z]+\\.com", 5, false);
    assert!(matches!(refused, Err(Error::UnsupportedPatternForEnumeration)));
    assert!(generate_simple_sequential("[a-z]+@[a-z]+\\.com", 5, false).is_none());
    assert!(generate_simple_sequential("[a-z]+@[a-z]+\\.com", 5, true).is_none());
}

#[test]
fn stops_when_the_strings_run_out() {
    let all = enumerate("[0-9]{1}", 15, false).unwrap();
    assert_eq!(all.len(), 10);
    assert_eq!(all, vec!["0", "1", "2", "3", "4", "5", "6", "7", "8", "9"]);
    let all = enumerate("[0-9]{1}", 15, true).unwrap();
    assert_eq!(all, vec!["9", "8", "7", "6", "5", "4", "3", "2", "1", "0"]);
    let all = enumerate("[a-c]{2}", 100, false).unwrap();
    assert_eq!(all, vec!["aa", "ab", "ac", "ba", "bb", "bc", "ca", "cb", "cc"]);
    let all = enumerate("[a-c]{2}", 100, true).unwrap();
    assert_eq!(all, vec!["cc", "bc", "ac", "cb", "bb", "ab", "ca", "ba", "aa"]);
}

#[test]
fn exactly_as_many_as_exist() {
    assert_eq!(enumerate("[0-9]{2}", 100, false).unwrap().len(), 100);
    assert_eq!(enumerate("[0-9]{2}", 101, false).unwrap().len(), 100);
    assert_eq!(enumerate("[0-9]{2}", 99, false).unwrap().len(), 99);
    assert_eq!(enumerate("[a-z]{2}", 1000, false).unwrap().len(), 676);
    assert_eq!(enumerate("[a-z]{2}", 1000, true).unwrap().len(), 676);
}

#[test]
fn carries_into_the_next_digit() {
    let letters = enumerate("[a-z]{2}", 28, false).unwrap();
    assert_eq!(letters[25], "az");
    assert_eq!(letters[26], "ba");
    assert_eq!(letters[27], "bb");
    let digits = enumerate("[0-9]{3}", 1000, false).unwrap();
    assert_eq!(digits[9], "009");
    assert_eq!(digits[10], "010");
    assert_eq!(digits[99], "099");
    assert_eq!(digits[100], "100");
    assert_eq!(digits[999], "999");
    let down = enumerate("[0-9]{3}", 1000, true).unwrap();
    assert_eq!(down[0], "999");
    assert_eq!(down[9], "990");
    assert_eq!(down[10], "989");
    assert_eq!(down[999], "000");
}

#[test]
fn ascending_enumeration_is_sorted_and_complete() {
    let all = enumerate("[b-e]{3}", usize::MAX, false).unwrap();
    assert_eq!(all.len(), 64);
    let mut sorted = all.clone();
    sorted.sort();
    sorted.dedup();
    assert_eq!(all, sorted);
    for item in &all {
        assert_eq!(item.len(), 3);
        assert!(item.chars().all(|c| ('b'..='e').contains(&c)));
    }
}

#[test]
fn descending_letters_spell_the_number_backwards() {
    let up = enumerate("[b-e]{3}", 64, false).unwrap();
    let down = enumerate("[b-e]{3}", 64, true).unwrap();
    assert_eq!(down.len(), 64);
    for (place, item) in down.iter().enumerate() {
        let mirrored: String = up[63 - place].chars().rev().collect();
        assert_eq!(*item, mirrored);
    }
}

#[test]
fn descending_digits_are_ascending_digits_reversed() {
    let up = enumerate("[0-9]{2}", 100, false).unwrap();
    let mut down = enumerate("[0-9]{2}", 100, true).unwrap();
    down.reverse();
    assert_eq!(up, down);
}

#[test]
fn a_single_letter_alphabet_has_one_string() {
    assert_eq!(enumerate("[q-q]{4}", 10, false).unwrap(), vec!["qqqq"]);
    assert_eq!(enumerate("[q-q]{4}", 10, true).unwrap(), vec!["qqqq"]);
}

#[test]
fn long_strings_do_not_overflow() {
    // 26^40 is far beyond any machine integer
    let up = enumerate("[a-z]{40}", 3, false).unwrap();
    assert_eq!(up[0], "a".repeat(40));
    assert_eq!(up[1], format!("{}b", "a".repeat(39)));
    assert_eq!(up[2], format!("{}c", "a".repeat(39)));
    let down = enumerate("[a-z]{40}", 3, true).unwrap();
    assert_eq!(down[0], "z".repeat(40));
    assert_eq!(down[1], format!("y{}", "z".repeat(39)));
    assert_eq!(down[2], format!("x{}", "z".repeat(39)));
    let digits = enumerate("[0-9]{30}", 2, true).unwrap();
    assert_eq!(digits[0], "9".repeat(30));
    assert_eq!(digits[1], format!("{}8", "9".repeat(29)));
}

#[test]
fn recognizes_the_two_shapes() {
    assert_eq!(
        recognize("[a-z]{2}"),
        Some(RecognizedShape::CharRange { start: 'a', end: 'z', length: 2 })
    );
    assert_eq!(
        recognize("[c-f]{12}"),
        Some(RecognizedShape::CharRange { start: 'c', end: 'f', length: 12 })
    );
    assert_eq!(recognize("[0-9]{3}"), Some(RecognizedShape::DigitRun { length: 3 }));
    assert_eq!(recognize("[0-9]{007}"), Some(RecognizedShape::DigitRun { length: 7 }));
}

#[test]
fn refuses_everything_else() {
    let refused = [
        "",
        "[a-z]",
        "[a-z]{}",
        "[a-z]{2",
        "[a-z]{2}x",
        "x[a-z]{2}",
        "^[a-z]{2}$",
        "[a-z]{2,3}",
        "[a-z]{-2}",
        "[a-z]{ 2}",
        "[a-z]{0}",
        "[0-9]{0}",
        "[z-a]{2}",
        "[A-Z]{2}",
        "[a-Z]{2}",
        "[0-8]{2}",
        "[1-9]{2}",
        "[a-z]+",
        "[a-z]{2}\n",
        "[a-z]{\u{0662}}",
        "[a-\u{e9}]{2}",
        "\\d{3}",
        "[a-z]{99999999999999999999999999}",
        "[0-9]{99999999999999999999999999}",
    ];
    for pattern in refused {
        assert_eq!(recognize(pattern), None, "{:?}", pattern);
        assert!(matches!(
            enumerate(pattern, 3, false),
            Err(Error::UnsupportedPatternForEnumeration)
        ));
    }
}

#[test]
fn the_largest_count_is_recognized() {
    let pattern = format!("[a-z]{{{}}}", usize::MAX);
    assert_eq!(
        recognize(&pattern),
        Some(RecognizedShape::CharRange { start: 'a', end: 'z', length: usize::MAX })
    );
    assert!(enumerate(&pattern, 0, false).unwrap().is_empty());
}

#[test]
fn char_sequence_by_range() {
    assert_eq!(generate_char_sequence('a', 'b', 2, 10, false), vec!["aa", "ab", "ba", "bb"]);
    assert_eq!(generate_char_sequence('a', 'b', 2, 10, true), vec!["bb", "ab", "ba", "aa"]);
    assert_eq!(generate_char_sequence('x', 'z', 1, 2, false), vec!["x", "y"]);
    assert_eq!(generate_char_sequence('a', 'z', 0, 5, false), vec![""]);
    assert!(generate_char_sequence('a', 'z', 3, 0, true).is_empty());
}

#[test]
fn digit_sequence_by_length() {
    assert_eq!(generate_digit_sequence(4, 3, false), vec!["0000", "0001", "0002"]);
    assert_eq!(generate_digit_sequence(4, 3, true), vec!["9999", "9998", "9997"]);
    assert_eq!(generate_digit_sequence(0, 3, false), vec![""]);
}

#[test]
fn numeral_string_spells_the_index() {
    assert_eq!(numeral_string(0, 'a', 26, 3, false, true), Some("aaa".to_string()));
    assert_eq!(numeral_string(27, 'a', 26, 3, false, true), Some("abb".to_string()));
    assert_eq!(numeral_string(27, 'a', 26, 3, false, false), Some("bba".to_string()));
    assert_eq!(numeral_string(17575, 'a', 26, 3, false, true), Some("zzz".to_string()));
    assert_eq!(numeral_string(17576, 'a', 26, 3, false, true), None);
    assert_eq!(numeral_string(0, 'a', 26, 3, true, true), Some("zzz".to_string()));
    assert_eq!(numeral_string(1, 'a', 26, 3, true, true), Some("zzy".to_string()));
    assert_eq!(numeral_string(1, 'a', 26, 3, true, false), Some("yzz".to_string()));
    assert_eq!(numeral_string(42, '0', 10, 5, false, true), Some("00042".to_string()));
    assert_eq!(numeral_string(42, '0', 10, 5, true, true), Some("99957".to_string()));
    assert_eq!(numeral_string(42, '0', 10, 1, false, true), None);
    assert_eq!(numeral_string(5, '0', 2, 4, false, true), Some("0101".to_string()));
    assert_eq!(numeral_string(usize::MAX, '0', 1, 3, false, true), None);
    assert_eq!(numeral_string(0, '0', 1, 3, true, true), Some("000".to_string()));
}

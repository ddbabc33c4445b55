use roan::methods::chars::{
    char_escape_default, char_escape_unicode, char_from_digit, char_is_alphabetic,
    char_is_alphanumeric, char_is_ascii, char_is_ascii_alphabetic, char_is_ascii_alphanumeric,
    char_is_ascii_control, char_is_ascii_digit, char_is_ascii_graphic, char_is_ascii_lowercase,
    char_is_ascii_punctuation, char_is_ascii_uppercase, char_is_ascii_whitespace, char_is_control,
    char_is_digit, char_is_digit_in_base, char_is_lowercase, char_is_numeric, char_is_uppercase,
    char_is_whitespace, char_len_utf8, char_to_ascii_lowercase, char_to_ascii_uppercase,
    char_to_digit, char_to_int, char_to_lowercase, char_to_string, char_to_uppercase,
};

#[test]
fn test_char_is_alphabetic() {
    assert_eq!(char_is_alphabetic('a'), true);
}

#[test]
fn test_char_is_alphanumeric() {
    assert_eq!(char_is_alphanumeric('a'), true);
}

#[test]
fn test_char_is_ascii() {
    assert_eq!(char_is_ascii('a'), true);
}

#[test]
fn test_char_is_ascii_alphabetic() {
    assert_eq!(char_is_ascii_alphabetic('a'), true);
}

#[test]
fn test_char_is_ascii_alphanumeric() {
    assert_eq!(char_is_ascii_alphanumeric('a'), true);
}

#[test]
fn test_char_is_ascii_control() {
    assert_eq!(char_is_ascii_control('\n'), true);
}

#[test]
fn test_char_is_ascii_digit() {
    assert_eq!(char_is_ascii_digit('1'), true);
}

#[test]
fn test_char_is_ascii_graphic() {
    assert_eq!(char_is_ascii_graphic('a'), true);
}

#[test]
fn test_char_is_ascii_lowercase() {
    assert_eq!(char_is_ascii_lowercase('a'), true);
}

#[test]
fn test_char_is_ascii_punctuation() {
    assert_eq!(char_is_ascii_punctuation('!'), true);
}

#[test]
fn test_char_is_ascii_uppercase() {
    assert_eq!(char_is_ascii_uppercase('A'), true);
}

#[test]
fn test_char_is_ascii_whitespace() {
    assert_eq!(char_is_ascii_whitespace(' '), true);
}

#[test]
fn test_char_is_control() {
    assert_eq!(char_is_control('\n'), true);
}

#[test]
fn test_char_is_digit() {
    assert_eq!(char_is_digit('1'), true);
}

#[test]
fn test_char_is_lowercase() {
    assert_eq!(char_is_lowercase('a'), true);
}

#[test]
fn test_char_is_numeric() {
    assert_eq!(char_is_numeric('1'), true);
}

#[test]
fn test_char_is_uppercase() {
    assert_eq!(char_is_uppercase('A'), true);
}

#[test]
fn test_char_is_whitespace() {
    assert_eq!(char_is_whitespace(' '), true);
}

#[test]
fn test_char_to_ascii_lowercase() {
    assert_eq!(char_to_ascii_lowercase('A'), 'a');
}

#[test]
fn test_char_to_ascii_uppercase() {
    assert_eq!(char_to_ascii_uppercase('a'), 'A');
}

#[test]
fn test_char_to_lowercase() {
    assert_eq!(char_to_lowercase('A'), 'a');
}

#[test]
fn test_char_to_uppercase() {
    assert_eq!(char_to_uppercase('a'), 'A');
}

#[test]
fn test_char_is_digit_in_base() {
    assert_eq!(char_is_digit_in_base('1', 10), true);
}

#[test]
fn test_char_escape_default() {
    assert_eq!(char_escape_default('\n'), "\\n");
}

#[test]
fn test_char_escape_unicode() {
    assert_eq!(char_escape_unicode('a'), "\\u{61}");
}

#[test]
fn test_char_from_digit() {
    assert_eq!(char_from_digit(1, 10), Some('1'));
}

#[test]
fn test_char_len_utf8() {
    assert_eq!(char_len_utf8('a'), 1);
}

#[test]
fn test_char_is_ascii_non_ascii() {
    assert_eq!(char_is_ascii('é'), false);
}

#[test]
fn test_char_is_ascii_lowercase_non_ascii() {
    assert_eq!(char_is_ascii_lowercase('é'), false);
}

#[test]
fn test_char_is_ascii_uppercase_non_ascii() {
    assert_eq!(char_is_ascii_uppercase('É'), false);
}

#[test]
fn test_char_from_digit_invalid() {
    assert_eq!(char_from_digit(16, 10), None);
}

#[test]
fn test_char_is_digit_in_base_invalid_base() {
    assert_eq!(char_is_digit_in_base('A', 10), false);
}

#[test]
fn test_char_len_utf8_emoji() {
    assert_eq!(char_len_utf8('😊'), 4);
}

#[test]
fn unicode_predicates_reject_other_chars() {
    assert!(!char_is_alphabetic('1'));
    assert!(char_is_alphabetic('é'));
    assert!(!char_is_numeric('a'));
    assert!(char_is_numeric('٣'));
    assert!(char_is_alphanumeric('٣'));
    assert!(!char_is_alphanumeric('-'));
    assert!(!char_is_lowercase('A'));
    assert!(!char_is_uppercase('a'));
    assert!(char_is_uppercase('É'));
}

#[test]
fn unicode_case_mappings_change_the_char() {
    assert_eq!(char_to_lowercase('É'), 'é');
    assert_eq!(char_to_uppercase('ß'), 'S');
    assert_eq!(char_to_lowercase('1'), '1');
}

#[test]
fn ascii_case_mappings_leave_other_chars() {
    assert_eq!(char_to_ascii_lowercase('é'), 'é');
    assert_eq!(char_to_ascii_uppercase('1'), '1');
    assert_eq!(char_to_ascii_lowercase('Z'), 'z');
    assert_eq!(char_to_ascii_uppercase('z'), 'Z');
}

#[test]
fn ascii_class_edges() {
    assert!(char_is_ascii_control('\u{7f}'));
    assert!(!char_is_ascii_control('\u{80}'));
    assert!(char_is_control('\u{9f}'));
    assert!(!char_is_ascii_graphic(' '));
    assert!(char_is_ascii_graphic('~'));
    assert!(!char_is_ascii_whitespace('\u{b}'));
    assert!(char_is_ascii_whitespace('\u{c}'));
    assert!(char_is_ascii_punctuation('`'));
    assert!(!char_is_ascii_punctuation('a'));
    assert!(char_is_whitespace('\u{3000}'));
    assert!(!char_is_whitespace('\u{200b}'));
}

#[test]
fn digits_in_other_bases() {
    assert_eq!(char_to_digit('f', 16), Some(15));
    assert_eq!(char_to_digit('F', 16), Some(15));
    assert_eq!(char_to_digit('g', 16), None);
    assert_eq!(char_to_digit('z', 36), Some(35));
    assert!(char_is_digit_in_base('7', 8));
    assert!(!char_is_digit_in_base('8', 8));
    assert_eq!(char_from_digit(35, 36), Some('z'));
    assert_eq!(char_from_digit(11, 16), Some('b'));
}

#[test]
fn digit_round_trip_in_every_base() {
    for radix in 2u32..=36 {
        for d in 0..radix {
            let c = char_from_digit(d as i64, radix as i64).unwrap();
            assert_eq!(char_to_digit(c, radix), Some(d));
        }
    }
}

#[test]
fn escapes() {
    assert_eq!(char_escape_default('\t'), "\\t");
    assert_eq!(char_escape_default('\r'), "\\r");
    assert_eq!(char_escape_default('\''), "\\'");
    assert_eq!(char_escape_default('"'), "\\\"");
    assert_eq!(char_escape_default('\\'), "\\\\");
    assert_eq!(char_escape_default('a'), "a");
    assert_eq!(char_escape_default('é'), "\\u{e9}");
    assert_eq!(char_escape_default('\u{0}'), "\\u{0}");
    assert_eq!(char_escape_unicode('😊'), "\\u{1f60a}");
}

#[test]
fn utf8_widths_and_code_points() {
    assert_eq!(char_len_utf8('é'), 2);
    assert_eq!(char_len_utf8('€'), 3);
    assert_eq!(char_to_int('A'), 65);
    assert_eq!(char_to_int('😊'), 0x1F60A);
    assert_eq!(char_to_string('€'), "€");
}

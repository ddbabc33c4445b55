use roan::methods::strings::{
    string_char_at, string_char_code_at, string_chars, string_contains, string_ends_with,
    string_from_bool, string_from_code, string_from_int, string_index_of, string_last_index_of,
    string_len, string_replace, string_reverse, string_slice, string_split, string_starts_with,
    string_to_bool, string_to_int, string_to_lowercase, string_to_uppercase, string_trim,
    string_trim_end, string_trim_start,
};

#[test]
fn test_string_len() {
    assert_eq!(string_len("Hello"), 5);
}

#[test]
fn test_string_split() {
    assert_eq!(string_split("Hello,World", ","), vec!["Hello".to_string(), "World".to_string()]);
}

#[test]
fn test_string_contains() {
    assert_eq!(string_contains("Hello", "ell"), true);
}

#[test]
fn test_string_starts_with() {
    assert_eq!(string_starts_with("Hello", "Hel"), true);
}

#[test]
fn test_string_ends_with() {
    assert_eq!(string_ends_with("Hello", "lo"), true);
}

#[test]
fn test_string_replace() {
    assert_eq!(string_replace("Hello,World", ",", " "), "Hello World");
}

#[test]
fn test_string_trim() {
    assert_eq!(string_trim("  Hello  "), "Hello");
}

#[test]
fn test_string_trim_start() {
    assert_eq!(string_trim_start("  Hello"), "Hello");
}

#[test]
fn test_string_trim_end() {
    assert_eq!(string_trim_end("Hello  "), "Hello");
}

#[test]
fn test_string_to_uppercase() {
    assert_eq!(string_to_uppercase("Hello"), "HELLO");
}

#[test]
fn test_string_to_lowercase() {
    assert_eq!(string_to_lowercase("Hello"), "hello");
}

#[test]
fn test_string_reverse() {
    assert_eq!(string_reverse("Hello"), "olleH");
}

#[test]
fn test_string_char_at() {
    assert_eq!(string_char_at("Hello", 1), Some("e".to_string()));
}

#[test]
fn test_string_char_code_at() {
    assert_eq!(string_char_code_at("Hello", 1), Some(101));
}

#[test]
fn test_string_slice() {
    assert_eq!(string_slice("Hello", 1, 3), Some("el".to_string()));
}

#[test]
fn test_string_index_of() {
    assert_eq!(string_index_of("Hello", "l"), 2);
}

#[test]
fn test_string_last_index_of() {
    assert_eq!(string_last_index_of("Hello", "l"), 3);
}

#[test]
fn test_string_to_int() {
    assert_eq!(string_to_int("42"), Some(42));
}

#[test]
fn test_string_to_bool() {
    assert_eq!(string_to_bool("true"), Some(true));
}

#[test]
fn len_counts_bytes() {
    assert_eq!(string_len("héllo"), 6);
    assert_eq!(string_len(""), 0);
}

#[test]
fn split_edge_cases() {
    assert_eq!(string_split("abc", ""), vec!["", "a", "b", "c", ""]);
    assert_eq!(string_split("", ""), vec!["", ""]);
    assert_eq!(string_split("", ","), vec![""]);
    assert_eq!(string_split("a,,b,", ","), vec!["a", "", "b", ""]);
    assert_eq!(string_split("aaa", "aa"), vec!["", "a"]);
}

#[test]
fn chars_of_string() {
    assert_eq!(string_chars("añ😊"), vec!['a', 'ñ', '😊']);
}

#[test]
fn search_edge_cases() {
    assert!(string_contains("abc", ""));
    assert!(!string_contains("abc", "abcd"));
    assert!(string_starts_with("abc", ""));
    assert!(!string_starts_with("ab", "abc"));
    assert!(string_ends_with("abc", "abc"));
    assert!(!string_ends_with("abc", "ab"));
}

#[test]
fn index_of_gives_byte_offsets() {
    assert_eq!(string_index_of("héllo", "l"), 3);
    assert_eq!(string_index_of("abc", "x"), -1);
    assert_eq!(string_index_of("abc", ""), 0);
    assert_eq!(string_last_index_of("abc", ""), 3);
    assert_eq!(string_last_index_of("héllo", "l"), 4);
    assert_eq!(string_last_index_of("aaa", "aa"), 1);
    assert_eq!(string_last_index_of("abc", "x"), -1);
}

#[test]
fn contains_agrees_with_index_of() {
    for (s, n) in [("banana", "nan"), ("banana", "x"), ("", ""), ("ab", "ba")] {
        assert_eq!(string_contains(s, n), string_index_of(s, n) >= 0);
        assert_eq!(string_contains(s, n), string_last_index_of(s, n) >= 0);
    }
}

#[test]
fn replace_edge_cases() {
    assert_eq!(string_replace("abc", "", "-"), "-a-b-c-");
    assert_eq!(string_replace("aaaa", "aa", "b"), "bb");
    assert_eq!(string_replace("abc", "x", "y"), "abc");
}

#[test]
fn replace_by_itself_changes_nothing() {
    for (s, p) in [("a,b,,c", ","), ("xyz", ""), ("aaa", "aa"), ("", "q")] {
        assert_eq!(string_replace(s, p, p), s);
    }
}

#[test]
fn trim_unicode_whitespace() {
    assert_eq!(string_trim("\u{3000}\t x y \n"), "x y");
    assert_eq!(string_trim("   "), "");
    assert_eq!(string_trim_start("\u{a0}a "), "a ");
    assert_eq!(string_trim_end(" a\u{2028}"), " a");
}

#[test]
fn case_mappings_of_non_ascii_text() {
    assert_eq!(string_to_uppercase("straße"), "STRASSE");
    assert_eq!(string_to_lowercase("ÉCOLE"), "école");
}

#[test]
fn reverse_edge_cases() {
    assert_eq!(string_reverse(""), "");
    assert_eq!(string_reverse("añ😊"), "😊ña");
    assert_eq!(string_reverse(&string_reverse("roan")), "roan");
}

#[test]
fn char_at_negative_and_out_of_range() {
    assert_eq!(string_char_at("Hello", -1), Some("o".to_string()));
    assert_eq!(string_char_at("Hello", 5), None);
    assert_eq!(string_char_at("Hello", -6), None);
    assert_eq!(string_char_code_at("Hello", -5), Some(72));
    assert_eq!(string_char_code_at("", 0), None);
}

#[test]
fn slice_edge_cases() {
    assert_eq!(string_slice("Hello", -4, -1), Some("ell".to_string()));
    assert_eq!(string_slice("Hello", 3, 1), Some("lo".to_string()));
    assert_eq!(string_slice("Hello", 1, 5), None);
    assert_eq!(string_slice("Hello", -6, 2), None);
    assert_eq!(string_slice("Hello", 2, 2), Some(String::new()));
}

#[test]
fn to_int_accepts_signs_and_rejects_the_rest() {
    assert_eq!(string_to_int("-17"), Some(-17));
    assert_eq!(string_to_int("+8"), Some(8));
    assert_eq!(string_to_int("007"), Some(7));
    assert_eq!(string_to_int(""), None);
    assert_eq!(string_to_int("-"), None);
    assert_eq!(string_to_int("+"), None);
    assert_eq!(string_to_int("1 2"), None);
    assert_eq!(string_to_int(" 1"), None);
    assert_eq!(string_to_int("9223372036854775807"), Some(i64::MAX));
    assert_eq!(string_to_int("-9223372036854775808"), Some(i64::MIN));
    assert_eq!(string_to_int("9223372036854775808"), None);
    assert_eq!(string_to_int("-9223372036854775809"), None);
    assert_eq!(string_to_int("99999999999999999999x"), None);
}

#[test]
fn int_round_trip() {
    for i in [0, 1, -1, 42, -42, 1_000_000, i64::MAX, i64::MIN] {
        assert_eq!(string_to_int(&string_from_int(i)), Some(i));
    }
    assert_eq!(string_from_int(-305), "-305");
}

#[test]
fn bools() {
    assert_eq!(string_to_bool("false"), Some(false));
    assert_eq!(string_to_bool("True"), None);
    assert_eq!(string_from_bool(true), "true");
    assert_eq!(string_from_bool(false), "false");
}

#[test]
fn from_code_builds_the_char() {
    assert_eq!(string_from_code(65), "A");
    assert_eq!(string_from_code(0x1F60A), "😊");
    assert_eq!(string_from_code(0x1_0000_0041), "A");
}

use roan::source::{DecodeErrorKind, ReadChar, Source, UTF8Input};
use std::path::PathBuf;

#[test]
fn test_ascii_input() {
    let mut utf8_input = UTF8Input::new("Hello".as_bytes().to_vec());

    let mut chars = Vec::new();
    while let Ok(Some(c)) = utf8_input.next_char() {
        chars.push(c);
    }

    assert_eq!(chars, vec!['H', 'e', 'l', 'l', 'o']);
}

#[test]
fn test_multibyte_input() {
    let mut utf8_input = UTF8Input::new("你好".as_bytes().to_vec());

    let mut chars = Vec::new();
    while let Ok(Some(c)) = utf8_input.next_char() {
        chars.push(c);
    }

    assert_eq!(chars, vec!['你', '好']);
}

#[test]
fn test_invalid_utf8() {
    let mut utf8_input = UTF8Input::new(vec![0xFF, 0xFF, 0xFF]);

    match utf8_input.next_char() {
        Err(e) => assert_eq!(e.kind(), DecodeErrorKind::InvalidData),
        _ => panic!("Expected an InvalidData error"),
    }
}

#[test]
fn truncated_sequence_is_unexpected_eof() {
    let mut input = UTF8Input::new(vec![0xE4, 0xBD]);
    match input.next_char() {
        Err(e) => {
            assert_eq!(e.kind(), DecodeErrorKind::UnexpectedEof);
            assert_eq!(e.message(), "Unexpected end of input");
        }
        _ => panic!("Expected an UnexpectedEof error"),
    }
}

#[test]
fn continuation_byte_first_is_invalid_start() {
    let mut input = UTF8Input::new(vec![0x80, b'a']);
    match input.next_char() {
        Err(e) => {
            assert_eq!(e.kind(), DecodeErrorKind::InvalidData);
            assert_eq!(e.message(), "Invalid UTF-8 start byte");
        }
        _ => panic!("Expected an InvalidData error"),
    }
    assert_eq!(input.next_char().unwrap(), Some('a'));
}

#[test]
fn surrogate_code_point_is_invalid_sequence() {
    let mut input = UTF8Input::new(vec![0xED, 0xA0, 0x80]);
    match input.next_char() {
        Err(e) => assert_eq!(e.message(), "Invalid UTF-8 sequence"),
        _ => panic!("Expected an InvalidData error"),
    }
}

#[test]
fn source_from_string_reads_back_every_char() {
    let text = "añ€😊z";
    let mut source = Source::from_string(text.to_string(), None);
    let mut chars = Vec::new();
    loop {
        match ReadChar::next_char(&mut source) {
            Ok(Some(c)) => chars.push(c),
            Ok(None) => break,
            Err(_) => panic!("valid UTF-8 must decode"),
        }
    }
    assert_eq!(chars, text.chars().collect::<Vec<char>>());
    assert_eq!(source.next_char().unwrap(), None);
}

#[test]
fn source_paths() {
    let source = Source::from_bytes(b"x");
    assert!(source.path().is_none());
    let source = source.with_path(PathBuf::from("main.roan"));
    assert_eq!(source.path(), Some(&PathBuf::from("main.roan")));
}

#[test]
fn read_chars_gives_back_the_string() {
    let text = "fn main() { print(\"héllo 😊\"); }";
    let mut source = Source::from_string(text.to_string(), Some(PathBuf::from("a.roan")));
    assert_eq!(source.read_chars().unwrap(), text.chars().collect::<Vec<char>>());
    assert_eq!(source.path(), Some(&PathBuf::from("a.roan")));
}

#[test]
fn read_chars_stops_at_the_first_error() {
    let mut input = UTF8Input::new(vec![b'a', 0xFF, b'b']);
    match input.read_chars() {
        Err(e) => assert_eq!(e.kind(), DecodeErrorKind::InvalidData),
        Ok(_) => panic!("Expected an InvalidData error"),
    }
    assert_eq!(input.next_char().unwrap(), Some('b'));
}

#[test]
fn lead_byte_without_continuation_is_invalid() {
    let mut input = UTF8Input::new(vec![0xC3, 0x41]);
    match input.next_char() {
        Err(e) => {
            assert_eq!(e.kind(), DecodeErrorKind::InvalidData);
            assert_eq!(e.message(), "Invalid UTF-8 sequence");
        }
        _ => panic!("Expected an InvalidData error"),
    }
    assert_eq!(input.next_char().unwrap(), Some('A'));
}

#[test]
fn overlong_encodings_are_invalid() {
    for bytes in [vec![0xC0, 0x80], vec![0xC1, 0xBF], vec![0xE0, 0x80, 0xAF], vec![0xF0, 0x80, 0x80, 0xAF]] {
        let mut input = UTF8Input::new(bytes);
        match input.next_char() {
            Err(e) => assert_eq!(e.kind(), DecodeErrorKind::InvalidData),
            _ => panic!("Expected an InvalidData error"),
        }
        assert_eq!(input.next_char().unwrap(), None);
    }
}

#[test]
fn code_points_above_the_unicode_range_are_invalid() {
    let mut input = UTF8Input::new(vec![0xF4, 0x90, 0x80, 0x80]);
    match input.next_char() {
        Err(e) => assert_eq!(e.kind(), DecodeErrorKind::InvalidData),
        _ => panic!("Expected an InvalidData error"),
    }
}

#[test]
fn bad_third_byte_keeps_the_rest() {
    let mut input = UTF8Input::new(vec![0xE4, 0xBD, 0x41]);
    assert!(input.next_char().is_err());
    assert_eq!(input.next_char().unwrap(), Some('A'));
}

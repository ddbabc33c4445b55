use roan::position::Position;
use roan::span::TextSpan;

#[test]
fn test_new() {
    let start = Position::new(1, 1, 0);
    let end = Position::new(1, 5, 4);
    let span = TextSpan::new(start, end, "test".to_string());
    assert_eq!(span.start, start);
    assert_eq!(span.end, end);
    assert_eq!(span.literal, "test");
}

#[test]
fn test_combine() {
    let span1 = TextSpan::new(
        Position::new(1, 1, 0),
        Position::new(1, 5, 4),
        "test".to_string(),
    );
    let span2 = TextSpan::new(
        Position::new(1, 6, 5),
        Position::new(1, 10, 9),
        "span".to_string(),
    );
    let combined = TextSpan::combine(vec![span1, span2]).unwrap();
    assert_eq!(combined.start, Position::new(1, 1, 0));
    assert_eq!(combined.end, Position::new(1, 10, 9));
    assert_eq!(combined.literal, "testspan");
}

#[test]
fn test_combine_empty() {
    assert_eq!(TextSpan::combine(vec![]), None);
}

#[test]
fn test_length() {
    let span = TextSpan::new(
        Position::new(1, 1, 0),
        Position::new(1, 5, 4),
        "test".to_string(),
    );
    assert_eq!(span.length(), 4);
}

#[test]
fn test_literal() {
    let span = TextSpan::new(
        Position::new(1, 1, 0),
        Position::new(1, 5, 4),
        "test".to_string(),
    );
    assert_eq!(span.literal("test string"), "test");
}

#[test]
fn test_default() {
    let span = TextSpan::default();
    assert_eq!(span.start, Position::default());
    assert_eq!(span.end, Position::default());
    assert_eq!(span.literal, "");
}

#[test]
fn test_debug() {
    let span = TextSpan::new(
        Position::new(1, 1, 0),
        Position::new(1, 5, 4),
        "test".to_string(),
    );

    assert_eq!(span.to_debug_string(), "\"test\" (1:1)");
}

#[test]
fn combine_sorts_spans_by_start() {
    let later = TextSpan::new(Position::new(2, 1, 10), Position::new(2, 4, 13), "bar".to_string());
    let earlier = TextSpan::new(Position::new(1, 1, 0), Position::new(1, 4, 3), "foo".to_string());
    let combined = TextSpan::combine(vec![later, earlier]).unwrap();
    assert_eq!(combined.start, Position::new(1, 1, 0));
    assert_eq!(combined.end, Position::new(2, 4, 13));
    assert_eq!(combined.literal, "foobar");
}

#[test]
fn combine_single_span_is_that_span() {
    let span = TextSpan::new(Position::new(3, 2, 7), Position::new(3, 6, 11), "word".to_string());
    let combined = TextSpan::combine(vec![span.clone()]).unwrap();
    assert_eq!(combined, span);
}

#[test]
fn literal_reads_the_bytes_between_the_indices() {
    let span = TextSpan::new(Position::new(1, 7, 6), Position::new(1, 12, 11), "world".to_string());
    assert_eq!(span.literal("hello world!"), "world");
}

#[test]
fn combine_does_not_depend_on_the_order_given() {
    let a = TextSpan::new(Position::new(1, 1, 0), Position::new(1, 3, 2), "ab".to_string());
    let b = TextSpan::new(Position::new(1, 3, 2), Position::new(1, 4, 3), "c".to_string());
    let c = TextSpan::new(Position::new(2, 1, 4), Position::new(2, 3, 6), "de".to_string());
    let one = TextSpan::combine(vec![a.clone(), b.clone(), c.clone()]).unwrap();
    let other = TextSpan::combine(vec![c, a, b]).unwrap();
    assert_eq!(one, other);
    assert_eq!(one.literal, "abcde");
}

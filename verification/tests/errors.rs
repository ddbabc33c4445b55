use roan::diagnostic::{diagnostic_for_error, render_error, Level};
use roan::error::{get_span_from_err, RoanError};
use roan::frame::Frame;
use roan::position::Position;
use roan::span::TextSpan;
use roan::style::{Segment, Style};

fn texts(lines: &[Vec<Segment>]) -> Vec<String> {
    lines.iter().map(|l| l.iter().map(|s| s.text.clone()).collect()).collect()
}

fn span(line: u32, col: u32, end_col: u32, lit: &str) -> TextSpan {
    TextSpan::new(Position::new(line, col, 0), Position::new(line, end_col, 0), lit.to_string())
}

#[test]
fn messages_of_errors() {
    let e = RoanError::VariableNotFoundError("x".to_string(), TextSpan::default());
    assert_eq!(e.message(), "Couldn't find variable: x");
    let e = RoanError::IndexOutOfBounds(7, 3, TextSpan::default());
    assert_eq!(e.message(), "Index out of bounds: 7 >= 3");
    let e = RoanError::Io("disk full".to_string());
    assert_eq!(e.message(), "IO error: disk full");
}

#[test]
fn spans_of_errors() {
    let s = span(3, 2, 5, "foo");
    let e = RoanError::TypeMismatch("int".to_string(), s.clone());
    assert_eq!(get_span_from_err(&e), Some(s));
    assert_eq!(get_span_from_err(&RoanError::ModuleError("m".to_string())), None);
    assert_eq!(get_span_from_err(&RoanError::Throw("t".to_string(), vec![])), None);
}

#[test]
fn diagnostic_of_io_error() {
    let d = diagnostic_for_error(&RoanError::Io("denied".to_string()), None).unwrap();
    assert_eq!(d.title, "IO error");
    assert_eq!(d.text, Some("IO error: denied".to_string()));
    assert_eq!(d.level, Level::Error);
    assert_eq!(d.location, None);
}

#[test]
fn diagnostic_of_break_outside_loop_has_hint() {
    let s = span(1, 1, 6, "break");
    let d = diagnostic_for_error(&RoanError::LoopBreak(s.clone()), Some("break".to_string())).unwrap();
    assert_eq!(d.title, "Break was used outside loop.");
    assert_eq!(d.location, Some(s));
    assert_eq!(d.hint, Some("Break and continue statements can only be used inside loops".to_string()));
}

#[test]
fn thrown_error_has_no_diagnostic() {
    assert_eq!(diagnostic_for_error(&RoanError::Throw("boom".to_string(), vec![]), None), None);
}

#[test]
fn render_variable_not_found() {
    let e = RoanError::VariableNotFoundError("x".to_string(), span(2, 5, 6, "x"));
    let lines = render_error(&e, Some("let a = 1;\nprint(x);\n".to_string()));
    assert_eq!(
        texts(&lines),
        vec![
            "error: Couldn't find variable: x".to_string(),
            "---> 2:5".to_string(),
            "1 |".to_string(),
            "2 |    print(x);".to_string(),
            format!("{}^", " ".repeat(12)),
            "3 |".to_string(),
        ]
    );
    assert_eq!(lines[0][0].style, Style::BrightRed);
    assert_eq!(lines[4][1].style, Style::BrightRed);
}

#[test]
fn render_thrown_error_with_frames() {
    let frame = Frame::new("main", span(4, 3, 7, "main"), "app.roan");
    let e = RoanError::Throw("bad input".to_string(), vec![frame]);
    let lines = render_error(&e, None);
    assert_eq!(texts(&lines), vec!["error: bad input".to_string(), "   at main app.roan:4:3".to_string()]);
}

#[test]
fn render_without_content_skips_the_excerpt() {
    let e = RoanError::InvalidSpread(span(1, 1, 4, "..."));
    let lines = render_error(&e, None);
    assert_eq!(
        texts(&lines),
        vec![
            "error: Invalid spread operator usage.".to_string(),
            "Hint: Spread operator can only be used in function calls or vectors".to_string(),
        ]
    );
}

use roan::frame::Frame;
use roan::position::Position;
use roan::span::TextSpan;
use std::path::PathBuf;

#[test]
fn test_frame_new() {
    let frame = Frame::new(
        "main",
        TextSpan::new(Position::new(1, 1, 1), Position::new(1, 1, 1), "main".into()),
        ".\\src\\main.roan",
    );

    assert_eq!(frame.name, "main");
    assert_eq!(frame.span.start.line, 1);
    assert_eq!(frame.span.start.column, 1);
    assert_eq!(frame.path, ".\\src\\main.roan");
}

#[test]
fn test_frame_path_or_unknown() {
    let path = Some(PathBuf::from("tests\\test.roan"));
    assert_eq!(Frame::path_or_unknown(path), "tests\\test.roan");

    let path = None;
    assert_eq!(Frame::path_or_unknown(path), "unknown");
}

#[test]
fn frame_render_shows_name_path_and_position() {
    let frame = Frame::new(
        "helper",
        TextSpan::new(Position::new(12, 5, 200), Position::new(12, 11, 206), "helper".into()),
        "lib.roan",
    );
    let text: String = frame.render().iter().map(|s| s.text.clone()).collect();
    assert_eq!(text, "   at helper lib.roan:12:5");
}

use roan::position::Position;

#[test]
fn test_position_new() {
    let pos = Position::new(1, 1, 0);
    assert_eq!(pos.line(), 1);
    assert_eq!(pos.column(), 1);
    assert_eq!(pos.index(), 0);
}

#[test]
fn test_position_increment_line() {
    let mut pos = Position::new(1, 1, 0);
    pos.increment_line();
    assert_eq!(pos.line(), 2);
    assert_eq!(pos.column(), 1);
    assert_eq!(pos.index(), 1);
}

#[test]
fn test_position_increment_column() {
    let mut pos = Position::new(1, 1, 0);
    pos.increment_column();
    assert_eq!(pos.line(), 1);
    assert_eq!(pos.column(), 2);
    assert_eq!(pos.index(), 1);
}

#[test]
fn test_position_display() {
    let pos = Position::new(1, 1, 0);
    assert_eq!(pos.to_string(), "1:1 (index: 0)");
}

#[test]
fn test_position_default() {
    let default_pos = Position::default();
    assert_eq!(default_pos, Position::new(1, 1, 0));
}

#[test]
fn position_display_large_numbers() {
    let pos = Position::new(120, 7, 4096);
    assert_eq!(pos.to_string(), "120:7 (index: 4096)");
}

#[test]
fn position_increment_line_resets_column() {
    let mut pos = Position::new(3, 9, 40);
    pos.increment_line();
    assert_eq!(pos, Position::new(4, 1, 41));
}

use ast_tools::positions::{byte_to_position, position_to_byte, range_to_bytes};
use ast_tools::shared::{Position, Range};

fn pos(line: u32, character: u32) -> Position {
    Position { line, character }
}

#[test]
fn positions_map_to_byte_offsets_by_line() {
    let src = "ab\ncdé\n\nx";
    assert_eq!(position_to_byte(src, pos(0, 0)), Some(0));
    assert_eq!(position_to_byte(src, pos(0, 2)), Some(2));
    assert_eq!(position_to_byte(src, pos(1, 1)), Some(4));
    assert_eq!(position_to_byte(src, pos(1, 4)), Some(7));
    assert_eq!(position_to_byte(src, pos(2, 0)), Some(8));
    assert_eq!(position_to_byte(src, pos(3, 1)), Some(10));
}

#[test]
fn positions_past_a_line_or_inside_a_character_are_refused() {
    let src = "ab\ncdé\n\nx";
    assert_eq!(position_to_byte(src, pos(0, 3)), None);
    assert_eq!(position_to_byte(src, pos(1, 3)), None);
    assert_eq!(position_to_byte(src, pos(4, 0)), None);
    assert_eq!(position_to_byte("", pos(0, 0)), Some(0));
    assert_eq!(position_to_byte("", pos(1, 0)), None);
}

#[test]
fn byte_offsets_map_back_to_positions() {
    let src = "ab\ncdé\n\nx";
    assert_eq!(byte_to_position(src, 0), pos(0, 0));
    assert_eq!(byte_to_position(src, 4), pos(1, 1));
    assert_eq!(byte_to_position(src, 7), pos(1, 4));
    assert_eq!(byte_to_position(src, 8), pos(2, 0));
    assert_eq!(byte_to_position(src, 100), pos(3, 1));
    for b in [0usize, 2, 3, 4, 5, 7, 8, 9, 10] {
        let p = byte_to_position(src, b);
        assert_eq!(position_to_byte(src, p), Some(b));
    }
}

#[test]
fn ranges_need_both_ends_in_order() {
    let src = "ab\ncd";
    assert_eq!(range_to_bytes(src, Range { start: pos(0, 1), end: pos(1, 2) }), Some((1, 5)));
    assert_eq!(range_to_bytes(src, Range { start: pos(1, 0), end: pos(0, 1) }), None);
    assert_eq!(range_to_bytes(src, Range { start: pos(0, 1), end: pos(2, 0) }), None);
}

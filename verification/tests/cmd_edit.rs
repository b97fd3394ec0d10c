use repl_block::cmd::Cmd;
use repl_block::coords::{Coords, CursorFlags, Dims};
use repl_block::line::{Line, LineKind};

fn cmd_from(lines: &[&str]) -> Cmd {
    Cmd::from_lines(
        lines.iter().map(|text| Line::from_parts(text.to_string(), LineKind::Start)).collect(),
    )
}

fn at(x: u16, y: u16) -> Coords {
    Coords { x, y }
}

#[test]
fn insert_char_into_a_line() {
    let mut cmd = cmd_from(&["ac", "x"]);
    cmd.insert_char(at(1, 0), 'b');
    assert_eq!(cmd, cmd_from(&["abc", "x"]));
    cmd.insert_char(at(1, 1), 'y');
    assert_eq!(cmd, cmd_from(&["abc", "xy"]));
    cmd.insert_char(at(9, 1), 'z');
    assert_eq!(cmd, cmd_from(&["abc", "xyz"]));
}

#[test]
fn insert_char_into_an_empty_cmd_creates_a_line() {
    let mut cmd = Cmd::from_lines(vec![]);
    cmd.insert_char(at(0, 0), 'q');
    assert_eq!(cmd, cmd_from(&["q"]));
}

#[test]
fn insert_empty_line_splits_at_the_column() {
    let mut cmd = cmd_from(&["hello"]);
    cmd.insert_empty_line(at(2, 0));
    assert_eq!(cmd, cmd_from(&["he", "llo"]));
    cmd.insert_empty_line(at(0, 1));
    assert_eq!(cmd, cmd_from(&["he", "", "llo"]));
    cmd.insert_empty_line(at(3, 2));
    assert_eq!(cmd, cmd_from(&["he", "", "llo", ""]));
}

#[test]
fn insert_empty_line_keeps_the_kind_of_the_head() {
    let mut cmd = Cmd::from_lines(vec![Line::from_parts("abcd".to_string(), LineKind::Overflow)]);
    cmd.insert_empty_line(at(1, 0));
    assert_eq!(cmd.line(0).kind(), LineKind::Overflow);
    assert_eq!(cmd.line(0).as_str(), "a");
    assert_eq!(cmd.line(1).kind(), LineKind::Start);
    assert_eq!(cmd.line(1).as_str(), "bcd");
}

#[test]
fn rm_grapheme_before_wherever_the_cursor_is() {
    let mut cmd = cmd_from(&["foo", "bar"]);
    cmd.rm_grapheme_before(at(0, 0));
    assert_eq!(cmd, cmd_from(&["foo", "bar"]));
    cmd.rm_grapheme_before(at(2, 0));
    assert_eq!(cmd, cmd_from(&["fo", "bar"]));
    cmd.rm_grapheme_before(at(3, 1));
    assert_eq!(cmd, cmd_from(&["fo", "ba"]));
    cmd.rm_grapheme_before(at(0, 1));
    assert_eq!(cmd, cmd_from(&["foba"]));
    let mut none = Cmd::from_lines(vec![]);
    none.rm_grapheme_before(at(3, 3));
    assert!(none.is_empty());
}

#[test]
fn rm_grapheme_at_wherever_the_cursor_is() {
    let mut cmd = cmd_from(&["foo", "bar"]);
    cmd.rm_grapheme_at(at(0, 0));
    assert_eq!(cmd, cmd_from(&["oo", "bar"]));
    cmd.rm_grapheme_at(at(2, 0));
    assert_eq!(cmd, cmd_from(&["oobar"]));
    cmd.rm_grapheme_at(at(5, 0));
    assert_eq!(cmd, cmd_from(&["oobar"]));
    let mut none = Cmd::from_lines(vec![]);
    none.rm_grapheme_at(at(0, 0));
    assert!(none.is_empty());
}

#[test]
fn end_of_cmd_is_behind_the_last_cluster() {
    assert_eq!(cmd_from(&["ab", "cde"]).end_of_cmd(), at(3, 1));
    assert_eq!(Cmd::default().end_of_cmd(), at(0, 0));
    assert_eq!(Cmd::from_lines(vec![]).end_of_cmd(), Coords::origin());
    assert!(Coords::origin().is_origin());
    assert!(!at(0, 1).is_origin());
}

#[test]
fn flags_of_a_position() {
    let cmd = cmd_from(&["ab", "cde"]);
    let dims = Dims { width: 10, height: 2 };
    let flags = at(3, 1).flags(dims, 2, &cmd);
    assert_eq!(
        flags,
        CursorFlags {
            is_top_cmd_line: false,
            is_bottom_cmd_line: true,
            is_start_of_cmd_line: false,
            is_end_of_cmd_line: true,
            is_top_editor_row: false,
            is_bottom_editor_row: false,
            is_leftmost_editor_column: false,
            is_rightmost_editor_column: false,
        }
    );
    let flags = at(0, 0).flags(dims, 2, &cmd);
    assert!(flags.is_top_cmd_line && flags.is_start_of_cmd_line && flags.is_top_editor_row);
    assert!(flags.is_leftmost_editor_column && !flags.is_bottom_cmd_line);
    assert!(at(9, 2).flags(dims, 2, &cmd).is_rightmost_editor_column);
    assert!(at(9, 2).flags(dims, 2, &cmd).is_bottom_editor_row);
}

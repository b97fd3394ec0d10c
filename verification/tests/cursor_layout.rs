use repl_block::cmd::Cmd;
use repl_block::coords::Coords;
use repl_block::layout::{uncursor, widths_of};
use repl_block::line::{Line, LineKind};

fn cmd_from(lines: &[&str]) -> Cmd {
    Cmd::from_lines(
        lines.iter().map(|text| Line::from_parts(text.to_string(), LineKind::Start)).collect(),
    )
}

fn at(x: u16, y: u16) -> Coords {
    Coords { x, y }
}

#[test]
fn widths_of_the_rows_of_a_line() {
    let line = Line::from_parts("abcdefghijkl".to_string(), LineKind::Start);
    assert_eq!(widths_of(&line, 5, 2), vec![3, 5, 4]);
    assert_eq!(widths_of(&line, 14, 2), vec![12]);
    assert_eq!(widths_of(&line, 3, 3), vec![3, 3, 3, 3]);
    let empty = Line::new_start();
    assert_eq!(widths_of(&empty, 5, 2), vec![0]);
    let overflow = Line::from_parts("abcdefg".to_string(), LineKind::Overflow);
    assert_eq!(widths_of(&overflow, 3, 2), vec![3, 3, 1]);
}

#[test]
fn uncursor_on_the_first_row_stands_behind_the_prompt() {
    let cmd = cmd_from(&["hello"]);
    assert_eq!(uncursor(&cmd, at(0, 0), 20, 3), Some(at(3, 0)));
    assert_eq!(uncursor(&cmd, at(5, 0), 20, 3), Some(at(8, 0)));
}

#[test]
fn uncursor_walks_into_continuation_rows() {
    // rows: "abc" (behind a prompt of 2), "defgh", "ijkl"
    let cmd = cmd_from(&["abcdefghijkl"]);
    assert_eq!(uncursor(&cmd, at(3, 0), 5, 2), Some(at(5, 0)));
    assert_eq!(uncursor(&cmd, at(4, 0), 5, 2), Some(at(1, 1)));
    assert_eq!(uncursor(&cmd, at(8, 0), 5, 2), Some(at(5, 1)));
    assert_eq!(uncursor(&cmd, at(9, 0), 5, 2), Some(at(1, 2)));
    assert_eq!(uncursor(&cmd, at(12, 0), 5, 2), Some(at(4, 2)));
}

#[test]
fn uncursor_counts_the_rows_of_the_lines_above() {
    let cmd = cmd_from(&["abcdefgh", "", "xyz"]);
    // "abc", "defgh", "", "xyz"
    assert_eq!(uncursor(&cmd, at(0, 1), 5, 2), Some(at(2, 2)));
    assert_eq!(uncursor(&cmd, at(2, 2), 5, 2), Some(at(4, 3)));
}

#[test]
fn uncursor_of_the_wrap_example() {
    let text: String = "x".repeat(175);
    let cmd = cmd_from(&[&text]);
    assert_eq!(uncursor(&cmd, at(175, 0), 100, 3), Some(at(78, 1)));
    assert_eq!(uncursor(&cmd, at(97, 0), 100, 3), Some(at(100, 0)));
    assert_eq!(uncursor(&cmd, at(98, 0), 100, 3), Some(at(1, 1)));
}

#[test]
fn uncursor_has_no_place_outside_the_cmd() {
    let cmd = cmd_from(&["abc"]);
    assert_eq!(uncursor(&cmd, at(0, 1), 10, 2), None);
    assert_eq!(uncursor(&cmd, at(4, 0), 10, 2), None);
    assert_eq!(uncursor(&Cmd::from_lines(vec![]), at(0, 0), 10, 2), None);
}

#[test]
fn visual_cursor_stays_in_the_area() {
    let cmd = cmd_from(&["", "one", "a longer line of text, e\u{301}tude done", "x"]);
    for prompt_len in 0u16..4 {
        for width in (prompt_len + 1)..30 {
            let rows = cmd.uncompress(width, prompt_len);
            for y in 0..cmd.len() {
                let count = cmd.line(y).count_graphemes();
                for x in 0..=count {
                    let place = uncursor(&cmd, at(x, y as u16), width, prompt_len).unwrap();
                    assert!((place.y as usize) < rows.len());
                    assert!(place.x <= width);
                    let cap = width - prompt_len;
                    let ends_full_row = x >= cap && (x - cap) % width == 0;
                    if !ends_full_row {
                        assert!(place.x < width);
                    }
                }
            }
        }
    }
}

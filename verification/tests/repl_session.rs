use repl_block::cmd::Cmd;
use repl_block::coords::{Coords, Dims};
use repl_block::history::{HistIdx, History};
use repl_block::key::{command_for, Command, KeyCode, KeyEvent, Modifiers};
use repl_block::line::{Line, LineKind};
use repl_block::render::DrawOp;
use repl_block::repl::{Action, Session};
use repl_block::state::State;

const WIDTH: u16 = 80;
const PROMPT: u16 = 3;
const SEARCH_PROMPT: u16 = 16;

fn cmd_from(lines: &[&str]) -> Cmd {
    Cmd::from_lines(
        lines.iter().map(|text| Line::from_parts(text.to_string(), LineKind::Start)).collect(),
    )
}

fn history_of(texts: &[&str]) -> History {
    History::from_cmds(texts.iter().map(|text| cmd_from(&[text])).collect())
}

fn at(x: u16, y: u16) -> Coords {
    Coords { x, y }
}

fn plain(code: KeyCode) -> KeyEvent {
    KeyEvent { modifiers: Modifiers::Plain, code, pressed: true }
}

fn ctrl(c: char) -> KeyEvent {
    KeyEvent { modifiers: Modifiers::Control, code: KeyCode::Char(c), pressed: true }
}

fn press(session: &mut Session, key: KeyEvent) -> Action {
    session.dispatch_key_event(key, WIDTH)
}

fn type_text(session: &mut Session, text: &str) {
    for c in text.chars() {
        assert!(matches!(press(session, plain(KeyCode::Char(c))), Action::Continue));
    }
}

fn session_with(texts: &[&str]) -> Session {
    Session::new(history_of(texts), PROMPT, SEARCH_PROMPT)
}

fn shown(session: &Session) -> String {
    session.state().shown().to_source_code()
}

#[test]
fn a_new_session_edits_one_empty_line() {
    let session = session_with(&[]);
    assert!(matches!(session.state(), State::Edit { .. }));
    assert_eq!(session.state().shown(), &Cmd::default());
    assert_eq!(session.state().cursor(), at(0, 0));
    assert_eq!(session.height(), 1);
    assert_eq!(session.prompt_len(), PROMPT);
    assert_eq!(session.search_prompt_len(), SEARCH_PROMPT);
    assert_eq!(session.history().len(), 0);
    assert_eq!(session.input_area_dims(WIDTH), Dims { width: WIDTH, height: 1 });
}

#[test]
fn line_merge_on_backspace() {
    let mut session = session_with(&[]);
    type_text(&mut session, "foo");
    press(&mut session, ctrl('o'));
    type_text(&mut session, "bar");
    for _ in 0..3 {
        press(&mut session, plain(KeyCode::Left));
    }
    assert_eq!(session.state().shown(), &cmd_from(&["foo", "bar"]));
    assert_eq!(session.state().cursor(), at(0, 1));
    press(&mut session, plain(KeyCode::Backspace));
    assert_eq!(session.state().shown(), &cmd_from(&["foobar"]));
    assert_eq!(session.state().cursor(), at(3, 0));
}

#[test]
fn split_on_ctrl_o() {
    let mut session = session_with(&[]);
    type_text(&mut session, "hello");
    for _ in 0..3 {
        press(&mut session, ctrl('b'));
    }
    assert_eq!(session.state().cursor(), at(2, 0));
    press(&mut session, ctrl('o'));
    assert_eq!(session.state().shown(), &cmd_from(&["he", "llo"]));
    assert_eq!(session.state().cursor(), at(0, 1));
}

#[test]
fn shift_enter_splits_too() {
    let mut session = session_with(&[]);
    type_text(&mut session, "ab");
    press(
        &mut session,
        KeyEvent { modifiers: Modifiers::Shift, code: KeyCode::Enter, pressed: true },
    );
    assert_eq!(session.state().shown(), &cmd_from(&["ab", ""]));
    assert_eq!(session.state().cursor(), at(0, 1));
}

#[test]
fn history_navigation_loop() {
    let mut session = session_with(&["A", "B", "C"]);
    let mut previews = Vec::new();
    for _ in 0..4 {
        press(&mut session, plain(KeyCode::Up));
        assert!(matches!(session.state(), State::Navigate { .. }));
        previews.push(shown(&session));
    }
    assert_eq!(previews, vec!["C", "B", "A", "A"]);
    press(&mut session, plain(KeyCode::Down));
    assert_eq!(shown(&session), "B");
    press(&mut session, ctrl('n'));
    assert_eq!(shown(&session), "C");
    press(&mut session, plain(KeyCode::Down));
    assert!(matches!(session.state(), State::Edit { .. }));
    assert_eq!(session.state().shown(), &Cmd::default());
    assert_eq!(session.state().cursor(), at(0, 0));
}

#[test]
fn history_up_puts_the_cursor_at_the_end_of_the_preview() {
    let mut session = session_with(&["first", "second one"]);
    type_text(&mut session, "draft");
    press(&mut session, ctrl('p'));
    match session.state() {
        State::Navigate { hidx, backup, preview, cursor } => {
            assert_eq!(*hidx, HistIdx(1));
            assert_eq!(backup, &cmd_from(&["draft"]));
            assert_eq!(preview, &cmd_from(&["second one"]));
            assert_eq!(*cursor, at(10, 0));
        },
        other => panic!("not navigating: {other:?}"),
    }
    press(&mut session, ctrl('g'));
    assert!(matches!(session.state(), State::Edit { .. }));
    assert_eq!(session.state().shown(), &cmd_from(&["draft"]));
    assert_eq!(session.state().cursor(), at(5, 0));
}

#[test]
fn history_up_without_history_does_nothing() {
    let mut session = session_with(&[]);
    type_text(&mut session, "x");
    press(&mut session, plain(KeyCode::Up));
    assert!(matches!(session.state(), State::Edit { .. }));
    assert_eq!(session.state().shown(), &cmd_from(&["x"]));
    press(&mut session, plain(KeyCode::Down));
    assert_eq!(session.state().shown(), &cmd_from(&["x"]));
    assert_eq!(session.state().cursor(), at(1, 0));
}

#[test]
fn typing_into_a_preview_edits_it() {
    let mut session = session_with(&["abc"]);
    press(&mut session, plain(KeyCode::Up));
    type_text(&mut session, "d");
    assert!(matches!(session.state(), State::Edit { .. }));
    assert_eq!(session.state().shown(), &cmd_from(&["abcd"]));
    assert_eq!(session.state().cursor(), at(4, 0));
    assert_eq!(session.history().len(), 1);
}

#[test]
fn up_and_down_move_inside_a_cmd_and_clamp_the_column() {
    let mut session = session_with(&["older"]);
    type_text(&mut session, "long line");
    press(&mut session, ctrl('o'));
    type_text(&mut session, "ab");
    press(&mut session, ctrl('o'));
    type_text(&mut session, "third line");
    assert_eq!(session.state().cursor(), at(10, 2));
    press(&mut session, plain(KeyCode::Up));
    assert_eq!(session.state().cursor(), at(2, 1));
    press(&mut session, plain(KeyCode::Up));
    assert_eq!(session.state().cursor(), at(2, 0));
    press(&mut session, plain(KeyCode::Down));
    press(&mut session, plain(KeyCode::Down));
    assert_eq!(session.state().cursor(), at(2, 2));
    assert!(matches!(session.state(), State::Edit { .. }));
}

#[test]
fn left_and_right_wrap_between_lines() {
    let mut session = session_with(&[]);
    type_text(&mut session, "ab");
    press(&mut session, ctrl('o'));
    type_text(&mut session, "c");
    press(&mut session, plain(KeyCode::Right));
    assert_eq!(session.state().cursor(), at(1, 1));
    press(&mut session, plain(KeyCode::Left));
    press(&mut session, plain(KeyCode::Left));
    assert_eq!(session.state().cursor(), at(2, 0));
    press(&mut session, ctrl('f'));
    assert_eq!(session.state().cursor(), at(0, 1));
    press(&mut session, plain(KeyCode::Home));
    assert_eq!(session.state().cursor(), at(0, 0));
    press(&mut session, plain(KeyCode::Left));
    assert_eq!(session.state().cursor(), at(0, 0));
    press(&mut session, plain(KeyCode::End));
    assert_eq!(session.state().cursor(), at(1, 1));
    press(&mut session, ctrl('a'));
    assert_eq!(session.state().cursor(), at(0, 0));
    press(&mut session, ctrl('e'));
    assert_eq!(session.state().cursor(), at(1, 1));
}

#[test]
fn delete_absorbs_the_next_line() {
    let mut session = session_with(&[]);
    type_text(&mut session, "ab");
    press(&mut session, ctrl('o'));
    type_text(&mut session, "cd");
    press(&mut session, plain(KeyCode::Up));
    assert_eq!(session.state().cursor(), at(2, 0));
    press(&mut session, plain(KeyCode::Delete));
    assert_eq!(session.state().shown(), &cmd_from(&["abcd"]));
    assert_eq!(session.state().cursor(), at(2, 0));
    press(&mut session, plain(KeyCode::Delete));
    assert_eq!(session.state().shown(), &cmd_from(&["abd"]));
    press(&mut session, plain(KeyCode::End));
    press(&mut session, plain(KeyCode::Delete));
    assert_eq!(session.state().shown(), &cmd_from(&["abd"]));
}

#[test]
fn backspace_at_the_origin_does_nothing() {
    let mut session = session_with(&[]);
    press(&mut session, plain(KeyCode::Backspace));
    assert_eq!(session.state().shown(), &Cmd::default());
    assert_eq!(session.state().cursor(), at(0, 0));
}

#[test]
fn reverse_search() {
    let mut session = session_with(&["print 1", "print 2", "draw 3"]);
    press(&mut session, ctrl('r'));
    match session.state() {
        State::Search { regex, preview, cursor, matches, current, .. } => {
            assert_eq!(regex, "");
            assert_eq!(preview.to_source_code(), "draw 3");
            assert_eq!(*cursor, at(SEARCH_PROMPT, 0));
            assert_eq!(matches, &vec![HistIdx(2), HistIdx(1), HistIdx(0)]);
            assert_eq!(*current, 0);
        },
        other => panic!("not searching: {other:?}"),
    }
    type_text(&mut session, "pri");
    assert_eq!(session.state().pattern(), "pri");
    assert_eq!(shown(&session), "print 2");
    assert_eq!(session.state().cursor(), at(SEARCH_PROMPT + 3, 0));
    press(&mut session, plain(KeyCode::Up));
    assert_eq!(shown(&session), "print 1");
    press(&mut session, plain(KeyCode::Backspace));
    assert_eq!(session.state().pattern(), "pr");
    assert_eq!(shown(&session), "print 1");
    match press(&mut session, plain(KeyCode::Enter)) {
        Action::Evaluate(source) => assert_eq!(source, "print 1"),
        other => panic!("nothing to evaluate: {other:?}"),
    }
    assert_eq!(session.history().len(), 4);
    assert_eq!(session.history().get(HistIdx(3)), &cmd_from(&["print 1"]));
    assert_eq!(session.state().shown(), &Cmd::default());
}

#[test]
fn search_steps_through_the_matches_and_stops_at_both_ends() {
    let mut session = session_with(&["aa", "ab", "zz", "ac"]);
    press(&mut session, ctrl('r'));
    type_text(&mut session, "a");
    assert_eq!(shown(&session), "ac");
    press(&mut session, plain(KeyCode::Down));
    assert_eq!(shown(&session), "ac");
    press(&mut session, plain(KeyCode::Up));
    assert_eq!(shown(&session), "ab");
    press(&mut session, plain(KeyCode::Up));
    assert_eq!(shown(&session), "aa");
    press(&mut session, plain(KeyCode::Up));
    assert_eq!(shown(&session), "aa");
    press(&mut session, plain(KeyCode::Down));
    assert_eq!(shown(&session), "ab");
    // typing starts again from the newest match
    type_text(&mut session, "c");
    assert_eq!(shown(&session), "ac");
    // with nothing found the default cmd is shown
    type_text(&mut session, "x");
    assert_eq!(session.state().shown(), &Cmd::default());
    press(&mut session, plain(KeyCode::Up));
    assert_eq!(session.state().shown(), &Cmd::default());
}

#[test]
fn search_cursor_moves_within_the_pattern() {
    let mut session = session_with(&["abc"]);
    press(&mut session, ctrl('r'));
    type_text(&mut session, "ac");
    press(&mut session, plain(KeyCode::Right));
    assert_eq!(session.state().cursor(), at(SEARCH_PROMPT + 2, 0));
    press(&mut session, plain(KeyCode::Left));
    type_text(&mut session, "b");
    assert_eq!(session.state().pattern(), "abc");
    assert_eq!(shown(&session), "abc");
    press(&mut session, plain(KeyCode::Home));
    assert_eq!(session.state().cursor(), at(SEARCH_PROMPT, 0));
    press(&mut session, plain(KeyCode::Left));
    assert_eq!(session.state().cursor(), at(SEARCH_PROMPT, 0));
    press(&mut session, plain(KeyCode::Backspace));
    assert_eq!(session.state().pattern(), "abc");
    press(&mut session, plain(KeyCode::Delete));
    assert_eq!(session.state().pattern(), "bc");
    press(&mut session, plain(KeyCode::End));
    assert_eq!(session.state().cursor(), at(SEARCH_PROMPT + 2, 0));
    press(&mut session, plain(KeyCode::Delete));
    assert_eq!(session.state().pattern(), "bc");
    press(&mut session, ctrl('o'));
    assert_eq!(session.state().pattern(), "bc");
    assert!(matches!(session.state(), State::Search { .. }));
}

#[test]
fn search_pattern_has_no_room_in_a_narrow_terminal() {
    let mut session = session_with(&["abc"]);
    press(&mut session, ctrl('r'));
    let width = SEARCH_PROMPT + 3;
    for c in "abcd".chars() {
        session.dispatch_key_event(plain(KeyCode::Char(c)), width);
    }
    assert_eq!(session.state().pattern(), "ab");
    session.dispatch_key_event(plain(KeyCode::Char('c')), SEARCH_PROMPT);
    assert_eq!(session.state().pattern(), "ab");
}

#[test]
fn a_bad_pattern_matches_nothing() {
    let mut session = session_with(&["abc", "("]);
    press(&mut session, ctrl('r'));
    type_text(&mut session, "(");
    assert_eq!(session.state().pattern(), "(");
    assert_eq!(session.state().shown(), &Cmd::default());
    type_text(&mut session, "a)");
    assert_eq!(shown(&session), "abc");
}

#[test]
fn ctrl_g_leaves_the_search() {
    let mut session = session_with(&["abc"]);
    type_text(&mut session, "mine");
    press(&mut session, ctrl('r'));
    type_text(&mut session, "b");
    press(&mut session, ctrl('g'));
    assert!(matches!(session.state(), State::Edit { .. }));
    assert_eq!(session.state().shown(), &cmd_from(&["mine"]));
    assert_eq!(session.state().cursor(), at(4, 0));
    press(&mut session, ctrl('g'));
    assert_eq!(session.state().shown(), &cmd_from(&["mine"]));
}

#[test]
fn search_from_navigation_keeps_the_backup() {
    let mut session = session_with(&["abc", "xyz"]);
    type_text(&mut session, "mine");
    press(&mut session, plain(KeyCode::Up));
    press(&mut session, ctrl('r'));
    match session.state() {
        State::Search { backup, .. } => assert_eq!(backup, &cmd_from(&["mine"])),
        other => panic!("not searching: {other:?}"),
    }
}

#[test]
fn enter_on_an_empty_buffer_does_nothing() {
    let mut session = session_with(&[]);
    assert!(matches!(press(&mut session, plain(KeyCode::Enter)), Action::Continue));
    press(&mut session, ctrl('o'));
    assert!(matches!(press(&mut session, plain(KeyCode::Enter)), Action::Continue));
    assert_eq!(session.history().len(), 0);
    assert_eq!(session.state().shown(), &cmd_from(&["", ""]));
}

#[test]
fn enter_hands_out_the_source_and_fills_the_history() {
    let mut session = session_with(&[]);
    type_text(&mut session, "a");
    press(&mut session, ctrl('o'));
    press(&mut session, ctrl('o'));
    type_text(&mut session, "b");
    match press(&mut session, plain(KeyCode::Enter)) {
        Action::Evaluate(source) => assert_eq!(source, "a\nb"),
        other => panic!("nothing to evaluate: {other:?}"),
    }
    assert_eq!(session.history().len(), 1);
    assert_eq!(session.history().get(HistIdx(0)), &cmd_from(&["a", "", "b"]));
    assert_eq!(session.state().shown(), &Cmd::default());
    assert_eq!(session.state().cursor(), at(1, 2));
    session.finish_eval();
    assert_eq!(session.state().cursor(), at(0, 0));
    assert_eq!(session.height(), 1);
}

#[test]
fn ctrl_d_exits_and_ctrl_c_does_nothing() {
    let mut session = session_with(&[]);
    type_text(&mut session, "x");
    assert!(matches!(press(&mut session, ctrl('c')), Action::Continue));
    assert!(matches!(press(&mut session, ctrl('d')), Action::Exit));
    assert_eq!(session.state().shown(), &cmd_from(&["x"]));
}

#[test]
fn bindings() {
    assert_eq!(command_for(ctrl('c')), Command::Nop);
    assert_eq!(command_for(ctrl('d')), Command::ExitRepl);
    assert_eq!(command_for(ctrl('g')), Command::CancelNav);
    assert_eq!(command_for(plain(KeyCode::Enter)), Command::Eval);
    assert_eq!(command_for(ctrl('p')), Command::NavUp);
    assert_eq!(command_for(plain(KeyCode::Up)), Command::NavUp);
    assert_eq!(command_for(ctrl('n')), Command::NavDown);
    assert_eq!(command_for(plain(KeyCode::Down)), Command::NavDown);
    assert_eq!(command_for(ctrl('b')), Command::NavCmdLeft);
    assert_eq!(command_for(plain(KeyCode::Left)), Command::NavCmdLeft);
    assert_eq!(command_for(ctrl('f')), Command::NavCmdRight);
    assert_eq!(command_for(plain(KeyCode::Right)), Command::NavCmdRight);
    assert_eq!(command_for(ctrl('a')), Command::NavToStartOfCmd);
    assert_eq!(command_for(plain(KeyCode::Home)), Command::NavToStartOfCmd);
    assert_eq!(command_for(ctrl('e')), Command::NavToEndOfCmd);
    assert_eq!(command_for(plain(KeyCode::End)), Command::NavToEndOfCmd);
    assert_eq!(command_for(ctrl('r')), Command::ReverseSearchHistory);
    assert_eq!(command_for(ctrl('o')), Command::InsertNewline);
    assert_eq!(command_for(plain(KeyCode::Backspace)), Command::RmGraphemeBeforeCursor);
    assert_eq!(command_for(plain(KeyCode::Delete)), Command::RmGraphemeAtCursor);
    assert_eq!(command_for(plain(KeyCode::Char('c'))), Command::InsertChar('c'));
    let shift = |code| KeyEvent { modifiers: Modifiers::Shift, code, pressed: true };
    assert_eq!(command_for(shift(KeyCode::Char('C'))), Command::InsertChar('C'));
    assert_eq!(command_for(shift(KeyCode::Enter)), Command::InsertNewline);
    assert_eq!(command_for(shift(KeyCode::Up)), Command::Ignore);
    assert_eq!(command_for(ctrl('x')), Command::Ignore);
    assert_eq!(command_for(plain(KeyCode::Other)), Command::Ignore);
    let other = KeyEvent { modifiers: Modifiers::Other, code: KeyCode::Char('c'), pressed: true };
    assert_eq!(command_for(other), Command::Ignore);
    let released = KeyEvent { modifiers: Modifiers::Plain, code: KeyCode::Enter, pressed: false };
    assert_eq!(command_for(released), Command::Ignore);
}

#[test]
fn monotone_height() {
    let term = Dims { width: 20, height: 24 };
    let mut session = Session::new(History::default(), 2, SEARCH_PROMPT);
    let mut heights = Vec::new();
    for c in "abcdefghijklmnopqrstuvwxy".chars() {
        let old_height = session.height();
        session.dispatch_key_event(plain(KeyCode::Char(c)), term.width);
        assert!(session.render_ui(old_height, term).is_some());
        heights.push(session.height());
    }
    assert_eq!(heights[..18], [1; 18]);
    assert_eq!(heights[18..], [2; 7]);
    for _ in 0..15 {
        let old_height = session.height();
        session.dispatch_key_event(plain(KeyCode::Backspace), term.width);
        assert!(session.render_ui(old_height, term).is_some());
        assert_eq!(session.height(), 2);
    }
    assert_eq!(session.state().shown(), &cmd_from(&["abcdefghij"]));
    let old_height = session.height();
    assert!(matches!(
        session.dispatch_key_event(plain(KeyCode::Enter), term.width),
        Action::Evaluate(_)
    ));
    session.finish_eval();
    assert_eq!(session.height(), 1);
    let frame = session.render_ui(old_height, term).unwrap();
    assert_eq!(session.height(), 1);
    assert!(!frame.ops.contains(&DrawOp::ScrollUp));
}

#[test]
fn render_of_one_short_line() {
    let term = Dims { width: 20, height: 24 };
    let mut session = Session::new(History::default(), 2, SEARCH_PROMPT);
    type_text(&mut session, "hi");
    let frame = session.render_ui(1, term).unwrap();
    assert_eq!(frame.rows, cmd_from(&["hi"]));
    assert_eq!(frame.pattern, "");
    let origin = at(0, 23);
    assert_eq!(
        frame.ops,
        vec![
            DrawOp::MoveTo(origin),
            DrawOp::ClearLine,
            DrawOp::MoveDown,
            DrawOp::MoveTo(origin),
            DrawOp::MoveTo(origin),
            DrawOp::MoveToColumn(0),
            DrawOp::DefaultPrompt,
            DrawOp::Row(0),
            DrawOp::MoveDown,
            DrawOp::MoveToColumn(0),
            DrawOp::MoveToColumn(4),
            DrawOp::MoveToRow(23),
            DrawOp::Flush,
        ]
    );
}

#[test]
fn render_scrolls_for_new_rows_and_draws_prompts() {
    let term = Dims { width: 6, height: 10 };
    let mut session = Session::new(History::default(), 2, SEARCH_PROMPT);
    type_text(&mut session, "abcdef");
    session.dispatch_key_event(ctrl('o'), term.width);
    type_text(&mut session, "x");
    let frame = session.render_ui(1, term).unwrap();
    assert_eq!(session.height(), 3);
    let rows = Cmd::from_lines(vec![
        Line::from_parts("abcd".to_string(), LineKind::Start),
        Line::from_parts("ef".to_string(), LineKind::Overflow),
        Line::from_parts("x".to_string(), LineKind::Start),
    ]);
    assert_eq!(frame.rows, rows);
    let origin = at(0, 7);
    assert_eq!(
        frame.ops,
        vec![
            DrawOp::ScrollUp,
            DrawOp::ScrollUp,
            DrawOp::MoveTo(origin),
            DrawOp::ClearLine,
            DrawOp::MoveDown,
            DrawOp::ClearLine,
            DrawOp::MoveDown,
            DrawOp::ClearLine,
            DrawOp::MoveDown,
            DrawOp::MoveTo(origin),
            DrawOp::MoveTo(origin),
            DrawOp::MoveToColumn(0),
            DrawOp::DefaultPrompt,
            DrawOp::Row(0),
            DrawOp::MoveDown,
            DrawOp::MoveToColumn(0),
            DrawOp::Row(1),
            DrawOp::MoveDown,
            DrawOp::MoveToColumn(0),
            DrawOp::MoveToColumn(0),
            DrawOp::ContinuePrompt,
            DrawOp::Row(2),
            DrawOp::MoveDown,
            DrawOp::MoveToColumn(0),
            DrawOp::MoveToColumn(3),
            DrawOp::MoveToRow(9),
            DrawOp::Flush,
        ]
    );
}

#[test]
fn render_of_a_search_has_a_line_for_the_pattern() {
    let term = Dims { width: 40, height: 10 };
    let mut session = session_with(&["abc"]);
    press(&mut session, ctrl('r'));
    type_text(&mut session, "b");
    let frame = session.render_ui(1, term).unwrap();
    assert_eq!(session.height(), 2);
    assert_eq!(frame.pattern, "b");
    assert_eq!(frame.rows, cmd_from(&["abc"]));
    let origin = at(0, 8);
    assert_eq!(
        frame.ops,
        vec![
            DrawOp::ScrollUp,
            DrawOp::MoveTo(origin),
            DrawOp::ClearLine,
            DrawOp::MoveDown,
            DrawOp::ClearLine,
            DrawOp::MoveDown,
            DrawOp::MoveTo(origin),
            DrawOp::MoveTo(origin),
            DrawOp::MoveToColumn(0),
            DrawOp::DefaultPrompt,
            DrawOp::Row(0),
            DrawOp::MoveDown,
            DrawOp::MoveToColumn(0),
            DrawOp::MoveTo(at(0, 9)),
            DrawOp::SearchPrompt,
            DrawOp::Pattern,
            DrawOp::MoveToColumn(SEARCH_PROMPT + 1),
            DrawOp::MoveToRow(9),
            DrawOp::Flush,
        ]
    );
}

#[test]
fn render_refuses_what_cannot_be_drawn() {
    let mut session = Session::new(History::default(), 2, SEARCH_PROMPT);
    type_text(&mut session, "abcdefgh");
    assert!(session.render_ui(1, Dims { width: 0, height: 10 }).is_none());
    assert!(session.render_ui(1, Dims { width: 3, height: 2 }).is_none());
    assert_eq!(session.height(), 1);
    // a cursor behind the end of its line has no place
    let mut session = Session::new(History::default(), 2, SEARCH_PROMPT);
    type_text(&mut session, "e\u{301}");
    assert_eq!(session.state().cursor(), at(2, 0));
    assert!(session.render_ui(1, Dims { width: 20, height: 10 }).is_none());
}

#[test]
fn an_edit_of_the_pattern_that_leaves_fewer_matches_shows_the_last() {
    let mut session = session_with(&["ab", "ac", "b"]);
    press(&mut session, ctrl('r'));
    type_text(&mut session, "ab?");
    press(&mut session, plain(KeyCode::Up));
    match session.state() {
        State::Search { matches, current, preview, .. } => {
            assert_eq!(matches, &vec![HistIdx(1), HistIdx(0)]);
            assert_eq!(*current, 1);
            assert_eq!(preview, &cmd_from(&["ab"]));
        },
        other => panic!("not searching: {other:?}"),
    }
    press(&mut session, plain(KeyCode::Backspace));
    match session.state() {
        State::Search { regex, matches, current, preview, cursor, .. } => {
            assert_eq!(regex, "ab");
            assert_eq!(matches, &vec![HistIdx(0)]);
            assert_eq!(*current, 0);
            assert_eq!(preview, &cmd_from(&["ab"]));
            assert_eq!(*cursor, at(SEARCH_PROMPT + 2, 0));
        },
        other => panic!("not searching: {other:?}"),
    }
}

#[test]
fn delete_in_the_pattern_that_leaves_fewer_matches_shows_the_last() {
    let mut session = session_with(&["xa", "a", "ya"]);
    press(&mut session, ctrl('r'));
    type_text(&mut session, "x?a");
    press(&mut session, plain(KeyCode::Up));
    press(&mut session, plain(KeyCode::Up));
    assert_eq!(shown(&session), "xa");
    press(&mut session, plain(KeyCode::Left));
    press(&mut session, plain(KeyCode::Left));
    press(&mut session, plain(KeyCode::Delete));
    match session.state() {
        State::Search { regex, matches, current, preview, .. } => {
            assert_eq!(regex, "xa");
            assert_eq!(matches, &vec![HistIdx(0)]);
            assert_eq!(*current, 0);
            assert_eq!(preview, &cmd_from(&["xa"]));
        },
        other => panic!("not searching: {other:?}"),
    }
}

#[test]
fn apply_search_shows_the_match_in_the_same_place_or_the_last() {
    let mut session = session_with(&["a", "b", "c", "d"]);
    press(&mut session, ctrl('r'));
    press(&mut session, plain(KeyCode::Up));
    press(&mut session, plain(KeyCode::Up));
    assert_eq!(shown(&session), "b");
    let cursor = at(SEARCH_PROMPT + 1, 0);
    // the match in place 2 of the new result
    session.apply_search("x".to_string(), cursor, vec![HistIdx(3), HistIdx(1), HistIdx(0)], false);
    assert_eq!(shown(&session), "a");
    assert_eq!(session.state().pattern(), "x");
    assert_eq!(session.state().cursor(), cursor);
    // fewer matches than that: the last of them
    session.apply_search("y".to_string(), cursor, vec![HistIdx(2), HistIdx(3)], false);
    assert_eq!(shown(&session), "d");
    match session.state() {
        State::Search { current, matches, .. } => {
            assert_eq!(*current, 1);
            assert_eq!(matches, &vec![HistIdx(2), HistIdx(3)]);
        },
        other => panic!("not searching: {other:?}"),
    }
    // nothing matches: the default cmd, and the place is kept
    session.apply_search("z".to_string(), cursor, vec![], false);
    assert_eq!(session.state().shown(), &Cmd::default());
    assert_eq!(session.state().pattern(), "z");
    // from the first
    session.apply_search("w".to_string(), cursor, vec![HistIdx(1), HistIdx(0)], true);
    assert_eq!(shown(&session), "b");
    // outside a search nothing happens
    press(&mut session, ctrl('g'));
    session.apply_search("v".to_string(), cursor, vec![HistIdx(0)], true);
    assert!(matches!(session.state(), State::Edit { .. }));
}

//! The editor behind the prompt: its state, and what each command does to
//! it.

use crate::cmd::{empty_start, source_code, wrap_all, Cmd};
use crate::coords::{Coords, Dims};
use crate::history::{
    hits, in_history, lemma_hits_in_range, match_flags, HistIdx, History,
};
use crate::key::{binding, command_for, Command, KeyEvent};
use crate::layout::{uncursor_in, visual_cursor};
use crate::line::LineView;
use crate::render::{draw_frame, frame_drawn, repeated, DrawOp};
use crate::state::{
    backspace_in_pattern, delete_in_pattern, pattern_backspaced, pattern_deleted, pattern_typed,
    type_into_pattern, State, StateView,
};
use vstd::prelude::*;

verus! {

/// The editor: what it is doing, how many rows of the terminal it has
/// taken, and the commands that were run.
#[derive(Debug)]
pub struct Session {
    state: State,
    height: u16,
    history: History,
    prompt_len: u16,
    search_prompt_len: u16,
}

/// The mathematical value of a [`Session`].
#[verifier::ext_equal]
pub struct SessionView {
    pub state: StateView,
    /// The height of the input area, in rows.
    pub height: u16,
    pub history: Seq<Seq<LineView>>,
    /// The width of the prompt in front of a logical line.
    pub prompt_len: u16,
    /// The width of the prompt in front of the pattern of a search.
    pub search_prompt_len: u16,
}

impl SessionView {
    /// The session in another state.
    pub open spec fn with_state(self, state: StateView) -> SessionView {
        SessionView { state, ..self }
    }

    /// The rows of the command on the screen, in a terminal `width`
    /// columns wide.
    pub open spec fn rows(self, width: u16) -> Seq<LineView> {
        wrap_all(self.state.shown(), width as int, self.prompt_len as int)
    }

    /// The rows that the input area needs: those of the command, and in a
    /// search one more for the pattern.
    pub open spec fn content_height(self, width: u16) -> int {
        self.rows(width).len() + if self.state is Search { 1int } else { 0 }
    }

    /// The height of the input area after it was drawn: it grows to what
    /// the content needs, and does not shrink.
    pub open spec fn grown(self, width: u16) -> int {
        if self.height >= self.content_height(width) {
            self.height as int
        } else {
            self.content_height(width)
        }
    }

    /// The first cell of the input area, which lies at the bottom of the
    /// terminal.
    pub open spec fn origin(self, term: Dims) -> Coords {
        Coords { x: 0, y: (term.height - self.grown(term.width)) as u16 }
    }

    /// The cell of the terminal in which the cursor is drawn: in a search,
    /// on the line of the pattern, which is the last of the input area;
    /// else where it stands among the rows of the command.
    pub open spec fn drawn_cursor(self, term: Dims) -> Option<Coords> {
        match self.state {
            StateView::Search { cursor, .. } => Some(
                Coords { x: cursor.x, y: (term.height - 1) as u16 },
            ),
            _ => match visual_cursor(
                self.state.shown(),
                self.state.cursor(),
                term.width as int,
                self.prompt_len as int,
            ) {
                Some(at) => Some(Coords { x: at.x, y: (self.origin(term).y + at.y) as u16 }),
                None => None,
            },
        }
    }

    /// The input area can be drawn: the terminal has a column, the area is
    /// no higher than the terminal, and the cursor has a place.
    pub open spec fn drawable(self, term: Dims) -> bool {
        &&& term.width >= 1
        &&& self.grown(term.width) <= term.height
        &&& self.drawn_cursor(term) is Some
    }

    /// What is done to the terminal to draw the input area, which was
    /// `old_height` rows high before the last key: the terminal is
    /// scrolled by the rows that the content needs beyond that; the area
    /// is cleared; the rows are drawn from its first cell on; in a search,
    /// the prompt of the search and the pattern follow on its last row;
    /// the cursor is put to its place.
    pub open spec fn frame_ops(self, old_height: u16, term: Dims) -> Seq<DrawOp> {
        frame_drawn(
            self.content_height(term.width) - old_height,
            self.origin(term),
            self.grown(term.width),
            self.rows(term.width),
            if self.state is Search {
                Some((term.height - 1) as u16)
            } else {
                None
            },
            self.drawn_cursor(term).unwrap(),
        )
    }

    /// The session after the enter key.
    pub open spec fn submitted(self) -> SessionView {
        let cmd = self.state.shown();
        if source_code(cmd).len() == 0 {
            self.with_state(self.state.coerced())
        } else {
            SessionView {
                state: StateView::Edit { buffer: seq![empty_start()], cursor: self.state.cursor() },
                history: self.history.push(cmd),
                ..self
            }
        }
    }

    /// The session after an evaluation that went well.
    pub open spec fn evaluated(self) -> SessionView {
        SessionView { state: self.state.with_cursor(Coords { x: 0, y: 0 }), height: 1, ..self }
    }

    /// `next` and `action` are what `command` makes of this session, in a
    /// terminal `width` columns wide.
    pub open spec fn performs(
        self,
        command: Command,
        width: u16,
        next: SessionView,
        action: ActionView,
    ) -> bool {
        let search_prompt_len = self.search_prompt_len;
        match command {
            Command::ExitRepl => next == self && action == ActionView::Exit,
            Command::Eval => next == self.submitted() && action == (if source_code(
                self.state.shown(),
            ).len() == 0 {
                ActionView::Continue
            } else {
                ActionView::Evaluate(source_code(self.state.shown()))
            }),
            _ => action == ActionView::Continue && match command {
                Command::CancelNav => next == self.with_state(self.state.restored()),
                Command::NavUp => next == self.with_state(self.state.up(self.history)),
                Command::NavDown => next == self.with_state(self.state.down(self.history)),
                Command::NavCmdLeft => next == self.with_state(self.state.left(search_prompt_len)),
                Command::NavCmdRight => next == self.with_state(
                    self.state.right(search_prompt_len),
                ),
                Command::NavToStartOfCmd => next == self.with_state(
                    self.state.at_start(search_prompt_len),
                ),
                Command::NavToEndOfCmd => next == self.with_state(
                    self.state.at_end(search_prompt_len),
                ),
                Command::ReverseSearchHistory => self.with_state(self.state.searching()).searched(
                    next,
                    self.state.searching().pattern(),
                    Coords { x: search_prompt_len, y: 0 },
                    true,
                ),
                Command::InsertChar(c) => match self.state {
                    StateView::Search { regex, cursor, .. } => match pattern_typed(
                        regex,
                        cursor,
                        c,
                        search_prompt_len,
                        width,
                    ) {
                        Some(edit) => self.searched(next, edit.0, edit.1, true),
                        None => next == self,
                    },
                    _ => next == self.with_state(self.state.coerced().typed(c)),
                },
                Command::InsertNewline => next == self.with_state(self.state.newline()),
                Command::RmGraphemeBeforeCursor => match self.state {
                    StateView::Search { regex, cursor, .. } => match pattern_backspaced(
                        regex,
                        cursor,
                        search_prompt_len,
                    ) {
                        Some(edit) => self.searched(next, edit.0, edit.1, false),
                        None => next == self,
                    },
                    _ => next == self.with_state(self.state.coerced().backspaced()),
                },
                Command::RmGraphemeAtCursor => match self.state {
                    StateView::Search { regex, cursor, .. } => match pattern_deleted(
                        regex,
                        cursor,
                        search_prompt_len,
                    ) {
                        Some(edit) => self.searched(next, edit.0, edit.1, false),
                        None => next == self,
                    },
                    _ => next == self.with_state(self.state.coerced().deleted()),
                },
                _ => next == self,
            },
        }
    }

    /// `next` is this session after its search was run with the pattern
    /// `regex`: the pattern matched the source texts of the commands that
    /// it matches, or it did not compile and nothing matched.
    pub open spec fn searched(
        self,
        next: SessionView,
        regex: Seq<char>,
        cursor: Coords,
        from_first: bool,
    ) -> bool {
        ||| next == self.with_state(
            self.state.found(
                regex,
                cursor,
                hits(match_flags(self.history, regex)),
                from_first,
                self.history,
            ),
        )
        ||| next == self.with_state(
            self.state.found(regex, cursor, Seq::empty(), from_first, self.history),
        )
    }
}

impl View for Session {
    type V = SessionView;

    closed spec fn view(&self) -> SessionView {
        SessionView {
            state: self.state@,
            height: self.height,
            history: self.history@,
            prompt_len: self.prompt_len,
            search_prompt_len: self.search_prompt_len,
        }
    }
}

impl Session {
    /// An editor with one empty line to edit, one row high.
    pub fn new(history: History, prompt_len: u16, search_prompt_len: u16) -> (session: Session)
        ensures
            session@ == (SessionView {
                state: StateView::Edit {
                    buffer: seq![empty_start()],
                    cursor: Coords { x: 0, y: 0 },
                },
                height: 1,
                history: history@,
                prompt_len,
                search_prompt_len,
            }),
    {
        Session { state: State::new(), height: 1, history, prompt_len, search_prompt_len }
    }

    pub fn state(&self) -> (state: &State)
        ensures
            state@ == self@.state,
    {
        &self.state
    }

    pub fn height(&self) -> (height: u16)
        ensures
            height == self@.height,
    {
        self.height
    }

    pub fn history(&self) -> (history: &History)
        ensures
            history@ == self@.history,
    {
        &self.history
    }

    pub fn prompt_len(&self) -> (len: u16)
        ensures
            len == self@.prompt_len,
    {
        self.prompt_len
    }

    pub fn search_prompt_len(&self) -> (len: u16)
        ensures
            len == self@.search_prompt_len,
    {
        self.search_prompt_len
    }

    /// Takes the state out, to put its successor in.
    fn take_state(&mut self) -> (state: State)
        ensures
            state@ == old(self)@.state,
            final(self).height == old(self).height,
            final(self).history == old(self).history,
            final(self).prompt_len == old(self).prompt_len,
            final(self).search_prompt_len == old(self).search_prompt_len,
    {
        let mut state = State::new();
        core::mem::swap(&mut self.state, &mut state);
        state
    }

    /// The key that is bound to nothing.
    pub fn cmd_nop(&mut self)
        ensures
            final(self)@ == old(self)@,
    {
    }

    /// Gives up the walk through the history, or the search.
    pub fn cmd_cancel_nav(&mut self)
        ensures
            final(self)@ == old(self)@.with_state(old(self)@.state.restored()),
    {
        let state = self.take_state();
        self.state = state.restored();
    }

    /// The cursor one line up; from the first line, and in a search, one
    /// step back in the history or the matches.
    pub fn cmd_nav_up(&mut self)
        ensures
            final(self)@ == old(self)@.with_state(old(self)@.state.up(old(self)@.history)),
    {
        let state = self.take_state();
        self.state = state.up(&self.history);
    }

    /// The cursor one line down; from the last line, and in a search, one
    /// step forth in the history or the matches.
    pub fn cmd_nav_down(&mut self)
        ensures
            final(self)@ == old(self)@.with_state(old(self)@.state.down(old(self)@.history)),
    {
        let state = self.take_state();
        self.state = state.down(&self.history);
    }

    /// One step back in the history, or to the match before.
    pub fn cmd_nav_history_up(&mut self)
        ensures
            final(self)@ == old(self)@.with_state(old(self)@.state.history_up(old(self)@.history)),
    {
        let state = self.take_state();
        self.state = state.history_up(&self.history);
    }

    /// One step forth in the history, or to the match after.
    pub fn cmd_nav_history_down(&mut self)
        ensures
            final(self)@ == old(self)@.with_state(
                old(self)@.state.history_down(old(self)@.history),
            ),
    {
        let state = self.take_state();
        self.state = state.history_down(&self.history);
    }

    /// The cursor one step to the left.
    pub fn cmd_nav_cmd_left(&mut self)
        ensures
            final(self)@ == old(self)@.with_state(
                old(self)@.state.left(old(self)@.search_prompt_len),
            ),
    {
        let state = self.take_state();
        self.state = state.left(self.search_prompt_len);
    }

    /// The cursor one step to the right.
    pub fn cmd_nav_cmd_right(&mut self)
        ensures
            final(self)@ == old(self)@.with_state(
                old(self)@.state.right(old(self)@.search_prompt_len),
            ),
    {
        let state = self.take_state();
        self.state = state.right(self.search_prompt_len);
    }

    /// The cursor to the start of the command, or of the pattern.
    pub fn cmd_nav_to_start_of_cmd(&mut self)
        ensures
            final(self)@ == old(self)@.with_state(
                old(self)@.state.at_start(old(self)@.search_prompt_len),
            ),
    {
        let state = self.take_state();
        self.state = state.at_start(self.search_prompt_len);
    }

    /// The cursor to the end of the command, or of the pattern.
    pub fn cmd_nav_to_end_of_cmd(&mut self)
        ensures
            final(self)@ == old(self)@.with_state(
                old(self)@.state.at_end(old(self)@.search_prompt_len),
            ),
    {
        let state = self.take_state();
        self.state = state.at_end(self.search_prompt_len);
    }

    /// Splits the line of the cursor. A command of the history that is
    /// shown becomes the command that is edited first; in a search the key
    /// does nothing.
    pub fn cmd_insert_newline(&mut self)
        ensures
            final(self)@ == old(self)@.with_state(old(self)@.state.newline()),
    {
        let state = self.take_state();
        self.state = if state.is_search() {
            state
        } else {
            state.coerced().split()
        };
    }

    /// The search after it was run with the pattern `regex` and found
    /// `matches` in the history: what [`StateView::found`] says.
    pub fn apply_search(
        &mut self,
        regex: String,
        cursor: Coords,
        matches: Vec<HistIdx>,
        from_first: bool,
    )
        requires
            in_history(matches@, old(self)@.history),
        ensures
            final(self)@ == old(self)@.with_state(
                old(self)@.state.found(regex@, cursor, matches@, from_first, old(self)@.history),
            ),
    {
        let state = self.take_state();
        self.state = state.found(regex, cursor, matches, from_first, &self.history);
    }

    /// Runs the search for `regex` and shows what it found. Whether the
    /// pattern compiles is not for this crate to say: where it does not,
    /// nothing matches.
    fn search(&mut self, regex: String, cursor: Coords, from_first: bool)
        ensures
            old(self)@.searched(final(self)@, regex@, cursor, from_first),
    {
        let matches = self.history.reverse_search(regex.as_str());
        proof {
            lemma_hits_in_range(match_flags(self.history@, regex@));
            if matches@.len() == 0 {
                assert(matches@ =~= Seq::<HistIdx>::empty());
            }
        }
        self.apply_search(regex, cursor, matches, from_first);
    }

    /// Starts a search with an empty pattern; in a search, runs it again
    /// with the pattern as it is. The first match is shown and the cursor
    /// stands right behind the prompt of the search.
    pub fn cmd_reverse_search_history(&mut self)
        ensures
            old(self)@.with_state(old(self)@.state.searching()).searched(
                final(self)@,
                old(self)@.state.searching().pattern(),
                Coords { x: old(self)@.search_prompt_len, y: 0 },
                true,
            ),
    {
        let state = self.take_state();
        self.state = state.searching();
        let regex = self.state.pattern();
        let cursor = Coords { x: self.search_prompt_len, y: 0 };
        self.search(regex, cursor, true);
    }

    /// Types `c`: into the command that is edited, which a command of the
    /// history that is shown becomes first; in a search, into the pattern,
    /// where the line of the pattern, `width` columns wide, has room.
    pub fn cmd_insert_char(&mut self, c: char, width: u16)
        ensures
            match old(self)@.state {
                StateView::Search { regex, cursor, .. } => match pattern_typed(
                    regex,
                    cursor,
                    c,
                    old(self)@.search_prompt_len,
                    width,
                ) {
                    Some(edit) => old(self)@.searched(final(self)@, edit.0, edit.1, true),
                    None => final(self)@ == old(self)@,
                },
                _ => final(self)@ == old(self)@.with_state(old(self)@.state.coerced().typed(c)),
            },
    {
        if self.state.is_search() {
            let edit = type_into_pattern(
                self.state.pattern().as_str(),
                self.state.cursor(),
                c,
                self.search_prompt_len,
                width,
            );
            match edit {
                Some((regex, cursor)) => self.search(regex, cursor, true),
                None => {},
            }
        } else {
            let state = self.take_state();
            self.state = state.coerced().typed(c);
        }
    }

    /// The backspace key: in the command that is edited, which a command
    /// of the history that is shown becomes first; in a search, in the
    /// pattern, and the match in the place of the one shown is shown, or
    /// the last where fewer are left.
    pub fn cmd_rm_grapheme_before_cursor(&mut self)
        ensures
            match old(self)@.state {
                StateView::Search { regex, cursor, .. } => match pattern_backspaced(
                    regex,
                    cursor,
                    old(self)@.search_prompt_len,
                ) {
                    Some(edit) => old(self)@.searched(final(self)@, edit.0, edit.1, false),
                    None => final(self)@ == old(self)@,
                },
                _ => final(self)@ == old(self)@.with_state(
                    old(self)@.state.coerced().backspaced(),
                ),
            },
    {
        if self.state.is_search() {
            let edit = backspace_in_pattern(
                self.state.pattern().as_str(),
                self.state.cursor(),
                self.search_prompt_len,
            );
            match edit {
                Some((regex, cursor)) => self.search(regex, cursor, false),
                None => {},
            }
        } else {
            let state = self.take_state();
            self.state = state.coerced().backspaced();
        }
    }

    /// The delete key: in the command that is edited, which a command of
    /// the history that is shown becomes first; in a search, in the
    /// pattern, and the match in the place of the one shown is shown, or
    /// the last where fewer are left.
    pub fn cmd_rm_grapheme_at_cursor(&mut self)
        ensures
            match old(self)@.state {
                StateView::Search { regex, cursor, .. } => match pattern_deleted(
                    regex,
                    cursor,
                    old(self)@.search_prompt_len,
                ) {
                    Some(edit) => old(self)@.searched(final(self)@, edit.0, edit.1, false),
                    None => final(self)@ == old(self)@,
                },
                _ => final(self)@ == old(self)@.with_state(old(self)@.state.coerced().deleted()),
            },
    {
        if self.state.is_search() {
            let edit = delete_in_pattern(
                self.state.pattern().as_str(),
                self.state.cursor(),
                self.search_prompt_len,
            );
            match edit {
                Some((regex, cursor)) => self.search(regex, cursor, false),
                None => {},
            }
        } else {
            let state = self.take_state();
            self.state = state.coerced().deleted();
        }
    }

    /// The enter key. The command on the screen becomes the command that
    /// is edited. If its source text is empty, nothing else happens. Else
    /// the command goes into the history, an empty command takes its place
    /// and the source text is handed out to be evaluated.
    pub fn cmd_eval(&mut self) -> (source: Option<String>)
        ensures
            final(self)@ == old(self)@.submitted(),
            match source {
                Some(text) => text@.len() > 0 && text@ == source_code(old(self)@.state.shown()),
                None => source_code(old(self)@.state.shown()).len() == 0,
            },
    {
        let state = self.take_state().coerced();
        let source_code = state.shown().to_source_code();
        if source_code.as_str().is_empty() {
            self.state = state;
            return None;
        }
        match state {
            State::Edit { buffer, cursor } => {
                let _hidx = self.history.add_cmd(buffer);
                self.state = State::Edit { buffer: Cmd::default(), cursor };
            },
            other => {
                self.state = other;
            },
        }
        Some(source_code)
    }

    /// What follows an evaluation that went well: the input area is one row
    /// high again and the cursor stands at the origin.
    pub fn finish_eval(&mut self)
        ensures
            final(self)@ == old(self)@.evaluated(),
    {
        let state = self.take_state();
        self.state = state.with_cursor(Coords::origin());
        self.height = 1;
    }

    /// Does what `command` asks for.
    pub fn perform(&mut self, command: Command, width: u16) -> (action: Action)
        ensures
            old(self)@.performs(command, width, final(self)@, action@),
    {
        match command {
            Command::Nop => self.cmd_nop(),
            Command::Ignore => {},
            Command::ExitRepl => {
                return Action::Exit;
            },
            Command::CancelNav => self.cmd_cancel_nav(),
            Command::Eval => {
                return match self.cmd_eval() {
                    Some(source) => Action::Evaluate(source),
                    None => Action::Continue,
                };
            },
            Command::NavUp => self.cmd_nav_up(),
            Command::NavDown => self.cmd_nav_down(),
            Command::NavCmdLeft => self.cmd_nav_cmd_left(),
            Command::NavCmdRight => self.cmd_nav_cmd_right(),
            Command::NavToStartOfCmd => self.cmd_nav_to_start_of_cmd(),
            Command::NavToEndOfCmd => self.cmd_nav_to_end_of_cmd(),
            Command::ReverseSearchHistory => self.cmd_reverse_search_history(),
            Command::InsertChar(c) => self.cmd_insert_char(c, width),
            Command::InsertNewline => self.cmd_insert_newline(),
            Command::RmGraphemeBeforeCursor => self.cmd_rm_grapheme_before_cursor(),
            Command::RmGraphemeAtCursor => self.cmd_rm_grapheme_at_cursor(),
        }
        Action::Continue
    }

    /// Does what `key` is bound to, in a terminal `width` columns wide.
    pub fn dispatch_key_event(&mut self, key: KeyEvent, width: u16) -> (action: Action)
        ensures
            old(self)@.performs(binding(key), width, final(self)@, action@),
    {
        self.perform(command_for(key), width)
    }
}

/// What is left to do, after a key, for the one who owns the terminal.
#[derive(Debug)]
pub enum Action {
    /// Draw, and read the next key.
    Continue,
    /// Say goodbye and leave.
    Exit,
    /// Store the history and evaluate this source text; if that went well,
    /// call [`Session::finish_eval`].
    Evaluate(String),
}

/// The mathematical value of an [`Action`].
#[verifier::ext_equal]
pub enum ActionView {
    Continue,
    Exit,
    Evaluate(Seq<char>),
}

impl View for Action {
    type V = ActionView;

    open spec fn view(&self) -> ActionView {
        match *self {
            Action::Continue => ActionView::Continue,
            Action::Exit => ActionView::Exit,
            Action::Evaluate(source) => ActionView::Evaluate(source@),
        }
    }
}

/// The input area as it is to be drawn.
#[derive(Debug)]
pub struct Frame {
    /// The rows of the command.
    pub rows: Cmd,
    /// The pattern of the search.
    pub pattern: String,
    /// What to do to the terminal, in this order.
    pub ops: Vec<DrawOp>,
}

impl Session {
    /// The size of the input area in a terminal `term_width` columns wide.
    pub fn input_area_dims(&self, term_width: u16) -> (dims: Dims)
        ensures
            dims == (Dims { width: term_width, height: self@.height }),
    {
        Dims { width: term_width, height: self.height }
    }

    /// Draws the input area into a terminal of the size `term`, after a key
    /// before which the area was `old_height` rows high. `None`, and
    /// nothing changed, where the area cannot be drawn.
    pub fn render_ui(&mut self, old_height: u16, term: Dims) -> (frame: Option<Frame>)
        ensures
            final(self)@.height >= old(self)@.height,
            match frame {
                Some(frame) => {
                    &&& old(self)@.drawable(term)
                    &&& final(self)@ == (SessionView {
                        height: old(self)@.grown(term.width) as u16,
                        ..old(self)@
                    })
                    &&& frame.rows@ == old(self)@.rows(term.width)
                    &&& frame.pattern@ == old(self)@.state.pattern()
                    &&& frame.ops@ == old(self)@.frame_ops(old_height, term)
                },
                None => !old(self)@.drawable(term) && final(self)@ == old(self)@,
            },
    {
        if term.width == 0 {
            return None;
        }
        let rows = self.state.shown().uncompress(term.width, self.prompt_len);
        let searching = self.state.is_search();
        let num_rows = rows.len();
        if num_rows >= term.height as usize {
            if num_rows > term.height as usize || searching {
                return None;
            }
        }
        let content_height: u16 = if searching { num_rows as u16 + 1 } else { num_rows as u16 };
        let height = if self.height >= content_height { self.height } else { content_height };
        if height > term.height {
            return None;
        }
        let origin = Coords { x: 0, y: term.height - height };
        let at = if searching {
            Coords { x: self.state.cursor().x, y: term.height - 1 }
        } else {
            match uncursor_in(
                self.state.shown(),
                &rows,
                self.state.cursor(),
                term.width,
                self.prompt_len,
            ) {
                Some(at) => {
                    assert(at.y < num_rows);
                    Coords { x: at.x, y: origin.y + at.y }
                },
                None => {
                    return None;
                },
            }
        };
        let scroll = if content_height > old_height { content_height - old_height } else { 0 };
        let search_row = if searching { Some(term.height - 1) } else { None };
        let ops = draw_frame(scroll, origin, height, &rows, search_row, at);
        assert(repeated(DrawOp::ScrollUp, scroll as int) =~= repeated(
            DrawOp::ScrollUp,
            content_height - old_height,
        ));
        let pattern = self.state.pattern();
        self.height = height;
        Some(Frame { rows, pattern, ops })
    }
}

} // verus!

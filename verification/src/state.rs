//! The modes of the editor, and what the keys do to each.

use crate::cmd::{
    empty_start, end_of, has_end, with_char, with_split, without_at, without_before, Cmd,
};
use crate::coords::Coords;
use crate::history::{in_history, HistIdx, History};
use crate::line::{Line, LineKind, LineView};
use vstd::prelude::*;
use vstd::utf8::encode_utf8;

verus! {

/// What the editor is doing.
#[derive(Debug)]
pub enum State {
    /// A command is being edited.
    Edit {
        /// The command.
        buffer: Cmd,
        /// Where the cursor stands in it.
        cursor: Coords,
    },
    /// A command of the history is shown.
    Navigate {
        /// Which command of the history.
        hidx: HistIdx,
        /// The command that was being edited.
        backup: Cmd,
        /// The command that is shown.
        preview: Cmd,
        /// Where the cursor stands in it.
        cursor: Coords,
    },
    /// The history is searched backwards for a pattern.
    Search {
        /// The pattern.
        regex: String,
        /// The command that was being edited.
        backup: Cmd,
        /// The match that is shown.
        preview: Cmd,
        /// Where the cursor stands on the line of the pattern, the prompt
        /// of that line counted in.
        cursor: Coords,
        /// The commands that the pattern matches, the newest first.
        matches: Vec<HistIdx>,
        /// Which of them is shown.
        current: usize,
    },
}

/// The mathematical value of a [`State`].
#[verifier::ext_equal]
pub enum StateView {
    Edit { buffer: Seq<LineView>, cursor: Coords },
    Navigate { hidx: HistIdx, backup: Seq<LineView>, preview: Seq<LineView>, cursor: Coords },
    Search {
        regex: Seq<char>,
        backup: Seq<LineView>,
        preview: Seq<LineView>,
        cursor: Coords,
        matches: Seq<HistIdx>,
        current: usize,
    },
}

impl View for State {
    type V = StateView;

    open spec fn view(&self) -> StateView {
        match *self {
            State::Edit { buffer, cursor } => StateView::Edit { buffer: buffer@, cursor },
            State::Navigate { hidx, backup, preview, cursor } => StateView::Navigate {
                hidx,
                backup: backup@,
                preview: preview@,
                cursor,
            },
            State::Search { regex, backup, preview, cursor, matches, current } => StateView::Search {
                regex: regex@,
                backup: backup@,
                preview: preview@,
                cursor,
                matches: matches@,
                current,
            },
        }
    }
}

/// One column to the left; from the start of a line to the end of the line
/// above. Nowhere from the start of the first line, nor where the line
/// above is none of `cmd`.
pub open spec fn moved_left(cmd: Seq<LineView>, cursor: Coords) -> Coords {
    if cursor.x > 0 {
        Coords { x: (cursor.x - 1) as u16, y: cursor.y }
    } else if 0 < cursor.y <= cmd.len() {
        Coords { x: cmd[cursor.y - 1].columns(), y: (cursor.y - 1) as u16 }
    } else {
        cursor
    }
}

/// One column to the right; from the end of a line to the start of the line
/// below. Nowhere from the end of the last line, nor where the cursor is on
/// no line of `cmd` or 16 bits do not hold the new position.
pub open spec fn moved_right(cmd: Seq<LineView>, cursor: Coords) -> Coords {
    if cursor.y >= cmd.len() {
        cursor
    } else if cursor.x == cmd[cursor.y as int].columns() {
        if cursor.y + 1 < cmd.len() && cursor.y < u16::MAX {
            Coords { x: 0, y: (cursor.y + 1) as u16 }
        } else {
            cursor
        }
    } else if cursor.x < u16::MAX {
        Coords { x: (cursor.x + 1) as u16, y: cursor.y }
    } else {
        cursor
    }
}

/// Onto line `y` of `cmd`, in the same column or at the end of that line
/// where it is shorter.
pub open spec fn moved_onto(cmd: Seq<LineView>, cursor: Coords, y: u16) -> Coords {
    let columns = cmd[y as int].columns();
    Coords { x: if cursor.x < columns { cursor.x } else { columns }, y }
}

/// The pattern as a line, to count and edit its clusters.
pub open spec fn pattern_line(regex: Seq<char>) -> LineView {
    LineView { content: regex, kind: LineKind::Start }
}

/// The column behind the last cluster of the pattern, where 16 bits hold
/// it.
pub open spec fn pattern_end(regex: Seq<char>, search_prompt_len: u16) -> Option<u16> {
    let end = search_prompt_len + pattern_line(regex).columns();
    if end <= u16::MAX {
        Some(end as u16)
    } else {
        None
    }
}

/// The length of `s` in bytes of UTF-8, as a machine word.
pub open spec fn byte_len(s: Seq<char>) -> usize {
    encode_utf8(s).len() as usize
}

/// The pattern and the cursor after `c` was typed: `None` where the line of
/// the pattern, `width` columns wide, has no room for more, and where the
/// cursor is not on the pattern.
pub open spec fn pattern_typed(
    regex: Seq<char>,
    cursor: Coords,
    c: char,
    search_prompt_len: u16,
    width: u16,
) -> Option<(Seq<char>, Coords)> {
    let at = cursor.x - search_prompt_len;
    if width < search_prompt_len + 1 || byte_len(regex) >= width - search_prompt_len - 1 || at < 0 || at > pattern_line(regex).count() || cursor.x == u16::MAX {
        None
    } else {
        Some(
            (
                pattern_line(regex).insert(at, seq![c]).content,
                Coords { x: (cursor.x + 1) as u16, y: cursor.y },
            ),
        )
    }
}

/// The pattern and the cursor after the backspace key: `None` where no
/// cluster of the pattern stands in front of the cursor.
pub open spec fn pattern_backspaced(regex: Seq<char>, cursor: Coords, search_prompt_len: u16)
    -> Option<(Seq<char>, Coords)> {
    let at = cursor.x - search_prompt_len;
    if regex.len() == 0 || at <= 0 || at > pattern_line(regex).count() {
        None
    } else {
        Some(
            (
                pattern_line(regex).remove(at - 1).content,
                Coords { x: (cursor.x - 1) as u16, y: cursor.y },
            ),
        )
    }
}

/// The pattern and the cursor after the delete key: `None` where no cluster
/// of the pattern stands at the cursor.
pub open spec fn pattern_deleted(regex: Seq<char>, cursor: Coords, search_prompt_len: u16)
    -> Option<(Seq<char>, Coords)> {
    let at = cursor.x - search_prompt_len;
    if regex.len() == 0 || at < 0 || at >= pattern_line(regex).count() {
        None
    } else {
        Some((pattern_line(regex).remove(at).content, cursor))
    }
}

/// The command that is shown for match `current` of `matches`: the default
/// command where nothing matches, `None` where there is no such match or
/// the history has no such command.
pub open spec fn preview_of(
    history: Seq<Seq<LineView>>,
    matches: Seq<HistIdx>,
    current: usize,
) -> Option<Seq<LineView>> {
    if matches.len() == 0 {
        Some(seq![empty_start()])
    } else if current < matches.len() && matches[current as int].0 < history.len() {
        Some(history[matches[current as int].0 as int])
    } else {
        None
    }
}

/// Which of `found` matches is shown after the search was run again: the
/// first if it starts from the first; else the one in the place of the one
/// shown before, and the last where there are no longer that many.
pub open spec fn match_shown(found: nat, current: usize, from_first: bool) -> usize {
    if from_first {
        0
    } else if 0 < found <= current {
        (found - 1) as usize
    } else {
        current
    }
}

impl StateView {
    /// The command on the screen.
    pub open spec fn shown(self) -> Seq<LineView> {
        match self {
            StateView::Edit { buffer, .. } => buffer,
            StateView::Navigate { preview, .. } => preview,
            StateView::Search { preview, .. } => preview,
        }
    }

    pub open spec fn cursor(self) -> Coords {
        match self {
            StateView::Edit { cursor, .. } => cursor,
            StateView::Navigate { cursor, .. } => cursor,
            StateView::Search { cursor, .. } => cursor,
        }
    }

    /// The pattern of the search; empty where nothing is searched.
    pub open spec fn pattern(self) -> Seq<char> {
        match self {
            StateView::Search { regex, .. } => regex,
            _ => Seq::empty(),
        }
    }

    /// The key that splits a line: it makes the command on the screen the
    /// command that is edited, and does nothing in a search.
    pub open spec fn newline(self) -> StateView {
        match self {
            StateView::Search { .. } => self,
            _ => self.coerced().split(),
        }
    }

    /// The state with the cursor at `cursor`.
    pub open spec fn with_cursor(self, cursor: Coords) -> StateView {
        match self {
            StateView::Edit { buffer, .. } => StateView::Edit { buffer, cursor },
            StateView::Navigate { hidx, backup, preview, .. } => StateView::Navigate {
                hidx,
                backup,
                preview,
                cursor,
            },
            StateView::Search { regex, backup, preview, matches, current, .. } => StateView::Search {
                regex,
                backup,
                preview,
                cursor,
                matches,
                current,
            },
        }
    }

    /// The command on the screen becomes the command that is edited.
    pub open spec fn coerced(self) -> StateView {
        StateView::Edit { buffer: self.shown(), cursor: self.cursor() }
    }

    /// Back to the command that was being edited, the cursor at its end.
    pub open spec fn restored(self) -> StateView {
        match self {
            StateView::Edit { .. } => self,
            StateView::Navigate { backup, .. } | StateView::Search { backup, .. } => if has_end(
                backup,
            ) {
                StateView::Edit { buffer: backup, cursor: end_of(backup) }
            } else {
                self
            },
        }
    }

    /// The cursor one step to the left.
    pub open spec fn left(self, search_prompt_len: u16) -> StateView {
        match self {
            StateView::Search { cursor, .. } => self.with_cursor(
                Coords {
                    x: if cursor.x <= search_prompt_len {
                        search_prompt_len
                    } else {
                        (cursor.x - 1) as u16
                    },
                    y: cursor.y,
                },
            ),
            _ => self.with_cursor(moved_left(self.shown(), self.cursor())),
        }
    }

    /// The cursor one step to the right.
    pub open spec fn right(self, search_prompt_len: u16) -> StateView {
        match self {
            StateView::Search { regex, cursor, .. } => match pattern_end(regex, search_prompt_len) {
                Some(end) => self.with_cursor(
                    Coords {
                        x: if cursor.x >= end {
                            end
                        } else {
                            (cursor.x + 1) as u16
                        },
                        y: cursor.y,
                    },
                ),
                None => self,
            },
            _ => self.with_cursor(moved_right(self.shown(), self.cursor())),
        }
    }

    /// The cursor at the start: of the command, or of the pattern.
    pub open spec fn at_start(self, search_prompt_len: u16) -> StateView {
        match self {
            StateView::Search { cursor, .. } => self.with_cursor(
                Coords { x: search_prompt_len, y: cursor.y },
            ),
            _ => self.with_cursor(Coords { x: 0, y: 0 }),
        }
    }

    /// The cursor at the end: of the command, or of the pattern.
    pub open spec fn at_end(self, search_prompt_len: u16) -> StateView {
        match self {
            StateView::Search { regex, cursor, .. } => match pattern_end(regex, search_prompt_len) {
                Some(end) => self.with_cursor(Coords { x: end, y: cursor.y }),
                None => self,
            },
            _ => if has_end(self.shown()) {
                self.with_cursor(end_of(self.shown()))
            } else {
                self
            },
        }
    }

    /// `c` typed into the command that is edited.
    pub open spec fn typed(self, c: char) -> StateView {
        match self {
            StateView::Edit { buffer, cursor } => if cursor.x < u16::MAX && (if buffer.len() == 0 {
                cursor.y == 0
            } else {
                cursor.y < buffer.len()
            }) {
                StateView::Edit {
                    buffer: with_char(buffer, cursor, c),
                    cursor: Coords { x: (cursor.x + 1) as u16, y: cursor.y },
                }
            } else {
                self
            },
            _ => self,
        }
    }

    /// The line of the cursor split at the cursor, in the command that is
    /// edited.
    pub open spec fn split(self) -> StateView {
        match self {
            StateView::Edit { buffer, cursor } => if cursor.y < buffer.len() && cursor.y
                < u16::MAX {
                StateView::Edit {
                    buffer: with_split(buffer, cursor),
                    cursor: Coords { x: 0, y: (cursor.y + 1) as u16 },
                }
            } else {
                self
            },
            _ => self,
        }
    }

    /// The backspace key in the command that is edited.
    pub open spec fn backspaced(self) -> StateView {
        match self {
            StateView::Edit { buffer, cursor } => if cursor.x > 0 {
                if buffer.len() == 0 || cursor.y < buffer.len() {
                    StateView::Edit {
                        buffer: without_before(buffer, cursor),
                        cursor: Coords { x: (cursor.x - 1) as u16, y: cursor.y },
                    }
                } else {
                    self
                }
            } else if 0 < cursor.y < buffer.len() {
                StateView::Edit {
                    buffer: without_before(buffer, cursor),
                    cursor: Coords { x: buffer[cursor.y - 1].columns(), y: (cursor.y - 1) as u16 },
                }
            } else {
                self
            },
            _ => self,
        }
    }

    /// The delete key in the command that is edited.
    pub open spec fn deleted(self) -> StateView {
        match self {
            StateView::Edit { buffer, cursor } => if cursor.y < buffer.len() {
                StateView::Edit { buffer: without_at(buffer, cursor), cursor }
            } else {
                self
            },
            _ => self,
        }
    }

    /// One step back in the history, or to the match before.
    pub open spec fn history_up(self, history: Seq<Seq<LineView>>) -> StateView {
        match self {
            StateView::Edit { buffer, .. } => if history.len() > 0 && has_end(history.last()) {
                StateView::Navigate {
                    hidx: HistIdx((history.len() - 1) as usize),
                    backup: buffer,
                    preview: history.last(),
                    cursor: end_of(history.last()),
                }
            } else {
                self
            },
            StateView::Navigate { hidx, backup, .. } => if 0 < hidx.0 <= history.len() && has_end(
                history[hidx.0 - 1],
            ) {
                StateView::Navigate {
                    hidx: HistIdx((hidx.0 - 1) as usize),
                    backup,
                    preview: history[hidx.0 - 1],
                    cursor: end_of(history[hidx.0 - 1]),
                }
            } else {
                self
            },
            StateView::Search { regex, backup, cursor, matches, current, .. } => if current + 1
                < matches.len() && matches[current + 1].0 < history.len() {
                StateView::Search {
                    regex,
                    backup,
                    preview: history[matches[current + 1].0 as int],
                    cursor,
                    matches,
                    current: (current + 1) as usize,
                }
            } else {
                self
            },
        }
    }

    /// One step forth in the history, and from its newest command back to
    /// the command that was being edited; or to the match after.
    pub open spec fn history_down(self, history: Seq<Seq<LineView>>) -> StateView {
        match self {
            StateView::Edit { .. } => self,
            StateView::Navigate { hidx, backup, .. } => if hidx.0 + 1 == history.len() {
                self.restored()
            } else if hidx.0 + 1 < history.len() && has_end(history[hidx.0 + 1]) {
                StateView::Navigate {
                    hidx: HistIdx((hidx.0 + 1) as usize),
                    backup,
                    preview: history[hidx.0 + 1],
                    cursor: end_of(history[hidx.0 + 1]),
                }
            } else {
                self
            },
            StateView::Search { regex, backup, cursor, matches, current, .. } => if current == 0 {
                self
            } else {
                match preview_of(history, matches, (current - 1) as usize) {
                    Some(preview) => StateView::Search {
                        regex,
                        backup,
                        preview,
                        cursor,
                        matches,
                        current: (current - 1) as usize,
                    },
                    None => self,
                }
            },
        }
    }

    /// The cursor one line up; from the first line, one step back in the
    /// history. In a search, to the match before.
    pub open spec fn up(self, history: Seq<Seq<LineView>>) -> StateView {
        match self {
            StateView::Search { .. } => self.history_up(history),
            _ => if self.cursor().y == 0 {
                self.history_up(history)
            } else if self.cursor().y <= self.shown().len() {
                self.with_cursor(
                    moved_onto(self.shown(), self.cursor(), (self.cursor().y - 1) as u16),
                )
            } else {
                self
            },
        }
    }

    /// The cursor one line down; from the last line, one step forth in the
    /// history. In a search, to the match after.
    pub open spec fn down(self, history: Seq<Seq<LineView>>) -> StateView {
        match self {
            StateView::Search { .. } => self.history_down(history),
            _ => if self.cursor().y + 1 == self.shown().len() {
                self.history_down(history)
            } else if self.cursor().y + 1 < self.shown().len() && self.cursor().y < u16::MAX {
                self.with_cursor(
                    moved_onto(self.shown(), self.cursor(), (self.cursor().y + 1) as u16),
                )
            } else {
                self
            },
        }
    }

    /// Into a search, with an empty pattern and nothing found yet.
    pub open spec fn searching(self) -> StateView {
        match self {
            StateView::Edit { buffer, cursor } => StateView::Search {
                regex: Seq::empty(),
                backup: buffer,
                preview: seq![empty_start()],
                cursor,
                matches: Seq::empty(),
                current: 0,
            },
            StateView::Navigate { backup, preview, cursor, .. } => StateView::Search {
                regex: Seq::empty(),
                backup,
                preview,
                cursor,
                matches: Seq::empty(),
                current: 0,
            },
            StateView::Search { .. } => self,
        }
    }

    /// The search after it was run again: with the pattern `regex`, the
    /// cursor at `cursor` and the matches `matches`, of which the one that
    /// [`match_shown`] names is shown; the default command where nothing
    /// matches. The state itself where it is no search.
    pub open spec fn found(
        self,
        regex: Seq<char>,
        cursor: Coords,
        matches: Seq<HistIdx>,
        from_first: bool,
        history: Seq<Seq<LineView>>,
    ) -> StateView {
        match self {
            StateView::Search { backup, current, .. } => {
                let current = match_shown(matches.len(), current, from_first);
                StateView::Search {
                    regex,
                    backup,
                    preview: if matches.len() == 0 {
                        seq![empty_start()]
                    } else {
                        history[matches[current as int].0 as int]
                    },
                    cursor,
                    matches,
                    current,
                }
            },
            _ => self,
        }
    }
}

/// The cursor one column to the left in `cmd`.
pub fn move_left(cmd: &Cmd, cursor: Coords) -> (to: Coords)
    ensures
        to == moved_left(cmd@, cursor),
{
    if cursor.x > 0 {
        Coords { x: cursor.x - 1, y: cursor.y }
    } else if cursor.y > 0 && cursor.y as usize <= cmd.len() {
        Coords { x: cmd.line(cursor.y as usize - 1).count_graphemes(), y: cursor.y - 1 }
    } else {
        cursor
    }
}

/// The cursor one column to the right in `cmd`.
pub fn move_right(cmd: &Cmd, cursor: Coords) -> (to: Coords)
    ensures
        to == moved_right(cmd@, cursor),
{
    if cursor.y as usize >= cmd.len() {
        cursor
    } else if cursor.x == cmd.line(cursor.y as usize).count_graphemes() {
        if cursor.y as usize + 1 < cmd.len() && cursor.y < u16::MAX {
            Coords { x: 0, y: cursor.y + 1 }
        } else {
            cursor
        }
    } else if cursor.x < u16::MAX {
        Coords { x: cursor.x + 1, y: cursor.y }
    } else {
        cursor
    }
}

/// The cursor on line `y` of `cmd`.
pub fn move_onto(cmd: &Cmd, cursor: Coords, y: u16) -> (to: Coords)
    requires
        y < cmd@.len(),
    ensures
        to == moved_onto(cmd@, cursor, y),
{
    let columns = cmd.line(y as usize).count_graphemes();
    Coords { x: if cursor.x < columns { cursor.x } else { columns }, y }
}

/// The column behind the last cluster of the pattern.
pub fn end_of_pattern(regex: &str, search_prompt_len: u16) -> (end: Option<u16>)
    ensures
        end == pattern_end(regex@, search_prompt_len),
{
    let line = Line::from_parts(regex.to_owned(), LineKind::Start);
    let columns = line.count_graphemes();
    if columns <= u16::MAX - search_prompt_len {
        Some(search_prompt_len + columns)
    } else {
        None
    }
}

/// Types `c` into the pattern.
pub fn type_into_pattern(
    regex: &str,
    cursor: Coords,
    c: char,
    search_prompt_len: u16,
    width: u16,
) -> (edit: Option<(String, Coords)>)
    ensures
        edit.is_some() == pattern_typed(regex@, cursor, c, search_prompt_len, width).is_some(),
        edit matches Some(e) ==> (e.0@, e.1) == pattern_typed(
            regex@,
            cursor,
            c,
            search_prompt_len,
            width,
        ).unwrap(),
{
    if width <= search_prompt_len || regex.len() >= (width - search_prompt_len - 1) as usize
        || cursor.x < search_prompt_len || cursor.x == u16::MAX {
        return None;
    }
    let at = cursor.x - search_prompt_len;
    let mut line = Line::from_parts(regex.to_owned(), LineKind::Start);
    if at as usize > line.grapheme_count() {
        return None;
    }
    line.insert_char(at, c);
    Some((line.into_content(), Coords { x: cursor.x + 1, y: cursor.y }))
}

/// The backspace key in the pattern.
pub fn backspace_in_pattern(regex: &str, cursor: Coords, search_prompt_len: u16) -> (edit: Option<
    (String, Coords),
>)
    ensures
        edit.is_some() == pattern_backspaced(regex@, cursor, search_prompt_len).is_some(),
        edit matches Some(e) ==> (e.0@, e.1) == pattern_backspaced(
            regex@,
            cursor,
            search_prompt_len,
        ).unwrap(),
{
    if regex.is_empty() || cursor.x <= search_prompt_len {
        return None;
    }
    let at = cursor.x - search_prompt_len;
    let mut line = Line::from_parts(regex.to_owned(), LineKind::Start);
    if at as usize > line.grapheme_count() {
        return None;
    }
    line.rm_grapheme_at(at - 1);
    Some((line.into_content(), Coords { x: cursor.x - 1, y: cursor.y }))
}

/// The delete key in the pattern.
pub fn delete_in_pattern(regex: &str, cursor: Coords, search_prompt_len: u16) -> (edit: Option<
    (String, Coords),
>)
    ensures
        edit.is_some() == pattern_deleted(regex@, cursor, search_prompt_len).is_some(),
        edit matches Some(e) ==> (e.0@, e.1) == pattern_deleted(
            regex@,
            cursor,
            search_prompt_len,
        ).unwrap(),
{
    if regex.is_empty() || cursor.x < search_prompt_len {
        return None;
    }
    let at = cursor.x - search_prompt_len;
    let mut line = Line::from_parts(regex.to_owned(), LineKind::Start);
    if at as usize >= line.grapheme_count() {
        return None;
    }
    line.rm_grapheme_at(at);
    Some((line.into_content(), cursor))
}

/// The command that is shown for match `current` of `matches`.
pub fn preview_for(history: &History, matches: &Vec<HistIdx>, current: usize) -> (preview: Option<
    Cmd,
>)
    ensures
        preview.is_some() == preview_of(history@, matches@, current).is_some(),
        preview matches Some(cmd) ==> cmd@ == preview_of(history@, matches@, current).unwrap(),
{
    if matches.len() == 0 {
        Some(Cmd::default())
    } else if current < matches.len() && matches[current].0 < history.len() {
        Some(history.get(matches[current]).clone())
    } else {
        None
    }
}

impl State {
    /// The state in which the editor starts: one empty line is edited.
    pub fn new() -> (state: State)
        ensures
            state@ == (StateView::Edit { buffer: seq![empty_start()], cursor: Coords { x: 0, y: 0 } }),
    {
        State::Edit { buffer: Cmd::default(), cursor: Coords::origin() }
    }

    /// The command on the screen.
    pub fn shown(&self) -> (cmd: &Cmd)
        ensures
            cmd@ == self@.shown(),
    {
        match self {
            State::Edit { buffer, .. } => buffer,
            State::Navigate { preview, .. } => preview,
            State::Search { preview, .. } => preview,
        }
    }

    pub fn cursor(&self) -> (cursor: Coords)
        ensures
            cursor == self@.cursor(),
    {
        match self {
            State::Edit { cursor, .. } => *cursor,
            State::Navigate { cursor, .. } => *cursor,
            State::Search { cursor, .. } => *cursor,
        }
    }

    /// The pattern of the search; empty where nothing is searched.
    pub fn pattern(&self) -> (regex: String)
        ensures
            regex@ == self@.pattern(),
    {
        match self {
            State::Search { regex, .. } => regex.clone(),
            _ => String::new(),
        }
    }

    /// Whether a search is going on.
    pub fn is_search(&self) -> (b: bool)
        ensures
            b == (self@ is Search),
    {
        match self {
            State::Search { .. } => true,
            _ => false,
        }
    }

    /// The state with the cursor at `to`.
    pub fn with_cursor(self, to: Coords) -> (next: State)
        ensures
            next@ == self@.with_cursor(to),
    {
        match self {
            State::Edit { buffer, .. } => State::Edit { buffer, cursor: to },
            State::Navigate { hidx, backup, preview, .. } => State::Navigate {
                hidx,
                backup,
                preview,
                cursor: to,
            },
            State::Search { regex, backup, preview, matches, current, .. } => State::Search {
                regex,
                backup,
                preview,
                cursor: to,
                matches,
                current,
            },
        }
    }

    /// The command on the screen becomes the command that is edited.
    pub fn coerced(self) -> (next: State)
        ensures
            next@ == self@.coerced(),
    {
        match self {
            State::Edit { buffer, cursor } => State::Edit { buffer, cursor },
            State::Navigate { preview, cursor, .. } => State::Edit { buffer: preview, cursor },
            State::Search { preview, cursor, .. } => State::Edit { buffer: preview, cursor },
        }
    }

    /// Back to the command that was being edited.
    pub fn restored(self) -> (next: State)
        ensures
            next@ == self@.restored(),
    {
        match self {
            State::Edit { buffer, cursor } => State::Edit { buffer, cursor },
            State::Navigate { hidx, backup, preview, cursor } => {
                if backup.has_end() {
                    let cursor = backup.end_of_cmd();
                    State::Edit { buffer: backup, cursor }
                } else {
                    State::Navigate { hidx, backup, preview, cursor }
                }
            },
            State::Search { regex, backup, preview, cursor, matches, current } => {
                if backup.has_end() {
                    let cursor = backup.end_of_cmd();
                    State::Edit { buffer: backup, cursor }
                } else {
                    State::Search { regex, backup, preview, cursor, matches, current }
                }
            },
        }
    }

    /// The cursor one step to the left.
    pub fn left(self, search_prompt_len: u16) -> (next: State)
        ensures
            next@ == self@.left(search_prompt_len),
    {
        let cursor = self.cursor();
        let to = match &self {
            State::Search { .. } => Coords {
                x: if cursor.x <= search_prompt_len {
                    search_prompt_len
                } else {
                    cursor.x - 1
                },
                y: cursor.y,
            },
            _ => move_left(self.shown(), cursor),
        };
        self.with_cursor(to)
    }

    /// The cursor one step to the right.
    pub fn right(self, search_prompt_len: u16) -> (next: State)
        ensures
            next@ == self@.right(search_prompt_len),
    {
        let cursor = self.cursor();
        let to = match &self {
            State::Search { regex, .. } => match end_of_pattern(regex.as_str(), search_prompt_len) {
                Some(end) => Coords {
                    x: if cursor.x >= end {
                        end
                    } else {
                        cursor.x + 1
                    },
                    y: cursor.y,
                },
                None => cursor,
            },
            _ => move_right(self.shown(), cursor),
        };
        self.with_cursor(to)
    }

    /// The cursor at the start.
    pub fn at_start(self, search_prompt_len: u16) -> (next: State)
        ensures
            next@ == self@.at_start(search_prompt_len),
    {
        let to = match &self {
            State::Search { cursor, .. } => Coords { x: search_prompt_len, y: cursor.y },
            _ => Coords::origin(),
        };
        self.with_cursor(to)
    }

    /// The cursor at the end.
    pub fn at_end(self, search_prompt_len: u16) -> (next: State)
        ensures
            next@ == self@.at_end(search_prompt_len),
    {
        let cursor = self.cursor();
        let to = match &self {
            State::Search { regex, .. } => match end_of_pattern(regex.as_str(), search_prompt_len) {
                Some(end) => Coords { x: end, y: cursor.y },
                None => cursor,
            },
            _ => if self.shown().has_end() {
                self.shown().end_of_cmd()
            } else {
                cursor
            },
        };
        self.with_cursor(to)
    }

    /// Types `c` into the command that is edited.
    pub fn typed(self, c: char) -> (next: State)
        ensures
            next@ == self@.typed(c),
    {
        match self {
            State::Edit { buffer, cursor } => {
                let on_line = if buffer.is_empty() {
                    cursor.y == 0
                } else {
                    (cursor.y as usize) < buffer.len()
                };
                if cursor.x < u16::MAX && on_line {
                    let mut buffer = buffer;
                    buffer.insert_char(cursor, c);
                    State::Edit { buffer, cursor: Coords { x: cursor.x + 1, y: cursor.y } }
                } else {
                    State::Edit { buffer, cursor }
                }
            },
            other => other,
        }
    }

    /// Splits the line of the cursor at the cursor.
    pub fn split(self) -> (next: State)
        ensures
            next@ == self@.split(),
    {
        match self {
            State::Edit { buffer, cursor } => {
                if (cursor.y as usize) < buffer.len() && cursor.y < u16::MAX {
                    let mut buffer = buffer;
                    buffer.insert_empty_line(cursor);
                    State::Edit { buffer, cursor: Coords { x: 0, y: cursor.y + 1 } }
                } else {
                    State::Edit { buffer, cursor }
                }
            },
            other => other,
        }
    }

    /// The backspace key in the command that is edited.
    pub fn backspaced(self) -> (next: State)
        ensures
            next@ == self@.backspaced(),
    {
        match self {
            State::Edit { buffer, cursor } => {
                let mut buffer = buffer;
                if cursor.x > 0 {
                    if buffer.is_empty() || (cursor.y as usize) < buffer.len() {
                        buffer.rm_grapheme_before(cursor);
                        State::Edit { buffer, cursor: Coords { x: cursor.x - 1, y: cursor.y } }
                    } else {
                        State::Edit { buffer, cursor }
                    }
                } else if cursor.y > 0 && (cursor.y as usize) < buffer.len() {
                    let old_len = buffer.line(cursor.y as usize - 1).count_graphemes();
                    buffer.rm_grapheme_before(cursor);
                    State::Edit { buffer, cursor: Coords { x: old_len, y: cursor.y - 1 } }
                } else {
                    State::Edit { buffer, cursor }
                }
            },
            other => other,
        }
    }

    /// The delete key in the command that is edited.
    pub fn deleted(self) -> (next: State)
        ensures
            next@ == self@.deleted(),
    {
        match self {
            State::Edit { buffer, cursor } => {
                let mut buffer = buffer;
                if (cursor.y as usize) < buffer.len() {
                    buffer.rm_grapheme_at(cursor);
                }
                State::Edit { buffer, cursor }
            },
            other => other,
        }
    }

    /// One step back in the history, or to the match before.
    pub fn history_up(self, history: &History) -> (next: State)
        ensures
            next@ == self@.history_up(history@),
    {
        match self {
            State::Edit { buffer, cursor } => {
                match history.max_idx() {
                    Some(max_hidx) => {
                        let newest = history.get(max_hidx);
                        if newest.has_end() {
                            State::Navigate {
                                hidx: max_hidx,
                                backup: buffer,
                                preview: newest.clone(),
                                cursor: newest.end_of_cmd(),
                            }
                        } else {
                            State::Edit { buffer, cursor }
                        }
                    },
                    None => State::Edit { buffer, cursor },
                }
            },
            State::Navigate { hidx, backup, preview, cursor } => {
                if 0 < hidx.0 && hidx.0 <= history.len() && history.get(
                    HistIdx(hidx.0 - 1),
                ).has_end() {
                    let hidx = HistIdx(hidx.0 - 1);
                    let older = history.get(hidx);
                    State::Navigate {
                        hidx,
                        backup,
                        preview: older.clone(),
                        cursor: older.end_of_cmd(),
                    }
                } else {
                    State::Navigate { hidx, backup, preview, cursor }
                }
            },
            State::Search { regex, backup, preview, cursor, matches, current } => {
                let found = matches.len();
                if found > 0 && current < found - 1 && matches[current + 1].0 < history.len() {
                    let preview = history.get(matches[current + 1]).clone();
                    State::Search { regex, backup, preview, cursor, matches, current: current + 1 }
                } else {
                    State::Search { regex, backup, preview, cursor, matches, current }
                }
            },
        }
    }

    /// One step forth in the history, or to the match after.
    pub fn history_down(self, history: &History) -> (next: State)
        ensures
            next@ == self@.history_down(history@),
    {
        match self {
            State::Edit { buffer, cursor } => State::Edit { buffer, cursor },
            State::Navigate { hidx, backup, preview, cursor } => {
                let newest = history.max_idx();
                if hidx.0 < usize::MAX && hidx.0 + 1 == history.len() {
                    State::Navigate { hidx, backup, preview, cursor }.restored()
                } else if hidx.0 < usize::MAX && hidx.0 + 1 < history.len() && history.get(
                    HistIdx(hidx.0 + 1),
                ).has_end() {
                    let hidx = HistIdx(hidx.0 + 1);
                    let newer = history.get(hidx);
                    State::Navigate {
                        hidx,
                        backup,
                        preview: newer.clone(),
                        cursor: newer.end_of_cmd(),
                    }
                } else {
                    State::Navigate { hidx, backup, preview, cursor }
                }
            },
            State::Search { regex, backup, preview, cursor, matches, current } => {
                if current == 0 {
                    State::Search { regex, backup, preview, cursor, matches, current }
                } else {
                    match preview_for(history, &matches, current - 1) {
                        Some(preview) => State::Search {
                            regex,
                            backup,
                            preview,
                            cursor,
                            matches,
                            current: current - 1,
                        },
                        None => State::Search { regex, backup, preview, cursor, matches, current },
                    }
                }
            },
        }
    }

    /// The cursor one line up, or one step back in the history.
    pub fn up(self, history: &History) -> (next: State)
        ensures
            next@ == self@.up(history@),
    {
        let cursor = self.cursor();
        if self.is_search() || cursor.y == 0 {
            self.history_up(history)
        } else if cursor.y as usize <= self.shown().len() {
            let to = move_onto(self.shown(), cursor, cursor.y - 1);
            self.with_cursor(to)
        } else {
            self
        }
    }

    /// The cursor one line down, or one step forth in the history.
    pub fn down(self, history: &History) -> (next: State)
        ensures
            next@ == self@.down(history@),
    {
        let cursor = self.cursor();
        let lines = self.shown().len();
        if self.is_search() || cursor.y as usize + 1 == lines {
            self.history_down(history)
        } else if cursor.y as usize + 1 < lines && cursor.y < u16::MAX {
            let to = move_onto(self.shown(), cursor, cursor.y + 1);
            self.with_cursor(to)
        } else {
            self
        }
    }

    /// Into a search, with an empty pattern and nothing found yet.
    pub fn searching(self) -> (next: State)
        ensures
            next@ == self@.searching(),
    {
        match self {
            State::Edit { buffer, cursor } => State::Search {
                regex: String::new(),
                backup: buffer,
                preview: Cmd::default(),
                cursor,
                matches: Vec::new(),
                current: 0,
            },
            State::Navigate { backup, preview, cursor, .. } => State::Search {
                regex: String::new(),
                backup,
                preview,
                cursor,
                matches: Vec::new(),
                current: 0,
            },
            other => other,
        }
    }

    /// The search after it was run again, with what it found in `history`.
    pub fn found(
        self,
        regex: String,
        cursor: Coords,
        matches: Vec<HistIdx>,
        from_first: bool,
        history: &History,
    ) -> (next: State)
        requires
            in_history(matches@, history@),
        ensures
            next@ == self@.found(regex@, cursor, matches@, from_first, history@),
    {
        match self {
            State::Search { backup, current, .. } => {
                let found = matches.len();
                let current = if from_first {
                    0
                } else if 0 < found && found <= current {
                    found - 1
                } else {
                    current
                };
                let preview = if found == 0 {
                    Cmd::default()
                } else {
                    history.get(matches[current]).clone()
                };
                State::Search { regex, backup, preview, cursor, matches, current }
            },
            other => other,
        }
    }
}

} // verus!

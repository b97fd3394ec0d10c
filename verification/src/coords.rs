//! Positions and sizes, in terminal cells.

use crate::cmd::{end_of, Cmd};
use crate::line::LineView;
use vstd::prelude::*;

verus! {

/// The size of an area: columns by rows.
#[derive(Clone, Copy, Debug, PartialEq, Eq, PartialOrd, Ord, Hash, Structural)]
pub struct Dims {
    pub width: u16,
    pub height: u16,
}

/// A position: grapheme column `x` in row `y`.
#[derive(Clone, Copy, Debug, PartialEq, Eq, PartialOrd, Ord, Hash, Structural)]
pub struct Coords {
    pub x: u16,
    pub y: u16,
}

impl Coords {
    /// The top-left cell.
    pub fn origin() -> (o: Coords)
        ensures
            o == (Coords { x: 0, y: 0 }),
    {
        Coords { x: 0, y: 0 }
    }

    pub fn is_origin(&self) -> (b: bool)
        ensures
            b == (self.x == 0 && self.y == 0),
    {
        self.x == 0 && self.y == 0
    }
}

/// Where a position lies in a command and in the area that shows it.
#[derive(Clone, Copy, Debug, PartialEq, Eq, Hash, Structural)]
pub struct CursorFlags {
    /// The position is in the first line of the command.
    pub is_top_cmd_line: bool,
    /// The position is in the last line of the command.
    pub is_bottom_cmd_line: bool,
    /// The position is at the start of a line.
    pub is_start_of_cmd_line: bool,
    /// The position is the end of the command.
    pub is_end_of_cmd_line: bool,
    /// The position is in the first row of the area.
    pub is_top_editor_row: bool,
    /// The position is in the row right below the area.
    pub is_bottom_editor_row: bool,
    /// The position is in the first column of the area.
    pub is_leftmost_editor_column: bool,
    /// The position is in the last column of the area.
    pub is_rightmost_editor_column: bool,
}

/// Where `pos` lies in `cmd` and in an area of the size `editor_dims`.
pub open spec fn flags_of(pos: Coords, editor_dims: Dims, cmd: Seq<LineView>) -> CursorFlags {
    CursorFlags {
        is_top_cmd_line: pos.y == 0,
        is_bottom_cmd_line: pos.y == cmd.len() % 0x1_0000 - 1,
        is_start_of_cmd_line: pos.x == 0,
        is_end_of_cmd_line: pos == end_of(cmd),
        is_top_editor_row: pos.y == 0,
        is_bottom_editor_row: pos.y == editor_dims.height,
        is_leftmost_editor_column: pos.x == 0,
        is_rightmost_editor_column: pos.x == editor_dims.width - 1,
    }
}

impl Coords {
    /// Where the position lies in `cmd` and in an area of the size
    /// `editor_dims`. The command has a line that `Cmd::count_lines` counts,
    /// and the area a column.
    pub fn flags(&self, editor_dims: Dims, prompt_len: u16, cmd: &Cmd) -> (flags: CursorFlags)
        requires
            cmd@.len() % 0x1_0000 != 0,
            editor_dims.width >= 1,
        ensures
            flags == flags_of(*self, editor_dims, cmd@),
    {
        let end = cmd.end_of_cmd();
        CursorFlags {
            is_top_cmd_line: self.y == 0,
            is_bottom_cmd_line: self.y == cmd.count_lines() - 1,
            is_start_of_cmd_line: self.x == 0,
            is_end_of_cmd_line: self.x == end.x && self.y == end.y,
            is_top_editor_row: self.y == 0,
            is_bottom_editor_row: self.y == editor_dims.height,
            is_leftmost_editor_column: self.x == 0,
            is_rightmost_editor_column: self.x == editor_dims.width - 1,
        }
    }
}

} // verus!

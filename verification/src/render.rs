//! What is drawn: the input area as a list of operations on the terminal.

use crate::cmd::Cmd;
use crate::coords::Coords;
use crate::line::{LineKind, LineView};
use vstd::prelude::*;

verus! {

/// One operation on the terminal.
#[derive(Clone, Copy, Debug, PartialEq, Eq, Hash, Structural)]
pub enum DrawOp {
    /// Scroll what is on the terminal up by one row.
    ScrollUp,
    /// Move the cursor to a cell.
    MoveTo(Coords),
    /// Move the cursor to a column of its row.
    MoveToColumn(u16),
    /// Move the cursor to a row, in its column.
    MoveToRow(u16),
    /// Move the cursor one row down.
    MoveDown,
    /// Clear the row of the cursor.
    ClearLine,
    /// Print the prompt of the first row.
    DefaultPrompt,
    /// Print the prompt of a later row that starts a logical line.
    ContinuePrompt,
    /// Print the prompt of the search.
    SearchPrompt,
    /// Print the row of this index.
    Row(usize),
    /// Print the pattern of the search.
    Pattern,
    /// Push everything to the terminal.
    Flush,
}

/// Whether queued output is pushed to the terminal at once.
#[derive(Clone, Copy, PartialEq, Eq, PartialOrd, Ord, Hash, Structural)]
pub enum FlushPolicy {
    Flush,
    NoFlush,
}

/// `n` times `op`.
pub open spec fn repeated(op: DrawOp, n: int) -> Seq<DrawOp> {
    Seq::new(if n > 0 { n as nat } else { 0 }, |i: int| op)
}

/// Clearing a row and stepping to the next, `height` times over.
pub open spec fn sweep(height: int) -> Seq<DrawOp> {
    Seq::new(
        if height > 0 { (2 * height) as nat } else { 0 },
        |i: int| if i % 2 == 0 { DrawOp::ClearLine } else { DrawOp::MoveDown },
    )
}

/// The rows of the input area cleared one by one, `origin` being its first
/// cell and `height` its height; the cursor is left at `origin`.
pub open spec fn cleared(origin: Coords, height: int) -> Seq<DrawOp> {
    seq![DrawOp::MoveTo(origin)] + sweep(height) + seq![DrawOp::MoveTo(origin)]
}

/// Row `i` drawn: behind the default prompt if it is the first, behind the
/// continue prompt if it starts a logical line, without a prompt if it is
/// a continuation; and the cursor put to the start of the next row.
pub open spec fn row_drawn(row: LineView, i: int) -> Seq<DrawOp> {
    let prompt = if i == 0 {
        seq![DrawOp::MoveToColumn(0), DrawOp::DefaultPrompt]
    } else if row.kind == LineKind::Start {
        seq![DrawOp::MoveToColumn(0), DrawOp::ContinuePrompt]
    } else {
        Seq::empty()
    };
    prompt + seq![DrawOp::Row(i as usize), DrawOp::MoveDown, DrawOp::MoveToColumn(0)]
}

/// The first `n` of `rows` drawn.
pub open spec fn rows_drawn(rows: Seq<LineView>, n: int) -> Seq<DrawOp>
    decreases n,
{
    if n <= 0 {
        Seq::empty()
    } else {
        rows_drawn(rows, n - 1) + row_drawn(rows[n - 1], n - 1)
    }
}

/// `n` times `ScrollUp`.
pub fn scroll_up(n: u16) -> (ops: Vec<DrawOp>)
    ensures
        ops@ == repeated(DrawOp::ScrollUp, n as int),
{
    let mut ops: Vec<DrawOp> = Vec::new();
    let mut i: u16 = 0;
    while i < n
        invariant
            i <= n,
            ops@ == repeated(DrawOp::ScrollUp, i as int),
        decreases n - i,
    {
        ops.push(DrawOp::ScrollUp);
        i += 1;
        assert(ops@ =~= repeated(DrawOp::ScrollUp, i as int));
    }
    ops
}

/// Clears the input area row by row.
pub fn clear_input_area(origin: Coords, height: u16) -> (ops: Vec<DrawOp>)
    ensures
        ops@ == cleared(origin, height as int),
{
    let mut ops: Vec<DrawOp> = Vec::new();
    ops.push(DrawOp::MoveTo(origin));
    let mut i: u16 = 0;
    assert(ops@ =~= seq![DrawOp::MoveTo(origin)] + sweep(0));
    while i < height
        invariant
            i <= height,
            ops@ == seq![DrawOp::MoveTo(origin)] + sweep(i as int),
        decreases height - i,
    {
        ops.push(DrawOp::ClearLine);
        ops.push(DrawOp::MoveDown);
        i += 1;
        assert(ops@ =~= seq![DrawOp::MoveTo(origin)] + sweep(i as int));
    }
    ops.push(DrawOp::MoveTo(origin));
    ops
}

/// Draws `rows`, each behind the prompt it is due.
pub fn render_cmd(rows: &Cmd) -> (ops: Vec<DrawOp>)
    ensures
        ops@ == rows_drawn(rows@, rows@.len() as int),
{
    let mut ops: Vec<DrawOp> = Vec::new();
    let mut i: usize = 0;
    while i < rows.len()
        invariant
            i <= rows@.len(),
            ops@ == rows_drawn(rows@, i as int),
        decreases rows@.len() - i,
    {
        let ghost before = ops@;
        if i == 0 {
            ops.push(DrawOp::MoveToColumn(0));
            ops.push(DrawOp::DefaultPrompt);
        } else if rows.line(i).is_start() {
            ops.push(DrawOp::MoveToColumn(0));
            ops.push(DrawOp::ContinuePrompt);
        }
        ops.push(DrawOp::Row(i));
        ops.push(DrawOp::MoveDown);
        ops.push(DrawOp::MoveToColumn(0));
        assert(ops@ =~= before + row_drawn(rows@[i as int], i as int));
        i += 1;
    }
    ops
}

/// What is done to the terminal to draw an input area of `height` rows
/// with its first cell at `origin`: the terminal is scrolled by `scroll`
/// rows; the area is cleared; `rows` are drawn from its first cell on;
/// if `search_row` names a row, the prompt of the search and the pattern
/// follow on that row; the cursor is put to `at`.
pub open spec fn frame_drawn(
    scroll: int,
    origin: Coords,
    height: int,
    rows: Seq<LineView>,
    search_row: Option<u16>,
    at: Coords,
) -> Seq<DrawOp> {
    let search_line = match search_row {
        Some(y) => seq![DrawOp::MoveTo(Coords { x: 0, y }), DrawOp::SearchPrompt, DrawOp::Pattern],
        None => Seq::empty(),
    };
    repeated(DrawOp::ScrollUp, scroll) + cleared(origin, height) + seq![DrawOp::MoveTo(origin)]
        + rows_drawn(rows, rows.len() as int) + search_line + seq![
        DrawOp::MoveToColumn(at.x),
        DrawOp::MoveToRow(at.y),
        DrawOp::Flush,
    ]
}

/// The operations that draw the input area.
pub fn draw_frame(
    scroll: u16,
    origin: Coords,
    height: u16,
    rows: &Cmd,
    search_row: Option<u16>,
    at: Coords,
) -> (ops: Vec<DrawOp>)
    ensures
        ops@ == frame_drawn(scroll as int, origin, height as int, rows@, search_row, at),
{
    let mut ops = scroll_up(scroll);
    let mut clear = clear_input_area(origin, height);
    ops.append(&mut clear);
    ops.push(DrawOp::MoveTo(origin));
    let mut drawn = render_cmd(rows);
    ops.append(&mut drawn);
    match search_row {
        Some(y) => {
            ops.push(DrawOp::MoveTo(Coords { x: 0, y }));
            ops.push(DrawOp::SearchPrompt);
            ops.push(DrawOp::Pattern);
        },
        None => {},
    }
    ops.push(DrawOp::MoveToColumn(at.x));
    ops.push(DrawOp::MoveToRow(at.y));
    ops.push(DrawOp::Flush);
    assert(ops@ =~= frame_drawn(scroll as int, origin, height as int, rows@, search_row, at));
    ops
}

} // verus!

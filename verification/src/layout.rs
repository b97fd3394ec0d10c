//! Where the cursor of a command stands among the rows it wraps into.

use crate::cmd::{lemma_wrap_all_push, wrap_all, Cmd};
use crate::coords::Coords;
use crate::line::{overflow_rows, Line, LineKind, LineView};
use vstd::prelude::*;

verus! {

/// How many clusters each of the continuation rows that hold `m` clusters
/// takes: `width` each, and the rest in the last one.
pub open spec fn chunk_widths(m: int, width: int) -> Seq<int>
    decreases m,
{
    if m <= 0 || width <= 0 {
        Seq::empty()
    } else {
        let k = if width < m { width } else { m };
        seq![k] + chunk_widths(m - k, width)
    }
}

/// How many clusters each row of `line` takes.
pub open spec fn row_widths(line: LineView, width: int, prompt_len: int) -> Seq<int> {
    let n = line.count() as int;
    if n == 0 {
        seq![0int]
    } else {
        let k = line.first_len(width, prompt_len);
        let first = if k > 0 { seq![k] } else { Seq::empty() };
        first + chunk_widths(n - k, width)
    }
}

/// Column `x` of a line, counted on through the rows from row `i` of the
/// line on: a row is left behind while `x` lies beyond what it takes.
pub open spec fn walk(widths: Seq<int>, i: int, x: int) -> (int, int)
    decreases widths.len() - i,
{
    if 0 <= i < widths.len() && x > widths[i] {
        walk(widths, i + 1, x - widths[i])
    } else {
        (i, x)
    }
}

/// The first row of `line` among the rows of `cmd`.
pub open spec fn first_row_of(cmd: Seq<LineView>, y: int, width: int, prompt_len: int) -> int {
    wrap_all(cmd.take(y), width, prompt_len).len() as int
}

/// The row, among the rows of `cmd`, on which the walk through the line of
/// `cursor` ends.
pub open spec fn visual_row(cmd: Seq<LineView>, cursor: Coords, width: int, prompt_len: int) -> int {
    let widths = row_widths(cmd[cursor.y as int], width, prompt_len);
    first_row_of(cmd, cursor.y as int, width, prompt_len) + walk(widths, 0, cursor.x as int).0
}

/// The column at which the cursor is drawn: what the walk leaves of
/// `cursor.x`, behind the prompt on a row that starts a logical line.
pub open spec fn visual_column(
    cmd: Seq<LineView>,
    cursor: Coords,
    width: int,
    prompt_len: int,
) -> int {
    let widths = row_widths(cmd[cursor.y as int], width, prompt_len);
    let row = wrap_all(cmd, width, prompt_len)[visual_row(cmd, cursor, width, prompt_len)];
    walk(widths, 0, cursor.x as int).1 + if row.kind == LineKind::Start {
        prompt_len
    } else {
        0
    }
}

/// Where the cursor of `cmd` is drawn among the rows of `cmd`, if it is on
/// a line of `cmd`, ends on one of the rows, and fits into 16 bits.
pub open spec fn visual_cursor(
    cmd: Seq<LineView>,
    cursor: Coords,
    width: int,
    prompt_len: int,
) -> Option<Coords> {
    let row = visual_row(cmd, cursor, width, prompt_len);
    let column = visual_column(cmd, cursor, width, prompt_len);
    if cursor.y < cmd.len() && row < wrap_all(cmd, width, prompt_len).len() && row <= u16::MAX
        && column <= u16::MAX {
        Some(Coords { x: column as u16, y: row as u16 })
    } else {
        None
    }
}

/// There is a continuation row for every entry of `chunk_widths`, and it
/// is a continuation.
pub proof fn lemma_overflow_rows_len(gs: Seq<Seq<char>>, width: int)
    requires
        width >= 1,
    ensures
        overflow_rows(gs, width).len() == chunk_widths(gs.len() as int, width).len(),
        forall|i: int|
            0 <= i < overflow_rows(gs, width).len() ==> (#[trigger] overflow_rows(
                gs,
                width,
            )[i]).kind == LineKind::Overflow,
    decreases gs.len(),
{
    if gs.len() > 0 {
        let k = if width < gs.len() { width } else { gs.len() as int };
        lemma_overflow_rows_len(gs.skip(k), width);
        assert forall|i: int| 0 <= i < overflow_rows(gs, width).len() implies (
        #[trigger] overflow_rows(gs, width)[i]).kind == LineKind::Overflow by {
            if i > 0 {
                assert(overflow_rows(gs, width)[i] == overflow_rows(gs.skip(k), width)[i - 1]);
            }
        }
    }
}

/// A line has a row for every entry of `row_widths`. Only the first can
/// start a logical line, and it does where the line does and has room
/// behind the prompt.
pub proof fn lemma_wrap_rows(line: LineView, width: int, prompt_len: int)
    requires
        width >= 1,
    ensures
        line.wrap(width, prompt_len).len() == row_widths(line, width, prompt_len).len(),
        line.wrap(width, prompt_len).len() >= 1,
        forall|i: int|
            1 <= i < line.wrap(width, prompt_len).len() ==> (#[trigger] line.wrap(
                width,
                prompt_len,
            )[i]).kind == LineKind::Overflow,
        line.wrap(width, prompt_len)[0].kind == LineKind::Start ==> line.kind == LineKind::Start
            && (line.count() == 0 || prompt_len < width),
{
    let gs = line.clusters();
    if gs.len() > 0 {
        let k = line.first_len(width, prompt_len);
        lemma_overflow_rows_len(gs.skip(k), width);
        if k == 0 {
            assert(gs.skip(0) =~= gs);
            assert(chunk_widths(gs.len() as int, width).len() >= 1);
            assert(line.wrap(width, prompt_len)[0] == overflow_rows(gs, width)[0]);
        }
    }
}

/// The rows of a command are the rows of the lines before line `y`, the
/// rows of line `y`, and the rows of the lines after it.
pub proof fn lemma_wrap_all_split(cmd: Seq<LineView>, y: int, width: int, prompt_len: int)
    requires
        0 <= y < cmd.len(),
    ensures
        wrap_all(cmd, width, prompt_len) == wrap_all(cmd.take(y), width, prompt_len) + cmd[y].wrap(
            width,
            prompt_len,
        ) + wrap_all(cmd.skip(y + 1), width, prompt_len),
{
    let wrap = |l: LineView| l.wrap(width, prompt_len);
    let before = cmd.take(y).map_values(wrap);
    let after = cmd.skip(y + 1).map_values(wrap);
    assert(cmd.map_values(wrap) =~= before.push(cmd[y].wrap(width, prompt_len)) + after);
    vstd::seq_lib::lemma_flatten_concat(before.push(cmd[y].wrap(width, prompt_len)), after);
    before.lemma_flatten_push(cmd[y].wrap(width, prompt_len));
}

/// The widths as integers.
pub open spec fn as_ints(widths: Seq<usize>) -> Seq<int> {
    widths.map_values(|k: usize| k as int)
}

/// How many clusters each row of `line` takes.
pub fn widths_of(line: &Line, editor_width: u16, prompt_len: u16) -> (widths: Vec<usize>)
    requires
        editor_width >= 1,
    ensures
        as_ints(widths@) == row_widths(line@, editor_width as int, prompt_len as int),
{
    let n = line.grapheme_count();
    let mut widths: Vec<usize> = Vec::new();
    if n == 0 {
        widths.push(0);
        assert(as_ints(widths@) =~= seq![0int]);
        return widths;
    }
    let cap: usize = if line.is_start() {
        if editor_width > prompt_len {
            (editor_width - prompt_len) as usize
        } else {
            0
        }
    } else {
        editor_width as usize
    };
    let k = if cap < n { cap } else { n };
    if k > 0 {
        widths.push(k);
        assert(as_ints(widths@) =~= seq![k as int]);
    } else {
        assert(as_ints(widths@) =~= Seq::<int>::empty());
    }
    let mut left = n - k;
    while left > 0
        invariant
            editor_width >= 1,
            as_ints(widths@) + chunk_widths(left as int, editor_width as int) == row_widths(
                line@,
                editor_width as int,
                prompt_len as int,
            ),
        decreases left,
    {
        let ghost before = as_ints(widths@);
        let step = if (editor_width as usize) < left { editor_width as usize } else { left };
        widths.push(step);
        left -= step;
        assert(as_ints(widths@) =~= before.push(step as int));
        assert(before.push(step as int) + chunk_widths(left as int, editor_width as int)
            =~= before + (seq![step as int] + chunk_widths(left as int, editor_width as int)));
    }
    assert(as_ints(widths@) + Seq::<int>::empty() =~= as_ints(widths@));
    widths
}

/// How many rows the lines in front of line `y` take.
fn rows_before(cmd: &Cmd, y: usize, editor_width: u16, prompt_len: u16) -> (rows: usize)
    requires
        editor_width >= 1,
        y < cmd@.len(),
        wrap_all(cmd@, editor_width as int, prompt_len as int).len() <= usize::MAX,
    ensures
        rows == first_row_of(cmd@, y as int, editor_width as int, prompt_len as int),
        rows + cmd@[y as int].wrap(editor_width as int, prompt_len as int).len() <= wrap_all(
            cmd@,
            editor_width as int,
            prompt_len as int,
        ).len(),
{
    let ghost width = editor_width as int;
    let ghost plen = prompt_len as int;
    let mut rows: usize = 0;
    let mut j: usize = 0;
    assert(wrap_all(cmd@.take(0), width, plen) =~= Seq::<LineView>::empty());
    while j < y
        invariant
            j <= y < cmd@.len(),
            editor_width >= 1,
            width == editor_width as int,
            plen == prompt_len as int,
            wrap_all(cmd@, width, plen).len() <= usize::MAX,
            rows == wrap_all(cmd@.take(j as int), width, plen).len(),
        decreases y - j,
    {
        let more = cmd.line(j).uncompress(editor_width, prompt_len);
        proof {
            lemma_wrap_all_split(cmd@, j as int, width, plen);
            lemma_wrap_all_push(cmd@.take(j as int), cmd@[j as int], width, plen);
            assert(cmd@.take(j + 1) =~= cmd@.take(j as int).push(cmd@[j as int]));
            assert(more.deep_view().len() == more.len());
        }
        rows += more.len();
        j += 1;
    }
    proof {
        lemma_wrap_all_split(cmd@, y as int, width, plen);
    }
    rows
}

/// Where the cursor of `cmd` is drawn among `rows`, the rows of `cmd`.
pub(crate) fn uncursor_in(
    cmd: &Cmd,
    rows: &Cmd,
    cursor: Coords,
    editor_width: u16,
    prompt_len: u16,
) -> (uc: Option<Coords>)
    requires
        editor_width >= 1,
        rows@ == wrap_all(cmd@, editor_width as int, prompt_len as int),
    ensures
        uc == visual_cursor(cmd@, cursor, editor_width as int, prompt_len as int),
        uc matches Some(at) ==> at.y < rows@.len(),
{
    if cursor.y as usize >= cmd.len() {
        return None;
    }
    let ghost width = editor_width as int;
    let ghost plen = prompt_len as int;
    let total = rows.len();
    let first = rows_before(cmd, cursor.y as usize, editor_width, prompt_len);
    let widths = widths_of(cmd.line(cursor.y as usize), editor_width, prompt_len);
    let ghost ws = as_ints(widths@);
    proof {
        lemma_wrap_rows(cmd@[cursor.y as int], width, plen);
    }
    let mut i: usize = 0;
    let mut x: usize = cursor.x as usize;
    while i < widths.len() && x > widths[i]
        invariant
            i <= widths.len(),
            ws == as_ints(widths@),
            x <= cursor.x,
            walk(ws, i as int, x as int) == walk(ws, 0, cursor.x as int),
        decreases widths.len() - i,
    {
        assert(ws[i as int] == widths[i as int]);
        x -= widths[i];
        i += 1;
    }
    proof {
        if i < widths.len() {
            assert(ws[i as int] == widths[i as int]);
        }
        assert(walk(ws, i as int, x as int) == (i as int, x as int));
        assert(ws.len() == widths.len());
    }
    let row = first + i;
    if row >= total || row > u16::MAX as usize {
        return None;
    }
    let column = if rows.line(row).is_start() { x + prompt_len as usize } else { x };
    if column > u16::MAX as usize {
        return None;
    }
    Some(Coords { x: column as u16, y: row as u16 })
}

/// Where the cursor of `cmd` is drawn among the rows that `cmd` wraps
/// into: `None` where the cursor is on no line of `cmd`, the walk ends
/// behind the last row, or the place does not fit into 16 bits.
pub fn uncursor(cmd: &Cmd, cursor: Coords, editor_width: u16, prompt_len: u16) -> (uc: Option<
    Coords,
>)
    requires
        editor_width >= 1,
    ensures
        uc == visual_cursor(cmd@, cursor, editor_width as int, prompt_len as int),
        uc matches Some(at) ==> at.y < wrap_all(
            cmd@,
            editor_width as int,
            prompt_len as int,
        ).len(),
{
    let rows = cmd.uncompress(editor_width, prompt_len);
    uncursor_in(cmd, &rows, cursor, editor_width, prompt_len)
}

proof fn lemma_walk_shift(k: int, rest: Seq<int>, i: int, x: int)
    requires
        0 <= i <= rest.len(),
    ensures
        walk(seq![k] + rest, i + 1, x) == (walk(rest, i, x).0 + 1, walk(rest, i, x).1),
    decreases rest.len() - i,
{
    let all = seq![k] + rest;
    if i < rest.len() {
        assert(all[i + 1] == rest[i]);
        if x > rest[i] {
            lemma_walk_shift(k, rest, i + 1, x - rest[i]);
        }
    }
}

/// Through continuation rows the walk passes full rows only: it ends on a
/// row, and what it leaves of `x` differs from `x` by a multiple of the
/// width.
proof fn lemma_walk_chunks(m: int, width: int, x: int)
    requires
        width >= 1,
        1 <= x <= m,
    ensures
        0 <= walk(chunk_widths(m, width), 0, x).0 < chunk_widths(m, width).len(),
        1 <= walk(chunk_widths(m, width), 0, x).1 <= width,
        walk(chunk_widths(m, width), 0, x).1 % width == x % width,
    decreases m,
{
    let k = if width < m { width } else { m };
    let rest = chunk_widths(m - k, width);
    let all = chunk_widths(m, width);
    assert(all[0] == k);
    if x > k {
        lemma_walk_chunks(m - k, width, x - k);
        lemma_walk_shift(k, rest, 0, x - k);
        vstd::arithmetic::div_mod::lemma_mod_sub_multiples_vanish(x, width);
    }
}

/// The cursor of the law below stands at the end of a row that is full: it
/// is drawn behind the last column of the area.
pub open spec fn ends_full_row(line: LineView, x: int, width: int, prompt_len: int) -> bool {
    let cap = line.first_capacity(width, prompt_len);
    x >= cap && (x - cap) % width == 0
}

/// A cursor that stands on a line of the command, no further right than
/// behind the last cluster of that line, is drawn on one of the rows of the
/// command and no further right than right behind the last column; within
/// the columns unless it stands at the end of a full row.
pub proof fn lemma_cursor_in_area(cmd: Seq<LineView>, cursor: Coords, width: int, prompt_len: int)
    requires
        0 <= prompt_len < width,
        cursor.y < cmd.len(),
        cursor.x <= cmd[cursor.y as int].count(),
    ensures
        0 <= visual_row(cmd, cursor, width, prompt_len) < wrap_all(cmd, width, prompt_len).len(),
        0 <= visual_column(cmd, cursor, width, prompt_len) <= width,
        !ends_full_row(cmd[cursor.y as int], cursor.x as int, width, prompt_len)
            ==> visual_column(cmd, cursor, width, prompt_len) < width,
{
    let y = cursor.y as int;
    let x = cursor.x as int;
    let line = cmd[y];
    let n = line.count() as int;
    let widths = row_widths(line, width, prompt_len);
    let rows = line.wrap(width, prompt_len);
    let first = first_row_of(cmd, y, width, prompt_len);
    lemma_wrap_all_split(cmd, y, width, prompt_len);
    lemma_wrap_rows(line, width, prompt_len);
    let end = walk(widths, 0, x);
    let k = line.first_len(width, prompt_len);
    let cap = line.first_capacity(width, prompt_len);
    if n == 0 {
        assert(widths[0] == 0);
        assert(end == (0int, 0int));
    } else if x <= k {
        assert(widths[0] == k);
        assert(end == (0int, x));
        if x == cap {
            vstd::arithmetic::div_mod::lemma_small_mod(0, width as nat);
        }
    } else {
        let rest = chunk_widths(n - k, width);
        assert(k == cap && k >= 1);
        assert(widths =~= seq![k] + rest);
        assert(widths[0] == k);
        lemma_walk_chunks(n - k, width, x - k);
        lemma_walk_shift(k, rest, 0, x - k);
        assert(end == walk(widths, 1, x - k));
        if end.1 == width {
            vstd::arithmetic::div_mod::lemma_mod_self_0(width);
        }
    }
    let all = wrap_all(cmd, width, prompt_len);
    assert(all[first + end.0] == rows[end.0]);
}

} // verus!

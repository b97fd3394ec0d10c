//! A command: the lines that the user edits, and the rows they wrap into.

use crate::coords::Coords;
use crate::grapheme::{lemma_clusters_empty, lemma_clusters_partition};
use crate::line::{overflow_rows, Line, LineKind, LineView};
use vstd::prelude::*;
use vstd::string::StringExecFns;

verus! {

/// The line that a new command starts with.
pub open spec fn empty_start() -> LineView {
    LineView { content: Seq::empty(), kind: LineKind::Start }
}

/// Every line starts a logical line: the form in which a command is edited,
/// stored and evaluated.
pub open spec fn is_compressed(cmd: Seq<LineView>) -> bool {
    forall|i: int| 0 <= i < cmd.len() ==> (#[trigger] cmd[i]).kind == LineKind::Start
}

/// The first line, if there is one, starts a logical line.
pub open spec fn starts_properly(cmd: Seq<LineView>) -> bool {
    cmd.len() > 0 ==> cmd[0].kind == LineKind::Start
}

/// `pos` names a line of `cmd`.
pub open spec fn on_line(cmd: Seq<LineView>, pos: Coords) -> bool {
    pos.y < cmd.len()
}

/// `cmd` after `c` was typed at `pos`. A command without lines gets one
/// first.
pub open spec fn with_char(cmd: Seq<LineView>, pos: Coords, c: char) -> Seq<LineView> {
    let base = if cmd.len() == 0 { seq![empty_start()] } else { cmd };
    base.update(pos.y as int, base[pos.y as int].insert(pos.x as int, seq![c]))
}

/// `cmd` after the line of `pos` was split in front of column `pos.x`: the
/// part from that column on becomes a logical line of its own, next below.
pub open spec fn with_split(cmd: Seq<LineView>, pos: Coords) -> Seq<LineView> {
    let line = cmd[pos.y as int];
    let head = line.with_content(line.text(0, pos.x as int));
    let tail = LineView {
        content: line.text(pos.x as int, line.count() as int),
        kind: LineKind::Start,
    };
    cmd.update(pos.y as int, head).insert(pos.y + 1, tail)
}

/// `cmd` after line `y`, which is not the first, was joined to the end of
/// the line above it.
pub open spec fn with_join(cmd: Seq<LineView>, y: int) -> Seq<LineView> {
    cmd.update(y - 1, cmd[y - 1].append(cmd[y].content)).remove(y)
}

/// `cmd` after the backspace key at `pos`.
pub open spec fn without_before(cmd: Seq<LineView>, pos: Coords) -> Seq<LineView> {
    if cmd.len() == 0 {
        cmd
    } else if pos.x > 0 {
        cmd.update(pos.y as int, cmd[pos.y as int].remove(pos.x - 1))
    } else if pos.y > 0 {
        with_join(cmd, pos.y as int)
    } else {
        cmd
    }
}

/// `cmd` after the delete key at `pos`.
pub open spec fn without_at(cmd: Seq<LineView>, pos: Coords) -> Seq<LineView> {
    if cmd.len() == 0 {
        cmd
    } else if pos.x != cmd[pos.y as int].count() {
        cmd.update(pos.y as int, cmd[pos.y as int].remove(pos.x as int))
    } else if pos.y + 1 < cmd.len() {
        with_join(cmd, pos.y + 1)
    } else {
        cmd
    }
}

/// `cmd` has an end that `count_lines` can name: it is not of 2^16 lines, or
/// a multiple of that.
pub open spec fn has_end(cmd: Seq<LineView>) -> bool {
    cmd.len() > 0 ==> cmd.len() % 0x1_0000 != 0
}

/// The position behind the last cluster of the last line of `cmd`, as far as
/// 16 bits hold it; the origin for a command without lines.
pub open spec fn end_of(cmd: Seq<LineView>) -> Coords {
    if cmd.len() == 0 {
        Coords { x: 0, y: 0 }
    } else {
        Coords { x: cmd.last().columns(), y: ((cmd.len() - 1) % 0x1_0000) as u16 }
    }
}

/// The rows that `cmd` occupies in an area `width` columns wide.
pub open spec fn wrap_all(cmd: Seq<LineView>, width: int, prompt_len: int) -> Seq<LineView> {
    cmd.map_values(|l: LineView| l.wrap(width, prompt_len)).flatten()
}

/// The logical lines that `rows` were wrapped from: each row that starts a
/// logical line, with the content of the continuation rows after it.
pub open spec fn unwrap_all(rows: Seq<LineView>) -> Seq<LineView>
    decreases rows.len(),
{
    if rows.len() == 0 {
        Seq::empty()
    } else {
        let before = unwrap_all(rows.drop_last());
        let row = rows.last();
        if row.kind == LineKind::Start || before.len() == 0 {
            before.push(row)
        } else {
            before.update(before.len() - 1, before.last().append(row.content))
        }
    }
}

/// The non-empty lines of `cmd`, each but the first after a line feed.
pub open spec fn source_code(cmd: Seq<LineView>) -> Seq<char>
    decreases cmd.len(),
{
    if cmd.len() == 0 {
        Seq::empty()
    } else {
        let before = source_code(cmd.drop_last());
        let line = cmd.last().content;
        if line.len() == 0 {
            before
        } else if before.len() == 0 {
            line
        } else {
            before + seq!['\n'] + line
        }
    }
}

/// `width` times two blanks.
pub open spec fn indent(width: int) -> Seq<char> {
    Seq::new(if width > 0 { (2 * width) as nat } else { 0 }, |i: int| ' ')
}

/// The lines of `cmd` as they are listed: each behind an indent of
/// `width`, each but the last in front of a line feed.
pub open spec fn listed(cmd: Seq<LineView>, width: int) -> Seq<char>
    decreases cmd.len(),
{
    if cmd.len() == 0 {
        Seq::empty()
    } else if cmd.len() == 1 {
        indent(width) + cmd.last().content
    } else {
        listed(cmd.drop_last(), width) + seq!['\n'] + indent(width) + cmd.last().content
    }
}

/// The lines of one command.
#[derive(Debug, PartialEq, Eq, PartialOrd, Ord, Hash)]
pub struct Cmd {
    lines: Vec<Line>,
}

impl View for Cmd {
    type V = Seq<LineView>;

    closed spec fn view(&self) -> Seq<LineView> {
        self.lines.deep_view()
    }
}

impl DeepView for Cmd {
    type V = Seq<LineView>;

    open spec fn deep_view(&self) -> Seq<LineView> {
        self@
    }
}

impl Default for Cmd {
    /// One empty line.
    fn default() -> (cmd: Cmd)
        ensures
            cmd@ == seq![empty_start()],
    {
        let lines = vec![Line::new_start()];
        assert(lines.deep_view() =~= seq![empty_start()]);
        Cmd { lines }
    }
}

impl Clone for Cmd {
    fn clone(&self) -> (cmd: Cmd)
        ensures
            cmd@ == self@,
    {
        let mut lines: Vec<Line> = Vec::new();
        let mut i: usize = 0;
        while i < self.lines.len()
            invariant
                i <= self.lines.len(),
                lines.deep_view() == self.lines.deep_view().take(i as int),
            decreases self.lines.len() - i,
        {
            let ghost before = lines.deep_view();
            let line = self.lines[i].clone();
            lines.push(line);
            assert(self.lines.deep_view()[i as int] == line@);
            assert(lines.deep_view() =~= before.push(line@));
            i += 1;
        }
        assert(lines.deep_view() =~= self.lines.deep_view());
        Cmd { lines }
    }
}

impl Cmd {
    /// The command made of `lines`.
    pub fn from_lines(lines: Vec<Line>) -> (cmd: Cmd)
        ensures
            cmd@ == lines.deep_view(),
    {
        Cmd { lines }
    }

    /// Whether the two commands have the same lines.
    pub fn same_as(&self, other: &Cmd) -> (b: bool)
        ensures
            b == (self@ == other@),
    {
        if self.lines.len() != other.lines.len() {
            return false;
        }
        let mut i: usize = 0;
        while i < self.lines.len()
            invariant
                i <= self.lines.len() == other.lines.len(),
                self@.take(i as int) == other@.take(i as int),
            decreases self.lines.len() - i,
        {
            if !self.lines[i].same_as(&other.lines[i]) {
                assert(self@[i as int] != other@[i as int]);
                return false;
            }
            assert(self@.take(i + 1) =~= self@.take(i as int).push(self@[i as int]));
            assert(other@.take(i + 1) =~= other@.take(i as int).push(other@[i as int]));
            i += 1;
        }
        assert(self@.take(i as int) =~= self@);
        assert(other@.take(i as int) =~= other@);
        true
    }

    /// The number of lines as a row: it wraps at 2^16.
    pub fn count_lines(&self) -> (n: u16)
        ensures
            n == self@.len() % 0x1_0000,
    {
        (self.lines.len() % 0x1_0000) as u16
    }

    /// The number of lines, exactly.
    pub fn len(&self) -> (n: usize)
        ensures
            n == self@.len(),
    {
        self.lines.len()
    }

    pub fn is_empty(&self) -> (b: bool)
        ensures
            b == (self@.len() == 0),
    {
        self.lines.len() == 0
    }

    pub fn lines(&self) -> (lines: &[Line])
        ensures
            lines@.len() == self@.len(),
            forall|i: int| 0 <= i < lines@.len() ==> (#[trigger] lines@[i])@ == self@[i],
    {
        self.lines.as_slice()
    }

    /// Line `i`.
    pub fn line(&self, i: usize) -> (line: &Line)
        requires
            i < self@.len(),
        ensures
            line@ == self@[i as int],
    {
        &self.lines[i]
    }

    /// Whether `end_of_cmd` can be asked.
    pub fn has_end(&self) -> (b: bool)
        ensures
            b == has_end(self@),
    {
        self.lines.len() == 0 || self.lines.len() % 0x1_0000 != 0
    }

    /// The index of the last line as `count_lines` sees it.
    pub fn max_line_idx(&self) -> (idx: Option<usize>)
        ensures
            idx == if self@.len() % 0x1_0000 > 0 {
                Some((self@.len() % 0x1_0000 - 1) as usize)
            } else {
                None
            },
    {
        let num_lines = self.count_lines() as usize;
        if num_lines > 0 {
            Some(num_lines - 1)
        } else {
            None
        }
    }

    /// Types `c` at `pos`.
    pub fn insert_char(&mut self, pos: Coords, c: char)
        requires
            if old(self)@.len() == 0 {
                pos.y == 0
            } else {
                on_line(old(self)@, pos)
            },
        ensures
            final(self)@ == with_char(old(self)@, pos, c),
    {
        if self.lines.len() == 0 {
            self.lines.push(Line::new_start());
            assert(self.lines.deep_view() =~= seq![empty_start()]);
        }
        let ghost base = self.lines.deep_view();
        self.lines[pos.y as usize].insert_char(pos.x, c);
        assert(self.lines.deep_view() =~= base.update(
            pos.y as int,
            base[pos.y as int].insert(pos.x as int, seq![c]),
        ));
    }

    /// Splits the line of `pos` in front of column `pos.x`.
    pub fn insert_empty_line(&mut self, pos: Coords)
        requires
            on_line(old(self)@, pos),
        ensures
            final(self)@ == with_split(old(self)@, pos),
    {
        let y = pos.y as usize;
        let ghost before = self.lines.deep_view();
        let count = self.lines[y].grapheme_count();
        let tail = Line::from_parts(self.lines[y].text(pos.x as usize, count), LineKind::Start);
        let head = Line::from_parts(self.lines[y].text(0, pos.x as usize), self.lines[y].kind());
        self.lines.insert(y + 1, tail);
        self.lines.set(y, head);
        assert(self.lines.deep_view() =~= with_split(before, pos));
    }

    /// Joins line `y`, which is not the first, to the end of the line above.
    fn join_up(&mut self, y: usize)
        requires
            0 < y < old(self)@.len(),
        ensures
            final(self)@ == with_join(old(self)@, y as int),
    {
        let ghost before = self.lines.deep_view();
        let removed = self.lines.remove(y);
        self.lines[y - 1].push_str(removed.as_str());
        assert(self.lines.deep_view() =~= with_join(before, y as int));
    }

    /// The backspace key: removes the cluster in front of `pos`. At the
    /// start of a line that is not the first, the line is joined to the one
    /// above. At the very start there is nothing to remove.
    pub fn rm_grapheme_before(&mut self, pos: Coords)
        requires
            old(self)@.len() > 0 ==> on_line(old(self)@, pos),
        ensures
            final(self)@ == without_before(old(self)@, pos),
    {
        if self.lines.len() == 0 {
            return ;
        }
        let ghost before = self.lines.deep_view();
        if pos.x > 0 {
            self.lines[pos.y as usize].rm_grapheme_before(pos.x);
            assert(self.lines.deep_view() =~= without_before(before, pos));
        } else if pos.y > 0 {
            self.join_up(pos.y as usize);
        }
    }

    /// The delete key: removes the cluster at `pos`. At the end of a line
    /// that is not the last, the line below is joined to it. At the very
    /// end there is nothing to remove.
    pub fn rm_grapheme_at(&mut self, pos: Coords)
        requires
            old(self)@.len() > 0 ==> on_line(old(self)@, pos),
        ensures
            final(self)@ == without_at(old(self)@, pos),
    {
        if self.lines.len() == 0 {
            return ;
        }
        let ghost before = self.lines.deep_view();
        let y = pos.y as usize;
        let is_end_of_line = pos.x as usize == self.lines[y].grapheme_count();
        let has_next_line = y + 1 < self.lines.len();
        if !is_end_of_line {
            self.lines[y].rm_grapheme_at(pos.x);
            assert(self.lines.deep_view() =~= without_at(before, pos));
        } else if has_next_line {
            self.join_up(y + 1);
        }
    }

    /// The position behind the last cluster of the last line, as
    /// `count_lines` and `Line::count_graphemes` see it; the origin for a
    /// command without lines.
    pub fn end_of_cmd(&self) -> (end: Coords)
        requires
            has_end(self@),
        ensures
            end == end_of(self@),
    {
        if self.lines.len() == 0 {
            return Coords::origin();
        }
        let last = &self.lines[self.lines.len() - 1];
        Coords { x: last.count_graphemes(), y: self.count_lines() - 1 }
    }

    /// The text that is evaluated: the non-empty lines, each but the first
    /// after a line feed.
    pub fn to_source_code(&self) -> (src: String)
        ensures
            src@ == source_code(self@),
    {
        let mut src = String::new();
        let mut i: usize = 0;
        assert(self@.take(0) =~= Seq::<LineView>::empty());
        while i < self.lines.len()
            invariant
                i <= self.lines.len(),
                src@ == source_code(self@.take(i as int)),
            decreases self.lines.len() - i,
        {
            assert(self@.take(i + 1).drop_last() =~= self@.take(i as int));
            assert(self@.take(i + 1).last() == self.lines[i as int]@);
            if !self.lines[i].is_empty() {
                if !src.as_str().is_empty() {
                    src.append("\n");
                    proof {
                        reveal_strlit("\n");
                        assert("\n"@ =~= seq!['\n']);
                    }
                }
                src.append(self.lines[i].as_str());
            }
            i += 1;
        }
        assert(self@.take(i as int) =~= self@);
        src
    }

    /// The command as text: its lines, each behind `width` times two
    /// blanks, with a line feed between them.
    pub fn listing(&self, width: usize) -> (text: String)
        ensures
            text@ == listed(self@, width as int),
    {
        let mut text = String::new();
        let mut i: usize = 0;
        assert(self@.take(0) =~= Seq::<LineView>::empty());
        while i < self.lines.len()
            invariant
                i <= self.lines.len(),
                text@ == listed(self@.take(i as int), width as int),
            decreases self.lines.len() - i,
        {
            assert(self@.take(i + 1).drop_last() =~= self@.take(i as int));
            assert(self@.take(i + 1).last() == self.lines[i as int]@);
            if i > 0 {
                text.append("\n");
                proof {
                    reveal_strlit("\n");
                    assert("\n"@ =~= seq!['\n']);
                }
            }
            let ghost before = text@;
            let mut j: usize = 0;
            assert(text@ =~= before + indent(0));
            while j < width
                invariant
                    j <= width,
                    text@ == before + indent(j as int),
                decreases width - j,
            {
                text.append("  ");
                proof {
                    reveal_strlit("  ");
                    assert("  "@ =~= seq![' ', ' ']);
                    assert(text@ =~= before + indent(j + 1));
                }
                j += 1;
            }
            text.append(self.lines[i].as_str());
            i += 1;
        }
        assert(self@.take(i as int) =~= self@);
        text
    }

    /// Merges every continuation row into the row that starts its logical
    /// line.
    pub fn compress(&self) -> (cmd: Cmd)
        requires
            starts_properly(self@),
        ensures
            cmd@ == unwrap_all(self@),
    {
        let mut clines: Vec<Line> = Vec::new();
        let mut i: usize = 0;
        assert(self@.take(0) =~= Seq::<LineView>::empty());
        while i < self.lines.len()
            invariant
                i <= self.lines.len(),
                starts_properly(self@),
                clines.deep_view() == unwrap_all(self@.take(i as int)),
                i > 0 ==> clines.len() > 0,
            decreases self.lines.len() - i,
        {
            let ghost before = clines.deep_view();
            assert(self@.take(i + 1).drop_last() =~= self@.take(i as int));
            assert(self@.take(i + 1).last() == self.lines[i as int]@);
            let line = &self.lines[i];
            if line.is_start() {
                clines.push(line.clone());
                assert(clines.deep_view() =~= before.push(line@));
            } else {
                let last = clines.len() - 1;
                clines[last].push_str(line.as_str());
                assert(clines.deep_view() =~= before.update(
                    before.len() - 1,
                    before.last().append(line@.content),
                ));
            }
            i += 1;
        }
        assert(self@.take(i as int) =~= self@);
        Cmd { lines: clines }
    }

    /// The rows that the command occupies in an area `editor_width` columns
    /// wide, with a prompt of `prompt_len` columns in front of each row
    /// that starts a logical line.
    pub fn uncompress(&self, editor_width: u16, prompt_len: u16) -> (rows: Cmd)
        requires
            editor_width >= 1,
        ensures
            rows@ == wrap_all(self@, editor_width as int, prompt_len as int),
    {
        let ghost width = editor_width as int;
        let ghost plen = prompt_len as int;
        let ghost wrap = |l: LineView| l.wrap(width, plen);
        let mut rows: Vec<Line> = Vec::new();
        let mut i: usize = 0;
        assert(self@.take(0).map_values(wrap) =~= Seq::<Seq<LineView>>::empty());
        while i < self.lines.len()
            invariant
                i <= self.lines.len(),
                editor_width >= 1,
                width == editor_width as int,
                plen == prompt_len as int,
                wrap == |l: LineView| l.wrap(width, plen),
                rows.deep_view() == self@.take(i as int).map_values(wrap).flatten(),
            decreases self.lines.len() - i,
        {
            let ghost before = rows.deep_view();
            let mut more = self.lines[i].uncompress(editor_width, prompt_len);
            let ghost added = more.deep_view();
            rows.append(&mut more);
            proof {
                assert(rows.deep_view() =~= before + added);
                assert(self@.take(i + 1).map_values(wrap) =~= self@.take(i as int).map_values(
                    wrap,
                ).push(added));
                self@.take(i as int).map_values(wrap).lemma_flatten_push(added);
            }
            i += 1;
        }
        assert(self@.take(i as int) =~= self@);
        Cmd { lines: rows }
    }
}

/// The contents of `rows`, one after the other.
pub open spec fn joined(rows: Seq<LineView>) -> Seq<char>
    decreases rows.len(),
{
    if rows.len() == 0 {
        Seq::empty()
    } else {
        joined(rows.drop_last()) + rows.last().content
    }
}

/// No row of `rows` starts a logical line.
pub open spec fn all_overflow(rows: Seq<LineView>) -> bool {
    forall|i: int| 0 <= i < rows.len() ==> (#[trigger] rows[i]).kind == LineKind::Overflow
}

proof fn lemma_joined_front(row: LineView, rows: Seq<LineView>)
    ensures
        joined(seq![row] + rows) == row.content + joined(rows),
    decreases rows.len(),
{
    let all = seq![row] + rows;
    if rows.len() == 0 {
        assert(all.drop_last() =~= rows);
        assert(all.last() == row);
        assert(joined(all) =~= row.content + joined(rows));
    } else {
        lemma_joined_front(row, rows.drop_last());
        assert(all.drop_last() =~= seq![row] + rows.drop_last());
        assert(all.last() == rows.last());
        assert(joined(all) =~= row.content + joined(rows));
    }
}

/// Continuation rows are continuations, and hold the clusters that they
/// were made of.
proof fn lemma_overflow_rows(gs: Seq<Seq<char>>, width: int)
    requires
        width >= 1,
    ensures
        all_overflow(overflow_rows(gs, width)),
        joined(overflow_rows(gs, width)) == gs.flatten(),
    decreases gs.len(),
{
    if gs.len() == 0 {
        assert(joined(overflow_rows(gs, width)) =~= gs.flatten());
    } else {
        let k = if width < gs.len() { width } else { gs.len() as int };
        let row = LineView { content: gs.take(k).flatten(), kind: LineKind::Overflow };
        let rest = overflow_rows(gs.skip(k), width);
        lemma_overflow_rows(gs.skip(k), width);
        lemma_joined_front(row, rest);
        assert(gs =~= gs.take(k) + gs.skip(k));
        vstd::seq_lib::lemma_flatten_concat(gs.take(k), gs.skip(k));
        assert forall|i: int| 0 <= i < overflow_rows(gs, width).len() implies (
        #[trigger] overflow_rows(gs, width)[i]).kind == LineKind::Overflow by {
            if i > 0 {
                assert(overflow_rows(gs, width)[i] == rest[i - 1]);
            }
        }
    }
}

/// Continuation rows at the end of `rows` go into the last logical line.
proof fn lemma_unwrap_overflow(rows: Seq<LineView>, more: Seq<LineView>)
    requires
        rows.len() > 0,
        all_overflow(more),
    ensures
        unwrap_all(rows).len() > 0,
        unwrap_all(rows + more) == unwrap_all(rows).update(
            unwrap_all(rows).len() - 1,
            unwrap_all(rows).last().append(joined(more)),
        ),
    decreases more.len(),
{
    let lines = unwrap_all(rows);
    assert(lines.len() > 0);
    if more.len() == 0 {
        assert(rows + more =~= rows);
        assert(lines.last().append(joined(more)).content =~= lines.last().content);
        assert(lines =~= lines.update(lines.len() - 1, lines.last().append(joined(more))));
    } else {
        lemma_unwrap_overflow(rows, more.drop_last());
        assert((rows + more).drop_last() =~= rows + more.drop_last());
        assert((rows + more).last() == more.last());
        let mid = unwrap_all(rows + more.drop_last());
        assert(mid.last().append(more.last().content).content =~= lines.last().content + joined(
            more,
        ));
        assert(unwrap_all(rows + more) =~= lines.update(
            lines.len() - 1,
            lines.last().append(joined(more)),
        ));
    }
}

/// The rows of a line that starts a logical line, put after other rows,
/// unwrap to that line after what the other rows unwrap to.
proof fn lemma_unwrap_wrapped_line(rows: Seq<LineView>, line: LineView, width: int, prompt_len: int)
    requires
        line.kind == LineKind::Start,
        0 <= prompt_len < width,
    ensures
        unwrap_all(rows + line.wrap(width, prompt_len)) == unwrap_all(rows).push(line),
{
    let gs = line.clusters();
    lemma_clusters_partition(line.content);
    lemma_clusters_empty(line.content);
    if gs.len() == 0 {
        let row = line.with_content(Seq::empty());
        assert(line.content =~= Seq::<char>::empty());
        assert(row == line);
        assert((rows + seq![row]).drop_last() =~= rows);
    } else {
        let k = line.first_len(width, prompt_len);
        let first = line.with_content(gs.take(k).flatten());
        let more = overflow_rows(gs.skip(k), width);
        let head = rows + seq![first];
        assert(head.drop_last() =~= rows);
        assert(unwrap_all(head) == unwrap_all(rows).push(first));
        lemma_overflow_rows(gs.skip(k), width);
        lemma_unwrap_overflow(head, more);
        assert(rows + line.wrap(width, prompt_len) =~= head + more);
        assert(gs =~= gs.take(k) + gs.skip(k));
        vstd::seq_lib::lemma_flatten_concat(gs.take(k), gs.skip(k));
        assert(first.append(joined(more)) == line);
        assert(unwrap_all(head + more) =~= unwrap_all(rows).push(line));
    }
}

/// The rows of a command with one more line are the rows of the command
/// followed by the rows of that line.
pub proof fn lemma_wrap_all_push(cmd: Seq<LineView>, line: LineView, width: int, prompt_len: int)
    ensures
        wrap_all(cmd.push(line), width, prompt_len) == wrap_all(cmd, width, prompt_len) + line.wrap(
            width,
            prompt_len,
        ),
{
    let wrap = |l: LineView| l.wrap(width, prompt_len);
    assert(cmd.push(line).map_values(wrap) =~= cmd.map_values(wrap).push(line.wrap(
        width,
        prompt_len,
    )));
    cmd.map_values(wrap).lemma_flatten_push(line.wrap(width, prompt_len));
}

/// The rows of a compressed command begin with a row that starts a logical
/// line, so that they can be merged again.
pub proof fn lemma_rows_start_properly(cmd: Seq<LineView>, width: int, prompt_len: int)
    requires
        is_compressed(cmd),
        prompt_len >= 0,
        width >= prompt_len + 1,
    ensures
        starts_properly(wrap_all(cmd, width, prompt_len)),
        cmd.len() > 0 ==> wrap_all(cmd, width, prompt_len).len() > 0,
    decreases cmd.len(),
{
    if cmd.len() == 1 {
        let rows = cmd[0].wrap(width, prompt_len);
        assert(cmd =~= Seq::<LineView>::empty().push(cmd[0]));
        lemma_wrap_all_push(Seq::empty(), cmd[0], width, prompt_len);
        assert(wrap_all(Seq::empty(), width, prompt_len) =~= Seq::<LineView>::empty());
        assert(wrap_all(cmd, width, prompt_len) =~= rows);
        assert(rows.len() > 0 && rows[0].kind == LineKind::Start);
    } else if cmd.len() > 1 {
        let before = cmd.drop_last();
        lemma_rows_start_properly(before, width, prompt_len);
        assert(cmd =~= before.push(cmd.last()));
        lemma_wrap_all_push(before, cmd.last(), width, prompt_len);
        assert(wrap_all(cmd, width, prompt_len)[0] == wrap_all(before, width, prompt_len)[0]);
    } else {
        assert(wrap_all(cmd, width, prompt_len) =~= Seq::<LineView>::empty());
    }
}

/// Wrapping a compressed command into rows and merging the rows again gives
/// the command back, whatever the width, as long as a row has room for the
/// prompt and one cluster more.
pub proof fn lemma_round_trip(cmd: Seq<LineView>, width: int, prompt_len: int)
    requires
        is_compressed(cmd),
        prompt_len >= 0,
        width >= prompt_len + 1,
    ensures
        unwrap_all(wrap_all(cmd, width, prompt_len)) == cmd,
    decreases cmd.len(),
{
    if cmd.len() == 0 {
        assert(wrap_all(cmd, width, prompt_len) =~= Seq::<LineView>::empty());
        assert(unwrap_all(wrap_all(cmd, width, prompt_len)) =~= cmd);
    } else {
        let before = cmd.drop_last();
        lemma_round_trip(before, width, prompt_len);
        assert(cmd =~= before.push(cmd.last()));
        lemma_wrap_all_push(before, cmd.last(), width, prompt_len);
        lemma_unwrap_wrapped_line(
            wrap_all(before, width, prompt_len),
            cmd.last(),
            width,
            prompt_len,
        );
    }
}

/// Rows that were merged and wrapped again are the rows they were: the
/// layout of a compressed command depends on nothing but the command and
/// the two widths.
pub proof fn lemma_wrap_is_stable(cmd: Seq<LineView>, width: int, prompt_len: int)
    requires
        is_compressed(cmd),
        prompt_len >= 0,
        width >= prompt_len + 1,
    ensures
        wrap_all(unwrap_all(wrap_all(cmd, width, prompt_len)), width, prompt_len) == wrap_all(
            cmd,
            width,
            prompt_len,
        ),
{
    lemma_round_trip(cmd, width, prompt_len);
}

} // verus!

//! A single line of a command, measured in grapheme clusters.

use crate::grapheme::{
    append_pieces, clusters, grapheme_indices_of, graphemes_of, lemma_clusters_empty,
    lemma_clusters_partition, lemma_cut_between_clusters, lemma_text_of_split, pieces, push_char,
    text_of,
};
use vstd::prelude::*;
use vstd::std_specs::convert::FromSpecImpl;
use vstd::string::StringExecFns;
use vstd::utf8::encode_utf8;

verus! {

/// What a line is to the renderer: the start of a logical line, in front of
/// which a prompt is drawn, or the wrapped continuation of the row above.
#[derive(Clone, Copy, Debug, PartialEq, Eq, PartialOrd, Ord, Hash, Structural)]
pub enum LineKind {
    Start,
    Overflow,
}

impl Default for LineKind {
    fn default() -> (k: LineKind)
        ensures
            k == LineKind::Start,
    {
        LineKind::Start
    }
}

/// The mathematical value of a [`Line`].
#[verifier::ext_equal]
pub struct LineView {
    pub content: Seq<char>,
    pub kind: LineKind,
}

impl LineView {
    /// The grapheme clusters of the content.
    pub open spec fn clusters(self) -> Seq<Seq<char>> {
        clusters(self.content)
    }

    /// The number of grapheme clusters.
    pub open spec fn count(self) -> nat {
        self.clusters().len()
    }

    /// The number of grapheme clusters as a column: it wraps at 2^16.
    pub open spec fn columns(self) -> u16 {
        (self.count() % 0x1_0000) as u16
    }

    /// The text of the clusters `from..to`, both ends clamped to the line.
    pub open spec fn text(self, from: int, to: int) -> Seq<char> {
        text_of(self.clusters(), from, to)
    }

    /// The number of characters in front of cluster `x`; of the whole line
    /// where it has no cluster `x`.
    pub open spec fn offset(self, x: int) -> int {
        self.text(0, x).len() as int
    }

    /// The line with other content.
    pub open spec fn with_content(self, content: Seq<char>) -> LineView {
        LineView { content, kind: self.kind }
    }

    /// The line after `s` was put in front of cluster `x`, or at the end
    /// where the line has no cluster `x`.
    pub open spec fn insert(self, x: int, s: Seq<char>) -> LineView {
        self.with_content(self.text(0, x) + s + self.text(x, self.count() as int))
    }

    /// The line without its cluster `x`; the line itself where it has no
    /// cluster `x`.
    pub open spec fn remove(self, x: int) -> LineView {
        self.with_content(self.text(0, x) + self.text(x + 1, self.count() as int))
    }

    /// The line with `s` at its end.
    pub open spec fn append(self, s: Seq<char>) -> LineView {
        self.with_content(self.content + s)
    }

    /// How many clusters the first row of the line takes in an area `width`
    /// columns wide: a line that starts a logical line shares its first row
    /// with a prompt of `prompt_len` columns.
    pub open spec fn first_capacity(self, width: int, prompt_len: int) -> int {
        if self.kind == LineKind::Start {
            if width > prompt_len {
                width - prompt_len
            } else {
                0
            }
        } else {
            width
        }
    }

    /// How many clusters of the line its first row holds.
    pub open spec fn first_len(self, width: int, prompt_len: int) -> int {
        let cap = self.first_capacity(width, prompt_len);
        if cap < self.count() {
            cap
        } else {
            self.count() as int
        }
    }

    /// The rows that the line occupies in an area `width` columns wide. An
    /// empty line is one empty row of the line's kind. Else the first row has
    /// the line's kind and the rows after it are continuations; no row is
    /// empty, so a first row without room for a cluster is left out.
    pub open spec fn wrap(self, width: int, prompt_len: int) -> Seq<LineView> {
        let gs = self.clusters();
        if gs.len() == 0 {
            seq![self.with_content(Seq::empty())]
        } else {
            let k = self.first_len(width, prompt_len);
            let first = if k > 0 {
                seq![self.with_content(gs.take(k).flatten())]
            } else {
                Seq::empty()
            };
            first + overflow_rows(gs.skip(k), width)
        }
    }
}

/// What is typed into a line goes between two of its clusters: every
/// character of the line stays, on its side of the place.
pub proof fn lemma_insert_between_clusters(line: LineView, x: int, s: Seq<char>)
    ensures
        0 <= line.offset(x) <= line.content.len(),
        line.insert(x, s).content == line.content.take(line.offset(x)) + s + line.content.skip(
            line.offset(x),
        ),
        line.insert(x, s).kind == line.kind,
{
    lemma_cut_between_clusters(line.content, x);
    let front = line.text(0, x);
    let back = line.text(x, line.count() as int);
    assert(line.content.take(front.len() as int) =~= front);
    assert(line.content.skip(front.len() as int) =~= back);
}

/// What is removed from a line is one whole cluster of it: every other
/// character of the line stays.
pub proof fn lemma_remove_whole_cluster(line: LineView, x: int)
    requires
        0 <= x < line.count(),
    ensures
        0 <= line.offset(x) < line.offset(x + 1) <= line.content.len(),
        line.offset(x + 1) == line.offset(x) + line.clusters()[x].len(),
        line.content.subrange(line.offset(x), line.offset(x + 1)) == line.clusters()[x],
        line.remove(x).content == line.content.take(line.offset(x)) + line.content.skip(
            line.offset(x + 1),
        ),
        line.remove(x).kind == line.kind,
{
    let parts = line.clusters();
    let n = parts.len() as int;
    lemma_clusters_partition(line.content);
    lemma_cut_between_clusters(line.content, x);
    lemma_cut_between_clusters(line.content, x + 1);
    lemma_text_of_split(parts, 0, x, x + 1);
    assert(parts.subrange(x, x + 1) =~= seq![parts[x]]);
    seq![parts[x]].lemma_flatten_one_element();
    let front = line.text(0, x);
    let middle = line.text(x, x + 1);
    let back = line.text(x + 1, n);
    assert(middle == parts[x]);
    assert(line.content =~= front + middle + back);
    assert(line.content.take(front.len() as int) =~= front);
    assert(line.content.skip((front.len() + middle.len()) as int) =~= back);
    assert(line.content.subrange(front.len() as int, (front.len() + middle.len()) as int)
        =~= middle);
}

/// The continuation rows that the clusters `gs` fill, `width` clusters to a
/// row and the rest in the last one.
pub open spec fn overflow_rows(gs: Seq<Seq<char>>, width: int) -> Seq<LineView>
    decreases gs.len(),
{
    if gs.len() == 0 || width <= 0 {
        Seq::empty()
    } else {
        let k = if width < gs.len() { width } else { gs.len() as int };
        seq![LineView { content: gs.take(k).flatten(), kind: LineKind::Overflow }] + overflow_rows(
            gs.skip(k),
            width,
        )
    }
}

/// One line of text with its kind.
#[derive(Debug, PartialEq, Eq, PartialOrd, Ord, Hash)]
pub struct Line {
    content: String,
    pub(crate) kind: LineKind,
}

impl View for Line {
    type V = LineView;

    closed spec fn view(&self) -> LineView {
        LineView { content: self.content@, kind: self.kind }
    }
}

impl DeepView for Line {
    type V = LineView;

    open spec fn deep_view(&self) -> LineView {
        self@
    }
}

impl From<(String, LineKind)> for Line {
    fn from(parts: (String, LineKind)) -> (l: Line)
        ensures
            l@ == (LineView { content: parts.0@, kind: parts.1 }),
    {
        Line { content: parts.0, kind: parts.1 }
    }
}

impl FromSpecImpl<(String, LineKind)> for Line {
    open spec fn obeys_from_spec() -> bool {
        true
    }

    closed spec fn from_spec(parts: (String, LineKind)) -> Line {
        Line { content: parts.0, kind: parts.1 }
    }
}

impl Clone for Line {
    fn clone(&self) -> (l: Line)
        ensures
            l@ == self@,
    {
        Line { content: self.content.clone(), kind: self.kind }
    }
}

impl Line {
    /// An empty line of the given kind.
    pub fn new(kind: LineKind) -> (l: Line)
        ensures
            l@ == (LineView { content: Seq::empty(), kind }),
    {
        Line { content: String::new(), kind }
    }

    /// An empty line that starts a logical line.
    pub fn new_start() -> (l: Line)
        ensures
            l@ == (LineView { content: Seq::empty(), kind: LineKind::Start }),
    {
        Line::new(LineKind::Start)
    }

    /// An empty continuation row.
    pub fn new_overflow() -> (l: Line)
        ensures
            l@ == (LineView { content: Seq::empty(), kind: LineKind::Overflow }),
    {
        Line::new(LineKind::Overflow)
    }

    /// A line of the given text and kind.
    pub fn from_parts(content: String, kind: LineKind) -> (l: Line)
        ensures
            l@ == (LineView { content: content@, kind }),
    {
        Line { content, kind }
    }

    /// Whether the two lines have the same content and kind.
    pub fn same_as(&self, other: &Line) -> (b: bool)
        ensures
            b == (self@ == other@),
    {
        let same = self.kind == other.kind && self.content == other.content;
        assert(same == (self@ == other@)) by {
            if self@ == other@ {
                assert(self@.content == other@.content);
            }
        }
        same
    }

    pub fn kind(&self) -> (k: LineKind)
        ensures
            k == self@.kind,
    {
        self.kind
    }

    pub fn is_start(&self) -> (b: bool)
        ensures
            b == (self@.kind == LineKind::Start),
    {
        self.kind == LineKind::Start
    }

    pub fn is_empty(&self) -> (b: bool)
        ensures
            b == (self@.content.len() == 0),
    {
        self.content.as_str().is_empty()
    }

    /// The text of the line.
    pub fn into_content(self) -> (s: String)
        ensures
            s@ == self@.content,
    {
        self.content
    }

    pub fn as_str(&self) -> (s: &str)
        ensures
            s@ == self@.content,
    {
        self.content.as_str()
    }

    pub fn push_str(&mut self, s: &str)
        ensures
            final(self)@ == old(self)@.append(s@),
    {
        self.content.append(s);
    }

    /// The grapheme clusters of the line, in order.
    pub fn graphemes(&self) -> (parts: Vec<&str>)
        ensures
            parts.deep_view() == self@.clusters(),
    {
        graphemes_of(self.content.as_str())
    }

    /// The text of the clusters `from..to`, both ends clamped to the line.
    pub fn text(&self, from: usize, to: usize) -> (s: String)
        ensures
            s@ == self@.text(from as int, to as int),
    {
        let parts = graphemes_of(self.content.as_str());
        let hi = if to < parts.len() { to } else { parts.len() };
        let lo = if from < hi { from } else { hi };
        let mut s = String::new();
        append_pieces(&mut s, &parts, lo, hi);
        assert(s@ =~= self@.text(from as int, to as int));
        s
    }

    /// The grapheme clusters of the line, each behind the number of bytes
    /// of the line in front of it.
    pub fn grapheme_indices(&self) -> (parts: Vec<(usize, &str)>)
        ensures
            pieces(parts@) == self@.clusters(),
            forall|i: int|
                0 <= i < parts.len() ==> (#[trigger] parts[i]).0 == encode_utf8(
                    self@.text(0, i),
                ).len(),
    {
        grapheme_indices_of(self.content.as_str())
    }

    /// The number of grapheme clusters, exactly.
    pub fn grapheme_count(&self) -> (n: usize)
        ensures
            n == self@.count(),
    {
        let parts = graphemes_of(self.content.as_str());
        parts.len()
    }

    /// The number of grapheme clusters as a column: it wraps at 2^16.
    pub fn count_graphemes(&self) -> (n: u16)
        ensures
            n == self@.columns(),
    {
        (self.grapheme_count() % 0x1_0000) as u16
    }

    /// The column of the last cluster; 0 for an empty line.
    pub fn max_x(&self) -> (x: u16)
        ensures
            x == if self@.columns() == 0 {
                0
            } else {
                self@.columns() - 1
            },
    {
        let n = self.count_graphemes();
        if n == 0 {
            0
        } else {
            n - 1
        }
    }

    /// Inserts `c` before cluster `x_pos`; at the end where `x_pos` is the
    /// number of clusters or more.
    pub fn insert_char(&mut self, x_pos: u16, c: char)
        ensures
            final(self)@ == old(self)@.insert(x_pos as int, seq![c]),
    {
        let mut content = String::new();
        {
            let parts = graphemes_of(self.content.as_str());
            let n = parts.len();
            let k = if (x_pos as usize) < n { x_pos as usize } else { n };
            append_pieces(&mut content, &parts, 0, k);
            push_char(&mut content, c);
            append_pieces(&mut content, &parts, k, n);
            assert(content@ =~= self@.text(0, x_pos as int) + seq![c] + self@.text(
                x_pos as int,
                self@.count() as int,
            ));
        }
        self.content = content;
    }

    /// Inserts `s` before cluster `x_pos`; at the end where `x_pos` is the
    /// number of clusters or more.
    pub fn insert_str(&mut self, x_pos: u16, s: &str)
        ensures
            final(self)@ == old(self)@.insert(x_pos as int, s@),
    {
        let mut content = String::new();
        {
            let parts = graphemes_of(self.content.as_str());
            let n = parts.len();
            let k = if (x_pos as usize) < n { x_pos as usize } else { n };
            append_pieces(&mut content, &parts, 0, k);
            content.append(s);
            append_pieces(&mut content, &parts, k, n);
            assert(content@ =~= self@.text(0, x_pos as int) + s@ + self@.text(
                x_pos as int,
                self@.count() as int,
            ));
        }
        self.content = content;
    }

    /// Removes cluster `xpos`; nothing where the line has no such cluster.
    pub fn rm_grapheme_at(&mut self, xpos: u16)
        ensures
            final(self)@ == old(self)@.remove(xpos as int),
    {
        let mut content = String::new();
        {
            let parts = graphemes_of(self.content.as_str());
            let n = parts.len();
            let k = if (xpos as usize) < n { xpos as usize } else { n };
            let k1 = if k < n { k + 1 } else { n };
            append_pieces(&mut content, &parts, 0, k);
            append_pieces(&mut content, &parts, k1, n);
            assert(content@ =~= self@.text(0, xpos as int) + self@.text(
                xpos + 1,
                self@.count() as int,
            ));
        }
        self.content = content;
    }

    /// The rows that the line occupies in an area `editor_width` columns
    /// wide, where a prompt of `prompt_len` columns stands in front of a
    /// row that starts a logical line.
    pub fn uncompress(&self, editor_width: u16, prompt_len: u16) -> (rows: Vec<Line>)
        requires
            editor_width >= 1,
        ensures
            rows.deep_view() == self@.wrap(editor_width as int, prompt_len as int),
    {
        proof {
            lemma_clusters_empty(self@.content);
        }
        if self.is_empty() {
            let rows = vec![Line::new(self.kind)];
            assert(rows.deep_view() =~= seq![self@.with_content(Seq::empty())]);
            return rows;
        }
        let parts = graphemes_of(self.content.as_str());
        let ghost gs = parts.deep_view();
        let ghost width = editor_width as int;
        let n = parts.len();
        let cap: usize = if self.is_start() {
            if editor_width > prompt_len {
                (editor_width - prompt_len) as usize
            } else {
                0
            }
        } else {
            editor_width as usize
        };
        let k = if cap < n { cap } else { n };
        let mut rows: Vec<Line> = Vec::new();
        if k > 0 {
            let mut content = String::new();
            append_pieces(&mut content, &parts, 0, k);
            rows.push(Line { content, kind: self.kind });
            assert(gs.take(k as int) =~= gs.subrange(0, k as int));
            assert(rows.deep_view() =~= seq![self@.with_content(gs.take(k as int).flatten())]);
        } else {
            assert(rows.deep_view() =~= Seq::<LineView>::empty());
        }
        let mut i = k;
        while i < n
            invariant
                i <= n == parts.len(),
                gs == parts.deep_view(),
                width == editor_width >= 1,
                rows.deep_view() + overflow_rows(gs.skip(i as int), width) == self@.wrap(
                    width,
                    prompt_len as int,
                ),
            decreases n - i,
        {
            let j = if n - i < editor_width as usize { n } else { i + editor_width as usize };
            let mut content = String::new();
            append_pieces(&mut content, &parts, i, j);
            let ghost before = rows.deep_view();
            rows.push(Line { content, kind: LineKind::Overflow });
            proof {
                let rest = gs.skip(i as int);
                let step = j - i;
                assert(rest.take(step) =~= gs.subrange(i as int, j as int));
                assert(rest.skip(step) =~= gs.skip(j as int));
                let row = LineView { content: rest.take(step).flatten(), kind: LineKind::Overflow };
                assert(rows.deep_view() =~= before.push(row));
                assert(before.push(row) + overflow_rows(gs.skip(j as int), width) =~= before + (
                seq![row] + overflow_rows(gs.skip(j as int), width)));
            }
            i = j;
        }
        assert(overflow_rows(gs.skip(n as int), width) =~= Seq::<LineView>::empty());
        assert(rows.deep_view() + Seq::<LineView>::empty() =~= rows.deep_view());
        rows
    }

    /// Removes the cluster in front of column `xpos`; nothing at column 0.
    pub fn rm_grapheme_before(&mut self, xpos: u16)
        ensures
            final(self)@ == if xpos == 0 {
                old(self)@
            } else {
                old(self)@.remove(xpos - 1)
            },
    {
        if xpos == 0 {
            return ;
        }
        self.rm_grapheme_at(xpos - 1);
    }
}

} // verus!

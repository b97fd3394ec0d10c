//! Extended grapheme clusters: the unit in which columns are counted.

use unicode_segmentation::UnicodeSegmentation;
use vstd::prelude::*;
use vstd::string::StringExecFns;
use vstd::utf8::encode_utf8;

verus! {

/// What `UnicodeSegmentation::graphemes` yields for the text `s` when asked
/// for extended clusters: the clusters of `s`, in order.
pub uninterp spec fn grapheme_clusters(s: Seq<char>) -> Seq<Seq<char>>;

/// `parts` cuts `s` into consecutive pieces, none of them empty.
pub open spec fn partitions(parts: Seq<Seq<char>>, s: Seq<char>) -> bool {
    &&& parts.flatten() == s
    &&& forall|i: int| 0 <= i < parts.len() ==> (#[trigger] parts[i]).len() > 0
}

/// Every character of `s` as a piece of its own.
pub open spec fn singletons(s: Seq<char>) -> Seq<Seq<char>> {
    Seq::new(s.len(), |i: int| seq![s[i]])
}

/// The extended grapheme clusters of `s`.
///
/// This is what the segmenter yields. The segmenter always cuts its input
/// into non-empty pieces; the second branch only makes that hold of
/// `clusters` on every text without an appeal to the segmenter.
pub open spec fn clusters(s: Seq<char>) -> Seq<Seq<char>> {
    if partitions(grapheme_clusters(s), s) {
        grapheme_clusters(s)
    } else {
        singletons(s)
    }
}

/// `i`, or the end of the range `0..=n` that it lies beyond.
pub open spec fn clamped(i: int, n: int) -> int {
    if i < 0 {
        0
    } else if i < n {
        i
    } else {
        n
    }
}

/// The text of the pieces `from..to` of `parts`, with both ends clamped to
/// the number of pieces.
pub open spec fn text_of(parts: Seq<Seq<char>>, from: int, to: int) -> Seq<char> {
    let hi = clamped(to, parts.len() as int);
    parts.subrange(clamped(from, hi), hi).flatten()
}

/// Its characters, each on its own, cut a text into non-empty pieces.
pub proof fn lemma_singletons_partition(s: Seq<char>)
    ensures
        partitions(singletons(s), s),
    decreases s.len(),
{
    let parts = singletons(s);
    if s.len() == 0 {
        assert(parts.flatten() =~= s);
    } else {
        lemma_singletons_partition(s.drop_first());
        assert(parts.drop_first() =~= singletons(s.drop_first()));
        assert(parts.flatten() =~= s);
    }
}

/// The clusters of a text cut it into non-empty pieces.
pub proof fn lemma_clusters_partition(s: Seq<char>)
    ensures
        partitions(clusters(s), s),
{
    if !partitions(grapheme_clusters(s), s) {
        lemma_singletons_partition(s);
    }
}

/// Non-empty pieces are no more than the characters they cover.
pub proof fn lemma_partition_len(parts: Seq<Seq<char>>, s: Seq<char>)
    requires
        partitions(parts, s),
    ensures
        parts.len() <= s.len(),
    decreases parts.len(),
{
    if parts.len() > 0 {
        let rest = parts.drop_first();
        assert(parts[0].len() > 0);
        assert forall|i: int| 0 <= i < rest.len() implies (#[trigger] rest[i]).len() > 0 by {
            assert(rest[i] == parts[i + 1]);
        }
        lemma_partition_len(rest, rest.flatten());
        assert(s.len() == parts[0].len() + rest.flatten().len());
    }
}

/// The empty text has no cluster, and only the empty text has none.
pub proof fn lemma_clusters_empty(s: Seq<char>)
    ensures
        clusters(s).len() == 0 <==> s.len() == 0,
{
    lemma_clusters_partition(s);
    lemma_partition_len(clusters(s), s);
    if clusters(s).len() == 0 {
        assert(clusters(s).flatten() =~= Seq::<char>::empty());
    }
}

/// The text of `from..to` is the text of `from..mid` followed by that of
/// `mid..to`.
pub proof fn lemma_text_of_split(parts: Seq<Seq<char>>, from: int, mid: int, to: int)
    requires
        0 <= from <= mid <= to <= parts.len(),
    ensures
        text_of(parts, from, to) == text_of(parts, from, mid) + text_of(parts, mid, to),
{
    assert(parts.subrange(from, to) =~= parts.subrange(from, mid) + parts.subrange(mid, to));
    vstd::seq_lib::lemma_flatten_concat(parts.subrange(from, mid), parts.subrange(mid, to));
}

/// Cut between two of its clusters, a text falls into the text of the
/// clusters in front of the cut and the text of those behind it.
pub proof fn lemma_cut_between_clusters(s: Seq<char>, x: int)
    ensures
        text_of(clusters(s), 0, x) + text_of(clusters(s), x, clusters(s).len() as int) == s,
{
    let parts = clusters(s);
    let n = parts.len() as int;
    lemma_clusters_partition(s);
    lemma_text_of_split(parts, 0, clamped(x, n), n);
    assert(parts.subrange(0, n) =~= parts);
}

/// Calls `UnicodeSegmentation::graphemes` on `s`, asking for extended
/// clusters, and collects what it yields. Trusted: the pieces are the
/// clusters of `s` in order, none is empty, and together they are `s`.
#[verifier::external_body]
pub(crate) fn split_graphemes<'a>(s: &'a str) -> (parts: Vec<&'a str>)
    ensures
        parts.deep_view() == grapheme_clusters(s@),
        partitions(parts.deep_view(), s@),
{
    s.graphemes(true).collect()
}

/// The text of each piece.
pub open spec fn pieces(parts: Seq<(usize, &str)>) -> Seq<Seq<char>> {
    Seq::new(parts.len(), |i: int| parts[i].1@)
}

/// Calls `UnicodeSegmentation::grapheme_indices` on `s`, asking for
/// extended clusters, and collects what it yields. Trusted: the pieces are
/// those that `graphemes` yields, and each comes with the number of bytes
/// of `s` in front of it.
#[verifier::external_body]
pub(crate) fn split_grapheme_indices<'a>(s: &'a str) -> (parts: Vec<(usize, &'a str)>)
    ensures
        pieces(parts@) == grapheme_clusters(s@),
        partitions(pieces(parts@), s@),
        forall|i: int|
            0 <= i < parts.len() ==> (#[trigger] parts[i]).0 == encode_utf8(
                text_of(pieces(parts@), 0, i),
            ).len(),
{
    s.grapheme_indices(true).collect()
}

/// The clusters of `s`, each as a slice of `s` behind the number of bytes
/// of `s` in front of it.
pub fn grapheme_indices_of<'a>(s: &'a str) -> (parts: Vec<(usize, &'a str)>)
    ensures
        pieces(parts@) == clusters(s@),
        forall|i: int|
            0 <= i < parts.len() ==> (#[trigger] parts[i]).0 == encode_utf8(
                text_of(clusters(s@), 0, i),
            ).len(),
{
    split_grapheme_indices(s)
}

/// The clusters of `s`, each as a slice of `s`.
pub fn graphemes_of<'a>(s: &'a str) -> (parts: Vec<&'a str>)
    ensures
        parts.deep_view() == clusters(s@),
{
    split_graphemes(s)
}

/// Appends `c` to `s` with `String::push`. Trusted: the text grows by
/// exactly that character.
#[verifier::external_body]
pub(crate) fn push_char(s: &mut String, c: char)
    ensures
        final(s)@ == old(s)@.push(c),
{
    s.push(c)
}

/// Appends the pieces `from..to` of `parts` to `out`.
pub(crate) fn append_pieces(out: &mut String, parts: &Vec<&str>, from: usize, to: usize)
    requires
        from <= to <= parts.len(),
    ensures
        final(out)@ == old(out)@ + text_of(parts.deep_view(), from as int, to as int),
{
    let mut i: usize = from;
    assert(parts.deep_view().subrange(from as int, from as int).flatten() =~= Seq::<char>::empty());
    while i < to
        invariant
            from <= i <= to <= parts.len(),
            out@ == old(out)@ + text_of(parts.deep_view(), from as int, i as int),
        decreases to - i,
    {
        out.append(parts[i]);
        proof {
            let dv = parts.deep_view();
            assert(dv[i as int] == parts[i as int]@);
            assert(dv.subrange(from as int, i + 1) =~= dv.subrange(from as int, i as int).push(
                dv[i as int],
            ));
            dv.subrange(from as int, i as int).lemma_flatten_push(dv[i as int]);
        }
        i += 1;
    }
}

} // verus!

//! The commands that were run, oldest first.

use crate::cmd::{listed, source_code, Cmd};
use crate::line::LineView;
use crate::pattern::{regex_is_match, regex_matches};
use regex::Regex;
use std::collections::VecDeque;
use vstd::prelude::*;
use vstd::string::StringExecFns;
use vstd::std_specs::convert::FromSpecImpl;

verus! {

/// How many commands are kept when the history is stored.
pub const UPPER_LIMIT: usize = 1000;

/// The place of a command in the history; the oldest has index 0.
#[derive(Clone, Copy, Debug, PartialEq, Eq, PartialOrd, Ord, Hash, Structural)]
pub struct HistIdx(pub usize);

impl From<usize> for HistIdx {
    fn from(index: usize) -> (idx: HistIdx) {
        HistIdx(index)
    }
}

impl FromSpecImpl<usize> for HistIdx {
    open spec fn obeys_from_spec() -> bool {
        true
    }

    open spec fn from_spec(index: usize) -> HistIdx {
        HistIdx(index)
    }
}

impl Default for HistIdx {
    fn default() -> (idx: HistIdx)
        ensures
            idx.0 == 0,
    {
        HistIdx(0)
    }
}

/// Each item of `s` once, where it stands last in `s`.
pub open spec fn last_uses<A>(s: Seq<A>) -> Seq<A>
    decreases s.len(),
{
    if s.len() == 0 {
        Seq::empty()
    } else {
        let rest = last_uses(s.drop_first());
        if rest.contains(s.first()) {
            rest
        } else {
            seq![s.first()] + rest
        }
    }
}

/// The last `limit` items of `s`; all of `s` where it has no more.
pub open spec fn newest<A>(s: Seq<A>, limit: int) -> Seq<A> {
    if s.len() <= limit {
        s
    } else {
        s.skip(s.len() - limit)
    }
}

/// What is stored of the history `s`: each command once, where it was last
/// run, and of those the newest `UPPER_LIMIT`.
pub open spec fn trimmed_of<A>(s: Seq<A>) -> Seq<A> {
    newest(last_uses(s), UPPER_LIMIT as int)
}

/// The indices at which `flags` holds, the highest first.
pub open spec fn hits(flags: Seq<bool>) -> Seq<HistIdx>
    decreases flags.len(),
{
    if flags.len() == 0 {
        Seq::empty()
    } else if flags.last() {
        seq![HistIdx((flags.len() - 1) as usize)] + hits(flags.drop_last())
    } else {
        hits(flags.drop_last())
    }
}

/// For each command of `history`, whether a regex made of `pattern`
/// matches its source text.
pub open spec fn match_flags(history: Seq<Seq<LineView>>, pattern: Seq<char>) -> Seq<bool> {
    Seq::new(history.len(), |i: int| regex_matches(pattern, source_code(history[i])))
}

/// For each command of `history`, whether the compiled pattern `regex`
/// matches its source text.
pub open spec fn compiled_flags(history: Seq<Seq<LineView>>, regex: Regex) -> Seq<bool> {
    Seq::new(history.len(), |i: int| regex_is_match(regex, source_code(history[i])))
}

/// Every index of `matches` is that of a command of `history`.
pub open spec fn in_history(matches: Seq<HistIdx>, history: Seq<Seq<LineView>>) -> bool {
    forall|i: int| 0 <= i < matches.len() ==> (#[trigger] matches[i]).0 < history.len()
}

/// The history as it is listed: a heading, and every command behind an
/// indent, each on lines of its own.
pub open spec fn listed_history(history: Seq<Seq<LineView>>) -> Seq<char>
    decreases history.len(),
{
    if history.len() == 0 {
        "History:\n"@
    } else {
        listed_history(history.drop_last()) + listed(history.last(), 1) + seq!['\n']
    }
}

/// The commands that were run.
#[derive(Debug)]
pub struct History {
    cmds: VecDeque<Cmd>,
}

impl View for History {
    type V = Seq<Seq<LineView>>;

    closed spec fn view(&self) -> Seq<Seq<LineView>> {
        self.cmds.deep_view()
    }
}

impl Default for History {
    fn default() -> (h: History)
        ensures
            h@.len() == 0,
    {
        History { cmds: VecDeque::new() }
    }
}

impl Clone for History {
    fn clone(&self) -> (h: History)
        ensures
            h@ == self@,
    {
        let mut cmds: VecDeque<Cmd> = VecDeque::new();
        let mut i: usize = 0;
        while i < self.cmds.len()
            invariant
                i <= self.cmds.len(),
                cmds.deep_view() == self.cmds.deep_view().take(i as int),
            decreases self.cmds.len() - i,
        {
            let ghost before = cmds.deep_view();
            let cmd = self.cmds[i].clone();
            cmds.push_back(cmd);
            assert(cmds.deep_view() =~= before.push(cmd@));
            assert(self.cmds.deep_view()[i as int] == cmd@);
            i += 1;
        }
        assert(cmds.deep_view() =~= self.cmds.deep_view());
        History { cmds }
    }
}

/// Whether `cmds` holds a command equal to `cmd`.
fn holds(cmds: &VecDeque<Cmd>, cmd: &Cmd) -> (b: bool)
    ensures
        b == cmds.deep_view().contains(cmd@),
{
    let mut i: usize = 0;
    while i < cmds.len()
        invariant
            i <= cmds.len(),
            forall|j: int| 0 <= j < i ==> cmds.deep_view()[j] != cmd@,
        decreases cmds.len() - i,
    {
        if cmds[i].same_as(cmd) {
            assert(cmds.deep_view()[i as int] == cmd@);
            return true;
        }
        i += 1;
    }
    false
}

impl History {
    /// The history of `cmds`, the oldest first.
    pub fn from_cmds(cmds: Vec<Cmd>) -> (h: History)
        ensures
            h@ == cmds.deep_view(),
    {
        let mut cmds = cmds;
        let ghost all = cmds.deep_view();
        let mut queue: VecDeque<Cmd> = VecDeque::new();
        while cmds.len() > 0
            invariant
                cmds.deep_view() + queue.deep_view() == all,
            decreases cmds.len(),
        {
            let ghost left = cmds.deep_view();
            let ghost right = queue.deep_view();
            let cmd = cmds.pop().unwrap();
            queue.push_front(cmd);
            assert(cmds.deep_view() =~= left.drop_last());
            assert(queue.deep_view() =~= seq![left.last()] + right);
            assert(cmds.deep_view() + queue.deep_view() =~= left + right);
        }
        assert(cmds.deep_view() + queue.deep_view() =~= queue.deep_view());
        History { cmds: queue }
    }

    /// Appends `cmd` as the newest command and returns its index.
    pub fn add_cmd(&mut self, cmd: Cmd) -> (idx: HistIdx)
        ensures
            final(self)@ == old(self)@.push(cmd@),
            idx.0 == old(self)@.len(),
    {
        let idx = HistIdx(self.cmds.len());
        let ghost before = self.cmds.deep_view();
        self.cmds.push_back(cmd);
        assert(self.cmds.deep_view() =~= before.push(cmd@));
        idx
    }

    pub fn len(&self) -> (n: usize)
        ensures
            n == self@.len(),
    {
        self.cmds.len()
    }

    /// The index of the newest command.
    pub fn max_idx(&self) -> (idx: Option<HistIdx>)
        ensures
            self@.len() <= usize::MAX,
            idx == if self@.len() > 0 {
                Some(HistIdx((self@.len() - 1) as usize))
            } else {
                None
            },
    {
        let num_cmds = self.len();
        if num_cmds > 0 {
            Some(HistIdx(num_cmds - 1))
        } else {
            None
        }
    }

    /// The command at `idx`.
    pub fn get(&self, idx: HistIdx) -> (cmd: &Cmd)
        requires
            idx.0 < self@.len(),
        ensures
            cmd@ == self@[idx.0 as int],
    {
        &self.cmds[idx.0]
    }

    /// Every command with its index, the oldest first.
    pub fn iter(&self) -> (items: Vec<(HistIdx, &Cmd)>)
        ensures
            items.len() == self@.len(),
            forall|i: int|
                0 <= i < items.len() ==> (#[trigger] items[i]).0.0 == i && items[i].1@ == self@[i],
    {
        let mut items: Vec<(HistIdx, &Cmd)> = Vec::new();
        let mut i: usize = 0;
        while i < self.cmds.len()
            invariant
                i <= self.cmds.len(),
                items.len() == i,
                forall|j: int|
                    0 <= j < i ==> (#[trigger] items[j]).0.0 == j && items[j].1@ == self@[j],
            decreases self.cmds.len() - i,
        {
            items.push((HistIdx(i), &self.cmds[i]));
            i += 1;
        }
        items
    }

    /// The history as text: a heading, and every command behind an indent.
    pub fn listing(&self) -> (text: String)
        ensures
            text@ == listed_history(self@),
    {
        let mut text = String::new();
        text.append("History:\n");
        let mut i: usize = 0;
        assert(self@.take(0) =~= Seq::<Seq<LineView>>::empty());
        while i < self.cmds.len()
            invariant
                i <= self.cmds.len(),
                text@ == listed_history(self@.take(i as int)),
            decreases self.cmds.len() - i,
        {
            assert(self@.take(i + 1).drop_last() =~= self@.take(i as int));
            assert(self@.take(i + 1).last() == self.cmds@[i as int]@);
            let cmd = self.cmds[i].listing(1);
            text.append(cmd.as_str());
            text.append("\n");
            proof {
                reveal_strlit("\n");
                assert("\n"@ =~= seq!['\n']);
            }
            i += 1;
        }
        assert(self@.take(i as int) =~= self@);
        text
    }

    /// What is stored of the history: each command once, where it was last
    /// run, and of those the newest `UPPER_LIMIT`, oldest first.
    pub fn trimmed(&self) -> (out: History)
        ensures
            out@ == trimmed_of(self@),
    {
        let mut cmds: VecDeque<Cmd> = VecDeque::new();
        let mut i: usize = self.cmds.len();
        assert(self@.skip(i as int) =~= Seq::<Seq<LineView>>::empty());
        assert(cmds.deep_view() =~= Seq::<Seq<LineView>>::empty());
        while i > 0 && cmds.len() < UPPER_LIMIT
            invariant
                i <= self.cmds.len(),
                cmds.len() <= UPPER_LIMIT,
                cmds.deep_view() == last_uses(self@.skip(i as int)),
            decreases i,
        {
            i -= 1;
            let ghost before = cmds.deep_view();
            assert(self@.skip(i as int).drop_first() =~= self@.skip(i + 1));
            assert(self@.skip(i as int).first() == self.cmds@[i as int]@);
            let cmd = &self.cmds[i];
            if !holds(&cmds, cmd) {
                cmds.push_front(cmd.clone());
                assert(cmds.deep_view() =~= seq![cmd@] + before);
            }
        }
        proof {
            lemma_last_uses_suffix(self@, i as int);
            if i == 0 {
                assert(self@.skip(0) =~= self@);
            }
        }
        History { cmds }
    }

    /// The indices of the commands whose source text `regex` matches, the
    /// newest first.
    pub fn search_with(&self, regex: &Regex) -> (found: Vec<HistIdx>)
        ensures
            found@ == hits(compiled_flags(self@, *regex)),
    {
        let mut flags: Vec<bool> = Vec::new();
        let mut i: usize = 0;
        while i < self.cmds.len()
            invariant
                i <= self.cmds.len(),
                flags@ == compiled_flags(self@, *regex).take(i as int),
            decreases self.cmds.len() - i,
        {
            let src = self.cmds[i].to_source_code();
            let flag = regex.is_match(src.as_str());
            let ghost before = flags@;
            flags.push(flag);
            assert(flags@ =~= compiled_flags(self@, *regex).take(
                i + 1,
            ));
            i += 1;
        }
        assert(flags@ =~= compiled_flags(self@, *regex));
        indices_of(&flags)
    }

    /// What a search finds once its pattern went through the compiler:
    /// the commands that the compiled pattern matches, the newest first;
    /// nothing where the pattern did not compile.
    pub fn search_compiled(&self, compiled: Result<Regex, regex::Error>) -> (found: Vec<HistIdx>)
        ensures
            found@ == match compiled {
                Ok(regex) => hits(compiled_flags(self@, regex)),
                Err(_) => Seq::empty(),
            },
    {
        match compiled {
            Ok(regex) => self.search_with(&regex),
            Err(_) => Vec::new(),
        }
    }

    /// The indices of the commands whose source text the pattern `regex`
    /// matches, the newest first; none where `regex` does not compile.
    pub fn reverse_search(&self, regex: &str) -> (found: Vec<HistIdx>)
        ensures
            found@ == hits(match_flags(self@, regex@)) || found@.len() == 0,
    {
        let compiled = Regex::new(regex);
        proof {
            if compiled is Ok {
                assert(compiled_flags(self@, compiled->Ok_0) =~= match_flags(self@, regex@));
            }
        }
        self.search_compiled(compiled)
    }
}

/// The indices at which `flags` holds, the highest first.
pub fn indices_of(flags: &Vec<bool>) -> (found: Vec<HistIdx>)
    ensures
        found@ == hits(flags@),
{
    let mut found: Vec<HistIdx> = Vec::new();
    let mut i: usize = flags.len();
    assert(flags@.take(i as int) =~= flags@);
    while i > 0
        invariant
            i <= flags.len(),
            found@ + hits(flags@.take(i as int)) == hits(flags@),
        decreases i,
    {
        let ghost before = found@;
        let ghost rest = flags@.take(i as int);
        i -= 1;
        assert(rest.drop_last() =~= flags@.take(i as int));
        assert(rest.last() == flags[i as int]);
        if flags[i] {
            found.push(HistIdx(i));
            assert(found@ + hits(flags@.take(i as int)) =~= before + (seq![HistIdx(i)] + hits(
                flags@.take(i as int),
            )));
        }
    }
    assert(found@ + hits(flags@.take(0)) =~= found@);
    found
}

/// What is found are indices of the flags.
pub proof fn lemma_hits_in_range(flags: Seq<bool>)
    ensures
        forall|i: int| 0 <= i < hits(flags).len() ==> (#[trigger] hits(flags)[i]).0 < flags.len(),
    decreases flags.len(),
{
    if flags.len() > 0 {
        lemma_hits_in_range(flags.drop_last());
        assert forall|i: int| 0 <= i < hits(flags).len() implies (#[trigger] hits(flags)[i]).0
            < flags.len() by {
            if flags.last() {
                if i > 0 {
                    assert(hits(flags)[i] == hits(flags.drop_last())[i - 1]);
                }
            }
        }
    }
}

/// An item is among the last uses of `s` exactly if it is in `s`.
pub proof fn lemma_last_uses_contains<A>(s: Seq<A>, a: A)
    ensures
        last_uses(s).contains(a) <==> s.contains(a),
    decreases s.len(),
{
    if s.len() > 0 {
        let rest = last_uses(s.drop_first());
        lemma_last_uses_contains(s.drop_first(), a);
        lemma_last_uses_contains(s.drop_first(), s.first());
        if s.contains(a) {
            let i = choose|i: int| 0 <= i < s.len() && s[i] == a;
            if i > 0 {
                assert(s.drop_first()[i - 1] == a);
            }
        }
        if s.drop_first().contains(a) {
            let i = choose|i: int| 0 <= i < s.drop_first().len() && s.drop_first()[i] == a;
            assert(s[i + 1] == a);
        }
        if !rest.contains(s.first()) {
            let all = seq![s.first()] + rest;
            if rest.contains(a) {
                let i = choose|i: int| 0 <= i < rest.len() && rest[i] == a;
                assert(all[i + 1] == a);
            }
            if all.contains(a) {
                let i = choose|i: int| 0 <= i < all.len() && all[i] == a;
                if i > 0 {
                    assert(rest[i - 1] == a);
                } else {
                    assert(s[0] == a);
                }
            }
            assert(all[0] == s.first());
        } else {
            assert(s[0] == s.first());
        }
    }
}

/// The last uses of the items from `i` on are the end of the last uses of
/// all items.
pub proof fn lemma_last_uses_suffix<A>(s: Seq<A>, i: int)
    requires
        0 <= i <= s.len(),
    ensures
        last_uses(s.skip(i)).len() <= last_uses(s).len(),
        last_uses(s.skip(i)) == last_uses(s).skip(
            last_uses(s).len() - last_uses(s.skip(i)).len(),
        ),
    decreases i,
{
    if i == 0 {
        assert(s.skip(0) =~= s);
        assert(last_uses(s).skip(0) =~= last_uses(s));
    } else {
        lemma_last_uses_suffix(s, i - 1);
        let outer = last_uses(s.skip(i - 1));
        let inner = last_uses(s.skip(i));
        assert(s.skip(i - 1).drop_first() =~= s.skip(i));
        assert(inner =~= outer.skip(outer.len() - inner.len()));
        let all = last_uses(s);
        assert(inner =~= all.skip(all.len() - inner.len()));
    }
}

/// No item stands twice among the last uses.
pub proof fn lemma_last_uses_no_duplicates<A>(s: Seq<A>)
    ensures
        last_uses(s).no_duplicates(),
    decreases s.len(),
{
    if s.len() > 0 {
        lemma_last_uses_no_duplicates(s.drop_first());
    }
}

/// Where no item stands twice, every item is its own last use.
pub proof fn lemma_last_uses_of_distinct<A>(s: Seq<A>)
    requires
        s.no_duplicates(),
    ensures
        last_uses(s) == s,
    decreases s.len(),
{
    if s.len() > 0 {
        let rest = s.drop_first();
        assert(rest.no_duplicates()) by {
            assert forall|i: int, j: int|
                0 <= i < rest.len() && 0 <= j < rest.len() && i != j implies rest[i] != rest[j] by {
                assert(rest[i] == s[i + 1] && rest[j] == s[j + 1]);
            }
        }
        lemma_last_uses_of_distinct(rest);
        if rest.contains(s.first()) {
            let i = choose|i: int| 0 <= i < rest.len() && rest[i] == s.first();
            assert(s[i + 1] == s[0]);
        }
        assert(seq![s.first()] + rest =~= s);
    }
}

/// The stored history holds no command twice, and no more than
/// `UPPER_LIMIT` commands.
pub proof fn lemma_trimmed_is_trim<A>(s: Seq<A>)
    ensures
        trimmed_of(s).no_duplicates(),
        trimmed_of(s).len() <= UPPER_LIMIT,
        forall|a: A| trimmed_of(s).contains(a) ==> s.contains(a),
        s.len() > 0 ==> trimmed_of(s).len() > 0 && trimmed_of(s).last() == s.last(),
{
    let all = last_uses(s);
    let kept = trimmed_of(s);
    lemma_last_uses_no_duplicates(s);
    assert forall|a: A| kept.contains(a) implies s.contains(a) by {
        let i = choose|i: int| 0 <= i < kept.len() && kept[i] == a;
        if all.len() > UPPER_LIMIT {
            assert(all[i + all.len() - UPPER_LIMIT] == a);
        }
        lemma_last_uses_contains(s, a);
    }
    if s.len() > 0 {
        lemma_last_uses_suffix(s, s.len() - 1);
        let tail = s.skip(s.len() - 1);
        assert(tail.drop_first() =~= Seq::<A>::empty());
        assert(last_uses(tail.drop_first()) =~= Seq::<A>::empty());
        assert(tail.first() == s.last());
        assert(last_uses(tail) =~= seq![s.last()]);
        assert(all.skip(all.len() - 1)[0] == all.last());
        assert(all.last() == s.last());
    }
}

/// Of a history in which no command was run twice, the newest
/// `UPPER_LIMIT` commands are stored, in their order.
pub proof fn lemma_trimmed_of_distinct<A>(s: Seq<A>)
    requires
        s.no_duplicates(),
    ensures
        trimmed_of(s) == newest(s, UPPER_LIMIT as int),
{
    lemma_last_uses_of_distinct(s);
}

/// A command that was run twice, with commands between the two runs that
/// were each run once, is stored once: where it was run last.
pub proof fn lemma_trimmed_of_repeat<A>(before: Seq<A>, cmd: A, between: Seq<A>)
    requires
        (before + seq![cmd] + between).no_duplicates(),
    ensures
        last_uses(before + seq![cmd] + between + seq![cmd]) == before + between + seq![cmd],
        trimmed_of(before + seq![cmd] + between + seq![cmd]) == newest(
            before + between + seq![cmd],
            UPPER_LIMIT as int,
        ),
    decreases before.len(),
{
    let once = before + seq![cmd] + between;
    let twice = once + seq![cmd];
    let rest = twice.drop_first();
    if before.len() == 0 {
        assert(rest =~= between + seq![cmd]);
        assert(rest.no_duplicates()) by {
            assert forall|i: int, j: int|
                0 <= i < rest.len() && 0 <= j < rest.len() && i != j implies rest[i] != rest[j] by {
                let a = if i < between.len() { i + 1 } else { 0 };
                let b = if j < between.len() { j + 1 } else { 0 };
                assert(rest[i] == once[a] && rest[j] == once[b]);
            }
        }
        lemma_last_uses_of_distinct(rest);
        assert(rest[between.len() as int] == cmd);
        assert(twice.first() == cmd);
        assert(last_uses(twice) =~= before + between + seq![cmd]);
    } else {
        let shorter = before.drop_first();
        assert(rest =~= shorter + seq![cmd] + between + seq![cmd]);
        let inner = shorter + seq![cmd] + between;
        assert(inner =~= once.drop_first());
        assert(inner.no_duplicates()) by {
            assert forall|i: int, j: int|
                0 <= i < inner.len() && 0 <= j < inner.len() && i != j implies inner[i]
                != inner[j] by {
                assert(inner[i] == once[i + 1] && inner[j] == once[j + 1]);
            }
        }
        lemma_trimmed_of_repeat(shorter, cmd, between);
        let kept = shorter + between + seq![cmd];
        assert(last_uses(rest) == kept);
        if kept.contains(twice.first()) {
            let i = choose|i: int| 0 <= i < kept.len() && kept[i] == twice.first();
            let a = if i < shorter.len() {
                i + 1
            } else if i < shorter.len() + between.len() {
                i + 2
            } else {
                before.len() as int
            };
            assert(kept[i] == once[a]);
            assert(twice.first() == once[0]);
        }
        assert(seq![twice.first()] + kept =~= before + between + seq![cmd]);
    }
}

} // verus!

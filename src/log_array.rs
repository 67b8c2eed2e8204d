use crate::raft_state::Term;
use vstd::prelude::*;

verus! {

/// A zero-based position in the log.
pub type Index = usize;

/// One entry of the replicated log. The entry at index 0 is a sentinel and
/// carries no command.
#[derive(Debug)]
pub struct LogEntry {
    pub index: Index,
    pub term: Term,
    pub command: Option<Vec<u8>>,
}

/// An entry as a value: its index, its term and the bytes of its command.
pub type EntryView = (Index, Term, Option<Seq<u8>>);

impl View for LogEntry {
    type V = EntryView;

    open spec fn view(&self) -> EntryView {
        (
            self.index,
            self.term,
            match self.command {
                Some(c) => Some(c@),
                None => None,
            },
        )
    }
}

/// A copy of a byte buffer.
pub fn copy_bytes(v: &Vec<u8>) -> (r: Vec<u8>)
    ensures
        r@ == v@,
{
    let mut r: Vec<u8> = Vec::new();
    let mut i: usize = 0;
    while i < v.len()
        invariant
            i <= v@.len(),
            r@ == v@.subrange(0, i as int),
        decreases v@.len() - i,
    {
        r.push(v[i]);
        i = i + 1;
        assert(r@ =~= v@.subrange(0, i as int));
    }
    assert(v@.subrange(0, v@.len() as int) =~= v@);
    r
}

impl LogEntry {
    /// A copy of this entry.
    pub fn duplicate(&self) -> (r: LogEntry)
        ensures
            r@ == self@,
    {
        LogEntry {
            index: self.index,
            term: self.term,
            command: match &self.command {
                Some(c) => Some(copy_bytes(c)),
                None => None,
            },
        }
    }
}

/// The entry `e` put at position `at`.
pub open spec fn placed(e: EntryView, at: int) -> EntryView {
    (at as Index, e.1, e.2)
}

/// A log after the entries sent by a leader are laid down from position `at`:
/// an entry whose term agrees with the one already there is kept; at the first
/// one that does not, the log is cut there and the rest is appended.
pub open spec fn reconcile(log: Seq<EntryView>, at: int, entries: Seq<EntryView>) -> Seq<EntryView>
    decreases entries.len(),
{
    if entries.len() == 0 {
        log
    } else if at < log.len() && log[at].1 == entries[0].1 {
        reconcile(log, at + 1, entries.drop_first())
    } else {
        reconcile(log.subrange(0, at).push(placed(entries[0], at)), at + 1, entries.drop_first())
    }
}

/// The ordered log of a node, starting with the sentinel entry.
#[derive(Debug)]
pub struct LogArray {
    pub inner: Vec<LogEntry>,
}

impl View for LogArray {
    type V = Seq<EntryView>;

    open spec fn view(&self) -> Seq<EntryView> {
        self.inner@.map_values(|e: LogEntry| e@)
    }
}

impl LogArray {
    /// The sentinel is in place and every entry's index is its position.
    pub open spec fn wf(&self) -> bool {
        &&& self@.len() >= 1
        &&& self@[0] == (0usize, Term(0), None::<Seq<u8>>)
        &&& forall|i: int| 0 <= i < self@.len() ==> (#[trigger] self@[i]).0 == i
    }

    /// Create the initial Raft log with no user-supplied commands.
    pub fn create() -> (r: LogArray)
        ensures
            r.wf(),
            r@ == seq![(0usize, Term(0), None::<Seq<u8>>)],
    {
        let ret = LogArray { inner: vec![Self::build_first_entry(0, Term(0))] };
        assert(ret@ =~= seq![(0usize, Term(0), None::<Seq<u8>>)]);
        ret
    }

    pub fn build_first_entry(index: Index, term: Term) -> (r: LogEntry)
        ensures
            r@ == (index, term, None::<Seq<u8>>),
    {
        LogEntry { index, term, command: None }
    }

    pub fn len(&self) -> (r: usize)
        ensures
            r == self@.len(),
    {
        self.inner.len()
    }

    /// The index of the last entry.
    pub fn last_index(&self) -> (r: Index)
        requires
            self.wf(),
        ensures
            r == self@.len() - 1,
    {
        self.inner.len() - 1
    }

    /// The term of the last entry.
    pub fn last_term(&self) -> (r: Term)
        requires
            self.wf(),
        ensures
            r == self@.last().1,
    {
        self.inner[self.inner.len() - 1].term
    }

    pub fn term_at(&self, index: Index) -> (r: Term)
        requires
            index < self@.len(),
        ensures
            r == self@[index as int].1,
    {
        self.inner[index].term
    }

    pub fn entry_at(&self, index: Index) -> (r: &LogEntry)
        requires
            index < self@.len(),
        ensures
            r@ == self@[index as int],
    {
        &self.inner[index]
    }

    /// Whether the log holds an entry at `index` with term `term`.
    pub fn matches(&self, index: Index, term: Term) -> (r: bool)
        ensures
            r == (index < self@.len() && self@[index as int].1 == term),
    {
        index < self.inner.len() && self.inner[index].term == term
    }

    /// Appends a new entry at the tail and returns its index.
    pub fn append(&mut self, term: Term, command: Option<Vec<u8>>) -> (r: Index)
        requires
            old(self).wf(),
        ensures
            final(self).wf(),
            r == old(self)@.len(),
            final(self)@ == old(self)@.push(
                (
                    r,
                    term,
                    match command {
                        Some(c) => Some(c@),
                        None => None,
                    },
                ),
            ),
    {
        let index = self.inner.len();
        self.inner.push(LogEntry { index, term, command });
        assert(self@ =~= old(self)@.push(self.inner@[index as int]@));
        index
    }

    /// Discards every entry from `index` on. The sentinel stays.
    pub fn truncate_from(&mut self, index: Index)
        requires
            old(self).wf(),
            index >= 1,
        ensures
            final(self).wf(),
            final(self)@ == old(self)@.subrange(
                0,
                if index < old(self)@.len() {
                    index as int
                } else {
                    old(self)@.len() as int
                },
            ),
    {
        self.inner.truncate(index);
        assert(self@ =~= old(self)@.subrange(
            0,
            if index < old(self)@.len() {
                index as int
            } else {
                old(self)@.len() as int
            },
        ));
    }

    /// Copies of the entries from `from` to the end.
    pub fn entries_from(&self, from: Index) -> (r: Vec<LogEntry>)
        requires
            from <= self@.len(),
        ensures
            r@.map_values(|e: LogEntry| e@) == self@.subrange(from as int, self@.len() as int),
    {
        let mut r: Vec<LogEntry> = Vec::new();
        let mut i: usize = from;
        while i < self.inner.len()
            invariant
                from <= i <= self@.len(),
                r@.map_values(|e: LogEntry| e@) == self@.subrange(from as int, i as int),
            decreases self@.len() - i,
        {
            let d = self.inner[i].duplicate();
            assert(d@ == self@[i as int]);
            let ghost before = r@;
            r.push(d);
            assert(r@.map_values(|e: LogEntry| e@) =~= before.map_values(|e: LogEntry| e@).push(d@));
            i = i + 1;
            assert(r@.map_values(|e: LogEntry| e@) =~= self@.subrange(from as int, i as int));
        }
        r
    }

    /// Lays down `entries[from..]`, sent by a leader, from position `at` on,
    /// keeping those already present with the same term and replacing the log
    /// from the first one that conflicts.
    pub fn merge_entries(&mut self, at: Index, entries: &Vec<LogEntry>, from: usize)
        requires
            old(self).wf(),
            1 <= at <= old(self)@.len(),
            from <= entries@.len(),
            at + (entries@.len() - from) <= usize::MAX,
        ensures
            final(self).wf(),
            final(self)@ == reconcile(
                old(self)@,
                at as int,
                entries@.map_values(|e: LogEntry| e@).skip(from as int),
            ),
    {
        let ghost all = entries@.map_values(|e: LogEntry| e@);
        let mut k: usize = from;
        while k < entries.len()
            invariant
                self.wf(),
                from <= k <= entries@.len(),
                at + (entries@.len() - from) <= usize::MAX,
                1 <= at + (k - from) <= self@.len(),
                all == entries@.map_values(|e: LogEntry| e@),
                reconcile(old(self)@, at as int, all.skip(from as int)) == reconcile(
                    self@,
                    at + (k - from),
                    all.skip(k as int),
                ),
            decreases entries@.len() - k,
        {
            let pos = at + (k - from);
            let e = &entries[k];
            let ghost rest = all.skip(k as int);
            assert(rest.drop_first() =~= all.skip(k + 1));
            assert(rest[0] == e@);
            if pos < self.inner.len() && self.inner[pos].term == e.term {
            } else {
                self.truncate_from(pos);
                let ghost cut = self@;
                let mut copy = e.duplicate();
                copy.index = pos;
                self.inner.push(copy);
                assert(self@ =~= cut.push(placed(e@, pos as int)));
            }
            k = k + 1;
        }
        assert(all.skip(k as int) =~= Seq::<EntryView>::empty());
    }
}

/// Laying entries down from `at` keeps the log before `at`, leaves room for
/// every entry sent, and puts each at its place with the term it was sent with.
pub proof fn lemma_reconcile(log: Seq<EntryView>, at: int, entries: Seq<EntryView>)
    requires
        0 <= at <= log.len(),
    ensures
        reconcile(log, at, entries).len() >= at + entries.len(),
        reconcile(log, at, entries).subrange(0, at) == log.subrange(0, at),
        forall|j: int|
            0 <= j < entries.len() ==> (#[trigger] reconcile(log, at, entries)[at + j]).1
                == entries[j].1,
        entries.len() == 0 ==> reconcile(log, at, entries) == log,
    decreases entries.len(),
{
    if entries.len() > 0 {
        let rest = entries.drop_first();
        let next = if at < log.len() && log[at].1 == entries[0].1 {
            log
        } else {
            log.subrange(0, at).push(placed(entries[0], at))
        };
        lemma_reconcile(next, at + 1, rest);
        let r = reconcile(log, at, entries);
        assert(r == reconcile(next, at + 1, rest));
        assert(r.subrange(0, at) =~= r.subrange(0, at + 1).subrange(0, at));
        assert(next.subrange(0, at) =~= log.subrange(0, at));
        assert(next.subrange(0, at + 1).subrange(0, at) =~= next.subrange(0, at));
        assert(r[at] == r.subrange(0, at + 1)[at]);
        assert forall|j: int| 0 <= j < entries.len() implies (#[trigger] r[at + j]).1
            == entries[j].1 by {
            if j > 0 {
                assert(r[(at + 1) + (j - 1)] == r[at + j]);
                assert(rest[j - 1] == entries[j]);
            }
        }
    }
}

/// When a follower whose log agrees with the Leader's at `next - 1` accepts the
/// Leader's entries from `next` on (leaving the first `k` of them, which it has
/// already settled), its log holds, at every index from `next + k` to the
/// Leader's last, an entry of the same term as the Leader's, and is unchanged
/// before `next + k`.
pub proof fn lemma_accepted_entries_match_leader(
    leader: Seq<EntryView>,
    follower: Seq<EntryView>,
    next: int,
    k: int,
)
    requires
        1 <= next <= leader.len(),
        0 <= k <= leader.len() - next,
        next + k <= follower.len(),
    ensures
        ({
            let merged = reconcile(
                follower,
                next + k,
                leader.subrange(next, leader.len() as int).skip(k),
            );
            &&& merged.subrange(0, next + k) == follower.subrange(0, next + k)
            &&& forall|j: int| next + k <= j < leader.len() ==> (#[trigger] merged[j]).1 == leader[j].1
        }),
{
    let sent = leader.subrange(next, leader.len() as int).skip(k);
    lemma_reconcile(follower, next + k, sent);
    let merged = reconcile(follower, next + k, sent);
    assert forall|j: int| next + k <= j < leader.len() implies (#[trigger] merged[j]).1
        == leader[j].1 by {
        assert(merged[(next + k) + (j - next - k)] == merged[j]);
        assert(sent[j - next - k] == leader[j]);
    }
}

} // verus!

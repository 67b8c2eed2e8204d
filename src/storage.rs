use crate::decimal::{decimal, parse_decimal};
use crate::log_array::{copy_bytes, Index, LogEntry};
use crate::raft_state::{Peer, Term};
use vstd::prelude::*;
use vstd::utf8::encode_utf8;

verus! {

/// std's I/O error, carried unread in the result of `read_state`.
#[verifier::external_type_specification]
#[verifier::external_body]
pub struct ExIoError(std::io::Error);

/// A reference type that points to a Raft log entry. Used as input parameters
/// in the storage interface `RaftStoragePersisterTrait`.
/// This is to keep the implementation details of Raft log array separated from
/// the public storage interface.
pub trait RaftLogEntryRef {
    fn index(&self) -> Index;

    fn term(&self) -> Term;

    fn command_bytes(&self) -> Vec<u8>;
}

/// Adapter from the internal `LogEntry` type to the public interface.
impl RaftLogEntryRef for LogEntry {
    fn index(&self) -> Index {
        self.index
    }

    fn term(&self) -> Term {
        self.term
    }

    fn command_bytes(&self) -> Vec<u8> {
        match &self.command {
            Some(c) => copy_bytes(c),
            None => Vec::new(),
        }
    }
}

/// An object that writes data to the underlying storage. A typical disk-based
/// implementation can be implemented as follows:
/// 1. A file large enough to store a few integers: term, ID of voted for peer,
/// and a pair of disk offsets of valid log entries.
/// 2. A list of continuous disk blocks used to store an array of
/// `RaftStoredLogEntry` bytes.
/// 3. Another list of continuous disk blocks that stores the application
/// snapshot.
pub trait RaftStoragePersisterTrait<LogEntry: RaftLogEntryRef>: Send + Sync + 'static {
    /// Save the term and vote to storage.
    fn save_term_vote(&self, term: Term, voted_for: String);

    /// Append one entry to the saved log, overriding the existing entry at the
    /// same index if it is previously appended. Any existing entries after the
    /// give index are discarded.
    fn append_one_entry(&self, entry: &LogEntry);
}

/// An object that watches the underlying storage system and help Raft decide
/// if a log compaction, i.e. taking a snapshot, is needed.
pub trait RaftStorageMonitorTrait: Send + 'static {
    /// Returns true when the storage system requires a log compaction.
    fn should_compact_log_now(&self) -> bool;
}

/// A concrete type that holds one log entry read from the storage.
pub struct RaftStoredLogEntry {
    pub index: Index,
    pub term: Term,
    pub command: Vec<u8>,
}

/// A concrete type that holds all information that is needed to restore the
/// Raft log array and application state right after the instance starts.
pub struct RaftStoredState {
    pub current_term: Term,
    pub voted_for: String,
    pub log: Vec<RaftStoredLogEntry>,
    pub snapshot_index: Index,
    pub snapshot_term: Term,
    pub snapshot: Vec<u8>,
}

/// The stored vote: the decimal position of the peer voted for, or nothing.
pub open spec fn stored_vote(s: Seq<u8>) -> Option<Peer> {
    match decimal(s) {
        Some(v) => if v <= usize::MAX {
            Some(Peer(v as usize))
        } else {
            None
        },
        None => None,
    }
}

impl RaftStoredState {
    pub fn current_term(&self) -> (r: Term)
        ensures
            r == self.current_term,
    {
        self.current_term
    }

    /// The peer voted for, stored as its position in decimal; an empty or
    /// unreadable record means no vote.
    pub fn voted_for(&self) -> (r: Option<Peer>)
        ensures
            r == stored_vote(encode_utf8(self.voted_for@)),
    {
        match parse_decimal(self.voted_for.as_str().as_bytes()) {
            Some(v) => if v <= usize::MAX as u64 {
                Some(Peer(v as usize))
            } else {
                None
            },
            None => None,
        }
    }
}

/// A stored entry as a value: its index, its term and its command bytes.
pub open spec fn stored_view(e: RaftStoredLogEntry) -> (Index, Term, Seq<u8>) {
    (e.index, e.term, e.command@)
}

/// Why a write to storage was refused.
#[derive(Clone, Copy, Debug, PartialEq, Eq, Structural)]
pub enum StorageError {
    /// The entry would leave a hole after the saved log, or overwrite the
    /// sentinel, which is never saved.
    NotContiguous,
}

/// Persisted state kept in memory: term, vote and the log without its
/// sentinel, so that the entry of index `i` is saved at position `i - 1`.
pub struct MemoryStorage {
    pub current_term: Term,
    pub voted_for: String,
    pub log: Vec<RaftStoredLogEntry>,
}

impl MemoryStorage {
    /// The saved log as values.
    pub open spec fn log_view(&self) -> Seq<(Index, Term, Seq<u8>)> {
        self.log@.map_values(|e: RaftStoredLogEntry| stored_view(e))
    }

    pub fn new() -> (r: MemoryStorage)
        ensures
            r.current_term == Term(0),
            r.voted_for@.len() == 0,
            r.log_view().len() == 0,
    {
        MemoryStorage { current_term: Term(0), voted_for: String::new(), log: Vec::new() }
    }

    /// Save the term and vote.
    pub fn save_term_vote(&mut self, term: Term, voted_for: String)
        ensures
            final(self).current_term == term,
            final(self).voted_for@ == voted_for@,
            final(self).log_view() == old(self).log_view(),
    {
        self.current_term = term;
        self.voted_for = voted_for;
    }

    /// Saves one entry, overriding the one saved at the same index and
    /// discarding every one after it. An entry past the end of the saved log
    /// by more than one, or the sentinel, is refused and nothing changes.
    pub fn append_one_entry(&mut self, entry: &LogEntry) -> (r: Result<(), StorageError>)
        ensures
            final(self).current_term == old(self).current_term,
            final(self).voted_for@ == old(self).voted_for@,
            (1 <= entry.index <= old(self).log_view().len() + 1) == (r is Ok),
            r is Ok ==> final(self).log_view() == old(self).log_view().subrange(
                0,
                entry.index - 1,
            ).push(
                (
                    entry.index,
                    entry.term,
                    match entry.command {
                        Some(c) => c@,
                        None => Seq::<u8>::empty(),
                    },
                ),
            ),
            r is Err ==> final(self).log_view() == old(self).log_view(),
    {
        if entry.index < 1 || entry.index - 1 > self.log.len() {
            return Err(StorageError::NotContiguous);
        }
        let ghost kept = self.log_view().subrange(0, entry.index - 1);
        self.log.truncate(entry.index - 1);
        assert(self.log_view() =~= kept);
        let saved = RaftStoredLogEntry {
            index: entry.index,
            term: entry.term,
            command: match &entry.command {
                Some(c) => copy_bytes(c),
                None => Vec::new(),
            },
        };
        self.log.push(saved);
        assert(self.log_view() =~= kept.push(stored_view(saved)));
        Ok(())
    }

    /// Reads back everything saved. No snapshot is taken, so the snapshot is
    /// empty at index and term 0.
    pub fn read_state(&self) -> (r: RaftStoredState)
        ensures
            r.current_term == self.current_term,
            r.voted_for@ == self.voted_for@,
            r.log@.map_values(|e: RaftStoredLogEntry| stored_view(e)) == self.log_view(),
            r.snapshot_index == 0,
            r.snapshot_term == Term(0),
            r.snapshot@.len() == 0,
    {
        let mut log: Vec<RaftStoredLogEntry> = Vec::new();
        let mut i: usize = 0;
        while i < self.log.len()
            invariant
                i <= self.log@.len(),
                log@.map_values(|e: RaftStoredLogEntry| stored_view(e)) == self.log_view().subrange(
                    0,
                    i as int,
                ),
            decreases self.log@.len() - i,
        {
            let e = &self.log[i];
            let copy = RaftStoredLogEntry { index: e.index, term: e.term, command: copy_bytes(&e.command) };
            let ghost before = log@;
            log.push(copy);
            assert(log@.map_values(|e: RaftStoredLogEntry| stored_view(e)) =~= before.map_values(
                |e: RaftStoredLogEntry| stored_view(e),
            ).push(stored_view(copy)));
            assert(self.log_view().subrange(0, i + 1) =~= self.log_view().subrange(0, i as int).push(
                stored_view(self.log@[i as int]),
            ));
            i = i + 1;
        }
        assert(self.log_view().subrange(0, i as int) =~= self.log_view());
        RaftStoredState {
            current_term: self.current_term,
            voted_for: self.voted_for.clone(),
            log,
            snapshot_index: 0,
            snapshot_term: Term(0),
            snapshot: Vec::new(),
        }
    }
}

/// An object that has everything Raft needs from a storage system.
pub trait RaftStorageTrait {
    /// The persister that writes the entries of this library's log.
    type RaftStoragePersister: RaftStoragePersisterTrait<LogEntry>;

    /// Returns a persister that writes data to the underlying storage.
    fn persister(self) -> std::sync::Arc<Self::RaftStoragePersister>;

    /// Reads out the entire saved state, including term, vote, Raft logs and
    /// the application snapshot.
    fn read_state(&self) -> std::io::Result<RaftStoredState>;
}

} // verus!

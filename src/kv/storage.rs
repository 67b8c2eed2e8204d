use crate::raft_state::Term;
use crate::storage::{RaftLogEntryRef, RaftStoragePersisterTrait, RaftStorageTrait, RaftStoredState};
use std::sync::Arc;
use vstd::prelude::*;

verus! {

/// The storage of the key-value service. It has nothing saved yet, so a node
/// that starts on it starts from the initial state.
#[derive(Default)]
pub struct KVStorage;

impl RaftStorageTrait for KVStorage {
    type RaftStoragePersister = KVPersister;

    fn persister(self) -> std::sync::Arc<KVPersister> {
        Arc::new(KVPersister)
    }

    fn read_state(&self) -> std::io::Result<RaftStoredState> {
        Ok(
            RaftStoredState {
                current_term: Term(0),
                voted_for: String::new(),
                log: Vec::new(),
                snapshot_index: 0,
                snapshot_term: Term(0),
                snapshot: Vec::new(),
            },
        )
    }
}

/// The persister of the key-value service. It keeps nothing, so a node that
/// uses it starts from the initial state after every restart.
#[derive(Debug)]
pub struct KVPersister;

impl<LogEntry: RaftLogEntryRef> RaftStoragePersisterTrait<LogEntry> for KVPersister {
    fn save_term_vote(&self, term: Term, voted_for: String) {
    }

    fn append_one_entry(&self, entry: &LogEntry) {
    }
}

} // verus!

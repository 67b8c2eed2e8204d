use raft::log_array::LogEntry;
use raft::raft_state::Term;
use raft::storage::{MemoryStorage, RaftLogEntryRef, StorageError};

fn entry(index: usize, term: usize, cmd: u8) -> LogEntry {
    LogEntry { index, term: Term(term), command: Some(vec![cmd]) }
}

#[test]
fn memory_storage_truncates_then_appends() {
    let mut s = MemoryStorage::new();
    assert_eq!(s.append_one_entry(&entry(0, 0, 0)), Err(StorageError::NotContiguous));
    assert_eq!(s.append_one_entry(&entry(2, 1, 0)), Err(StorageError::NotContiguous));
    for i in 1..=4 {
        s.append_one_entry(&entry(i, 1, i as u8)).unwrap();
    }
    assert_eq!(s.log.len(), 4);
    s.append_one_entry(&entry(2, 2, 9)).unwrap();
    assert_eq!(s.log.len(), 2);
    assert_eq!(s.log[1].term, Term(2));
    assert_eq!(s.log[1].command, vec![9]);
    assert_eq!(s.log[0].command, vec![1]);

    s.save_term_vote(Term(2), "1".to_string());
    let st = s.read_state();
    assert_eq!(st.current_term, Term(2));
    assert_eq!(st.voted_for, "1");
    assert_eq!(st.log.len(), 2);
    assert_eq!(st.log[1].index, 2);
    assert_eq!(st.snapshot_index, 0);
}

#[test]
fn log_entry_ref_view() {
    let e = entry(3, 2, 7);
    assert_eq!(RaftLogEntryRef::index(&e), 3);
    assert_eq!(RaftLogEntryRef::term(&e), Term(2));
    assert_eq!(e.command_bytes(), vec![7]);
    let none = LogEntry { index: 0, term: Term(0), command: None };
    assert!(none.command_bytes().is_empty());
}

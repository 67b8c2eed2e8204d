use raft::config::{Config, ConfigError};
use raft::kv::storage::KVStorage;
use raft::raft::ClusterMember;
use raft::raft_state::{Peer, Term};
use raft::remote::remote_peer::RemotePeer;
use raft::state_machine::{decode_command, encode_command, ApplyError, Command, CommandKind, StateMachine};
use raft::storage::{RaftStorageTrait, RaftStoredState};

#[test]
fn set_round_trip() {
    let bytes = encode_command(Command::new(CommandKind::SetCommand, "k".to_string(), Some("v".to_string())));
    let c = decode_command(&bytes).unwrap();
    assert!(matches!(c.kind, CommandKind::SetCommand));
    assert_eq!(c.key, "k");
    assert_eq!(c.value, "v");
}

#[test]
fn get_round_trip() {
    let bytes = encode_command(Command::new(CommandKind::GetCommand, "k".to_string(), None));
    let c = decode_command(&bytes).unwrap();
    assert!(matches!(c.kind, CommandKind::GetCommand));
    assert_eq!(c.key, "k");
    assert_eq!(c.value, "");
}

#[test]
fn wire_format_bytes() {
    let set = encode_command(Command::new(CommandKind::SetCommand, "ab".to_string(), Some("xyz".to_string())));
    assert_eq!(
        set,
        vec![1, 2, 0, 0, 0, 0, 0, 0, 0, b'a', b'b', 3, 0, 0, 0, 0, 0, 0, 0, b'x', b'y', b'z']
    );
    let get = encode_command(Command::new(CommandKind::GetCommand, "ab".to_string(), Some("ignored".to_string())));
    assert_eq!(get, vec![0, 2, 0, 0, 0, 0, 0, 0, 0, b'a', b'b']);
    let unicode = encode_command(Command::new(CommandKind::GetCommand, "é".to_string(), None));
    assert_eq!(unicode, vec![0, 2, 0, 0, 0, 0, 0, 0, 0, 0xc3, 0xa9]);
    assert_eq!(decode_command(&unicode).unwrap().key, "é");
}

#[test]
fn decode_errors() {
    assert!(decode_command(&[]).is_none());
    assert!(decode_command(&[1, 1, 0, 0, 0, 0, 0, 0]).is_none());
    assert!(decode_command(&[7, 0, 0, 0, 0, 0, 0, 0, 0]).is_none());
    // Key length larger than the buffer.
    assert!(decode_command(&[0, 5, 0, 0, 0, 0, 0, 0, 0, b'a']).is_none());
    // Huge key length.
    assert!(decode_command(&[0, 255, 255, 255, 255, 255, 255, 255, 255, b'a']).is_none());
    // A write without its value field.
    assert!(decode_command(&[1, 1, 0, 0, 0, 0, 0, 0, 0, b'a']).is_none());
    // A key that is not UTF-8.
    assert!(decode_command(&[0, 1, 0, 0, 0, 0, 0, 0, 0, 0xff]).is_none());
    // An empty key is fine.
    assert_eq!(decode_command(&[0, 0, 0, 0, 0, 0, 0, 0, 0]).unwrap().key, "");
}

#[test]
fn kind_bytes() {
    assert_eq!(CommandKind::GetCommand.index(), 0);
    assert_eq!(CommandKind::SetCommand.index(), 1);
    assert_eq!(CommandKind::from_u8(1), Some(CommandKind::SetCommand));
    assert_eq!(CommandKind::from_u8(0), Some(CommandKind::GetCommand));
    assert_eq!(CommandKind::from_u8(2), None);
}

#[test]
fn apply_get_and_set() {
    let mut sm = StateMachine::new(1);
    let get = encode_command(Command::new(CommandKind::GetCommand, "k".to_string(), None));
    assert_eq!(sm.apply(&get), Ok(None));
    let set = encode_command(Command::new(CommandKind::SetCommand, "k".to_string(), Some("v1".to_string())));
    assert_eq!(sm.apply(&set), Ok(None));
    assert_eq!(sm.apply(&get), Ok(Some(b"v1".to_vec())));
    let set2 = encode_command(Command::new(CommandKind::SetCommand, "k".to_string(), Some("v2".to_string())));
    sm.apply(&set2).unwrap();
    assert_eq!(sm.apply(&get), Ok(Some(b"v2".to_vec())));
    assert_eq!(sm.db.len(), 1);
    assert_eq!(sm.apply(&[9]), Err(ApplyError::MalformedCommand));
    assert_eq!(sm.get(&"k".to_string()), Some("v2".to_string()));
    assert_eq!(sm.server, 1);
}

#[test]
fn store_insert_and_get() {
    let mut sm = StateMachine::new(0);
    sm.insert("a".to_string(), "1".to_string());
    sm.insert("b".to_string(), "2".to_string());
    sm.insert("a".to_string(), "3".to_string());
    assert_eq!(sm.get(&"a".to_string()), Some("3".to_string()));
    assert_eq!(sm.get(&"b".to_string()), Some("2".to_string()));
    assert_eq!(sm.get(&"c".to_string()), None);
}

fn stored(vote: &str) -> RaftStoredState {
    RaftStoredState {
        current_term: Term(3),
        voted_for: vote.to_string(),
        log: vec![],
        snapshot_index: 0,
        snapshot_term: Term(0),
        snapshot: vec![],
    }
}

#[test]
fn stored_vote_decoding() {
    assert_eq!(stored("").voted_for(), None);
    assert_eq!(stored("2").voted_for(), Some(Peer(2)));
    assert_eq!(stored("042").voted_for(), Some(Peer(42)));
    assert_eq!(stored("x1").voted_for(), None);
    assert_eq!(stored("99999999999999999999999").voted_for(), None);
    assert_eq!(stored("1").current_term(), Term(3));
}

#[test]
fn fresh_storage_state() {
    let s = KVStorage::default();
    let st = s.read_state().unwrap();
    assert_eq!(st.current_term, Term(0));
    assert_eq!(st.voted_for(), None);
    assert!(st.log.is_empty());
}

#[test]
fn config_check() {
    let mut c = Config::default();
    assert_eq!(c.check(), Err(ConfigError::MissingNode));
    c.index = 1;
    assert_eq!(c.check(), Err(ConfigError::MissingHttp));
    c.http = "127.0.0.1:8080".to_string();
    assert_eq!(c.check(), Err(ConfigError::MissingCluster));
    c.cluster.push(ClusterMember::new(1, "127.0.0.1:9001".to_string()));
    assert_eq!(c.check(), Ok(()));
}

#[test]
fn remote_peer_keeps_id() {
    assert_eq!(RemotePeer::create(7u64).unique_id, 7);
}

use raft::election::{on_election_timer, ElectionState, ELECTION_TIMEOUT_BASE_MILLIS, ELECTION_TIMEOUT_VAR_MILLIS};
use raft::log_array::LogArray;
use raft::raft::{other_peers, start_leadership, ClusterMember};
use raft::raft_state::{
    AppendEntriesReply, ClientError, Peer, RaftState, RequestVoteArgs, State, Term,
};
use raft::state_machine::{encode_command, Command, CommandKind, StateMachine};

fn set_bytes(key: &str, value: &str) -> Vec<u8> {
    encode_command(Command::new(
        CommandKind::SetCommand,
        key.to_string(),
        Some(value.to_string()),
    ))
}

fn log_terms(s: &RaftState) -> Vec<usize> {
    s.log.inner.iter().map(|e| e.term.0).collect()
}

#[test]
fn three_node_election() {
    let mut n0 = RaftState::create();
    let mut n1 = RaftState::create();
    let mut n2 = RaftState::create();

    let req = n0.start_election(Peer(0)).expect("a follower starts an election");
    assert_eq!(req.term, Term(1));
    assert_eq!(n0.state, State::Candidate);
    assert_eq!(n0.voted_for, Some(Peer(0)));

    let r1 = n1.handle_request_vote(&req);
    let r2 = n2.handle_request_vote(&req);
    assert!(r1.vote_granted && r2.vote_granted);
    assert_eq!(r1.term, Term(1));
    assert_eq!(n1.current_term, Term(1));
    assert_eq!(n2.current_term, Term(1));
    assert_eq!(n1.state, State::Follower);
    assert_eq!(n2.state, State::Follower);
    assert_eq!(n1.voted_for, Some(Peer(0)));

    assert!(n0.handle_vote_reply(Peer(1), &r1, 3));
    assert_eq!(n0.state, State::Leader);
    assert!(!n0.handle_vote_reply(Peer(2), &r2, 3));
    assert_eq!(n0.state, State::Leader);
}

#[test]
fn leader_ignores_election_timeout() {
    let mut n0 = RaftState::create();
    n0.start_election(Peer(0));
    let reply = n0.handle_request_vote(&RequestVoteArgs {
        term: Term(1),
        candidate_id: Peer(1),
        last_log_index: 0,
        last_log_term: Term(0),
    });
    assert!(!reply.vote_granted);
    n0.handle_vote_reply(Peer(1), &raft::raft_state::RequestVoteReply { term: Term(1), vote_granted: true }, 3);
    assert_eq!(n0.state, State::Leader);
    assert!(n0.start_election(Peer(0)).is_none());
    assert_eq!(n0.current_term, Term(1));
}

#[test]
fn one_vote_per_term() {
    let mut n = RaftState::create();
    let a = RequestVoteArgs { term: Term(4), candidate_id: Peer(1), last_log_index: 0, last_log_term: Term(0) };
    let b = RequestVoteArgs { term: Term(4), candidate_id: Peer(2), last_log_index: 0, last_log_term: Term(0) };
    assert!(n.handle_request_vote(&a).vote_granted);
    assert!(!n.handle_request_vote(&b).vote_granted);
    assert!(n.handle_request_vote(&a).vote_granted);
    let c = RequestVoteArgs { term: Term(5), candidate_id: Peer(2), last_log_index: 0, last_log_term: Term(0) };
    assert!(n.handle_request_vote(&c).vote_granted);
    assert_eq!(n.voted_for, Some(Peer(2)));
}

#[test]
fn stale_or_outdated_candidate_is_refused() {
    let mut n = RaftState::create();
    n.current_term = Term(3);
    n.log.append(Term(3), None);
    let stale = RequestVoteArgs { term: Term(2), candidate_id: Peer(1), last_log_index: 5, last_log_term: Term(2) };
    let r = n.handle_request_vote(&stale);
    assert!(!r.vote_granted);
    assert_eq!(r.term, Term(3));
    let behind = RequestVoteArgs { term: Term(4), candidate_id: Peer(1), last_log_index: 9, last_log_term: Term(2) };
    let r = n.handle_request_vote(&behind);
    assert!(!r.vote_granted);
    assert_eq!(n.current_term, Term(4));
    assert_eq!(n.voted_for, None);
}

#[test]
fn higher_term_in_vote_reply_deposes_candidate() {
    let mut n = RaftState::create();
    n.start_election(Peer(0));
    let became = n.handle_vote_reply(Peer(1), &raft::raft_state::RequestVoteReply { term: Term(7), vote_granted: false }, 3);
    assert!(!became);
    assert_eq!(n.state, State::Follower);
    assert_eq!(n.current_term, Term(7));
    assert_eq!(n.voted_for, None);
}

fn elect_leader() -> RaftState {
    let mut n0 = RaftState::create();
    let req = n0.start_election(Peer(0)).unwrap();
    let mut n1 = RaftState::create();
    let r1 = n1.handle_request_vote(&req);
    assert!(n0.handle_vote_reply(Peer(1), &r1, 3));
    n0
}

#[test]
fn commit_after_quorum_and_apply() {
    let mut leader = elect_leader();
    let mut f1 = RaftState::create();
    let mut f2 = RaftState::create();
    for i in 1..=5usize {
        let key = format!("k{}", i);
        assert_eq!(leader.append_command(set_bytes(&key, "v")), Ok(i));
    }
    assert_eq!(leader.log.last_index(), 5);
    let peers = vec![
        ClusterMember::new(1, "a1".to_string()),
        ClusterMember::new(2, "a2".to_string()),
    ];
    let mut members = start_leadership(&peers, leader.log.last_index());
    assert_eq!(members[0].next_index, 6);
    assert_eq!(members[0].match_index, 0);

    // Followers are empty: the first try from next_index 6 fails, the second succeeds.
    for (m, f) in members.iter_mut().zip([&mut f1, &mut f2]) {
        let msg = leader.build_append_entries(Peer(0), m.next_index).unwrap();
        let reply = f.handle_append_entries(&msg);
        assert!(!reply.success);
        leader.handle_append_reply(m, msg.prev_log_index, msg.entries.len(), &reply);
        assert_eq!(m.next_index, 5);
        let mut next = m.next_index;
        loop {
            let msg = leader.build_append_entries(Peer(0), next).unwrap();
            let reply = f.handle_append_entries(&msg);
            leader.handle_append_reply(m, msg.prev_log_index, msg.entries.len(), &reply);
            if reply.success {
                assert_eq!(reply.match_index, 5);
                break;
            }
            next = m.next_index;
        }
        assert_eq!(m.match_index, 5);
        assert_eq!(m.next_index, 6);
    }
    assert_eq!(leader.commit_index, 0);
    leader.advance_commit_index(&members);
    assert_eq!(leader.commit_index, 5);

    let mut sm = StateMachine::new(0);
    let applied = leader.apply_committed(&mut sm);
    let indices: Vec<usize> = applied.iter().map(|(i, _)| *i).collect();
    assert_eq!(indices, vec![1, 2, 3, 4, 5]);
    assert_eq!(leader.last_applied, 5);
    assert_eq!(sm.get(&"k5".to_string()), Some("v".to_string()));
    assert!(leader.apply_committed(&mut sm).is_empty());

    // A heartbeat carries the commit index to a follower.
    let hb = leader.build_append_entries(Peer(0), 6).unwrap();
    assert!(hb.entries.is_empty());
    let r = f1.handle_append_entries(&hb);
    assert!(r.success);
    assert_eq!(f1.commit_index, 5);
}

#[test]
fn commit_needs_majority() {
    let mut leader = elect_leader();
    leader.append_command(set_bytes("a", "1")).unwrap();
    leader.append_command(set_bytes("b", "2")).unwrap();
    let mut members = start_leadership(
        &vec![
            ClusterMember::new(1, "x".to_string()),
            ClusterMember::new(2, "y".to_string()),
            ClusterMember::new(3, "z".to_string()),
            ClusterMember::new(4, "w".to_string()),
        ],
        2,
    );
    members[0].match_index = 2;
    leader.advance_commit_index(&members);
    assert_eq!(leader.commit_index, 0);
    members[1].match_index = 1;
    leader.advance_commit_index(&members);
    assert_eq!(leader.commit_index, 1);
    members[1].match_index = 2;
    leader.advance_commit_index(&members);
    assert_eq!(leader.commit_index, 2);
}

#[test]
fn entries_of_an_older_term_are_not_committed_by_count() {
    let mut leader = elect_leader();
    leader.log.append(Term(0), None);
    let mut members = start_leadership(&vec![ClusterMember::new(1, "x".to_string())], 1);
    members[0].match_index = 1;
    leader.advance_commit_index(&members);
    assert_eq!(leader.commit_index, 0);
}

#[test]
fn follower_conflict_is_overwritten() {
    // Follower: indices 1..=5 in term 1, 6..=7 in term 2.
    let mut follower = RaftState::create();
    follower.current_term = Term(2);
    for _ in 1..=5 {
        follower.log.append(Term(1), None);
    }
    follower.log.append(Term(2), Some(vec![2]));
    follower.log.append(Term(2), Some(vec![2]));
    // Leader of term 3: indices 1..=5 in term 1, 6..=7 in term 3.
    let mut leader = RaftState::create();
    leader.current_term = Term(3);
    leader.state = State::Leader;
    for _ in 1..=5 {
        leader.log.append(Term(1), None);
    }
    leader.log.append(Term(3), Some(vec![3]));
    leader.log.append(Term(3), Some(vec![3]));

    let mut m = ClusterMember::new(1, "f".to_string());
    m.next_index = 7;
    let msg = leader.build_append_entries(Peer(0), m.next_index).unwrap();
    assert_eq!(msg.prev_log_index, 6);
    assert_eq!(msg.prev_log_term, Term(3));
    let reply = follower.handle_append_entries(&msg);
    assert!(!reply.success);
    assert_eq!(reply.term, Term(3));
    assert_eq!(log_terms(&follower), vec![0, 1, 1, 1, 1, 1, 2, 2]);
    leader.handle_append_reply(&mut m, msg.prev_log_index, msg.entries.len(), &reply);
    assert_eq!(m.next_index, 6);

    let msg = leader.build_append_entries(Peer(0), m.next_index).unwrap();
    assert_eq!(msg.prev_log_index, 5);
    let reply = follower.handle_append_entries(&msg);
    assert!(reply.success);
    assert_eq!(reply.match_index, 7);
    assert_eq!(log_terms(&follower), vec![0, 1, 1, 1, 1, 1, 3, 3]);
    assert_eq!(follower.log.entry_at(7).command, Some(vec![3]));
    leader.handle_append_reply(&mut m, msg.prev_log_index, msg.entries.len(), &reply);
    assert_eq!(m.match_index, 7);
    assert_eq!(m.next_index, 8);
}

#[test]
fn stale_leader_message_is_refused() {
    let mut f = RaftState::create();
    f.current_term = Term(5);
    let mut old_leader = RaftState::create();
    old_leader.current_term = Term(4);
    old_leader.state = State::Leader;
    let msg = old_leader.build_append_entries(Peer(1), 1).unwrap();
    let r = f.handle_append_entries(&msg);
    assert_eq!(r, AppendEntriesReply { term: Term(5), success: false, match_index: 0 });
    let mut m = ClusterMember::new(0, "f".to_string());
    m.next_index = 1;
    old_leader.handle_append_reply(&mut m, 0, 0, &r);
    assert_eq!(old_leader.state, State::Follower);
    assert_eq!(old_leader.current_term, Term(5));
}

#[test]
fn only_leader_accepts_commands() {
    let mut n = RaftState::create();
    assert_eq!(n.append_command(vec![1]), Err(ClientError::NotLeader));
    assert_eq!(n.log.len(), 1);
    assert!(n.build_append_entries(Peer(0), 1).is_none());
}

#[test]
fn stale_timer_wakeup_is_ignored() {
    let mut timer = ElectionState::create();
    assert!(!timer.should_fire(0, 1_000));
    timer.reset_with_jitter(0, 50);
    assert_eq!(timer.version, 1);
    assert_eq!(timer.deadline, Some(250));
    let observed = timer.version;
    timer.reset_with_jitter(100, 10);
    assert_eq!(timer.deadline, Some(310));
    assert!(!timer.should_fire(observed, 400));
    assert!(timer.should_fire(timer.version, 400));
    assert!(!timer.should_fire(timer.version, 300));

    let mut state = RaftState::create();
    let r = on_election_timer(&mut state, &mut timer, observed, 400, 0, Peer(0));
    assert!(r.is_none());
    assert_eq!(state.current_term, Term(0));
    assert_eq!(timer.version, 2);

    let r = on_election_timer(&mut state, &mut timer, 2, 400, 7, Peer(0)).unwrap();
    assert_eq!(r.term, Term(1));
    assert_eq!(state.state, State::Candidate);
    assert_eq!(timer.version, 3);
    assert_eq!(timer.deadline, Some(607));
}

#[test]
fn random_timeout_stays_in_range() {
    let mut timer = ElectionState::create();
    for now in [0u64, 5, 1_000_000] {
        timer.reset_election_timer(now);
        let d = timer.deadline.unwrap();
        assert!(d >= now + ELECTION_TIMEOUT_BASE_MILLIS);
        assert!(d < now + ELECTION_TIMEOUT_BASE_MILLIS + ELECTION_TIMEOUT_VAR_MILLIS);
        let t = ElectionState::election_timeout(now);
        assert!(t >= now + ELECTION_TIMEOUT_BASE_MILLIS);
        assert!(t < now + ELECTION_TIMEOUT_BASE_MILLIS + ELECTION_TIMEOUT_VAR_MILLIS);
    }
    assert_eq!(timer.version, 3);
}

#[test]
fn log_starts_with_sentinel() {
    let mut log = LogArray::create();
    assert_eq!(log.len(), 1);
    assert_eq!(log.last_index(), 0);
    assert_eq!(log.last_term(), Term(0));
    assert!(log.entry_at(0).command.is_none());
    assert_eq!(log.append(Term(2), Some(vec![9])), 1);
    assert!(log.matches(1, Term(2)));
    assert!(!log.matches(1, Term(1)));
    assert!(!log.matches(2, Term(2)));
    log.truncate_from(1);
    assert_eq!(log.len(), 1);
    let e = LogArray::build_first_entry(0, Term(0));
    assert_eq!(e.index, 0);
}

#[test]
fn peers_exclude_self() {
    assert_eq!(other_peers(3, 0), vec![Peer(1), Peer(2)]);
    assert_eq!(other_peers(3, 1), vec![Peer(0), Peer(2)]);
    assert_eq!(other_peers(1, 0), Vec::<Peer>::new());
}

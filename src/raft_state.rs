use crate::log_array::{lemma_reconcile, reconcile, EntryView, Index, LogArray, LogEntry};
use crate::raft::ClusterMember;
use crate::state_machine::{store_after, ApplyError, StateMachine};
use vstd::prelude::*;

verus! {

/// Identifies a member of the cluster by its position in the membership list.
#[derive(Clone, Copy, Debug, PartialEq, Eq, Structural)]
pub struct Peer(pub usize);

/// A logical election epoch.
#[derive(Clone, Copy, Debug, PartialEq, Eq, Structural, PartialOrd, Ord)]
pub struct Term(pub usize);

/// The role a node plays in its current term.
#[derive(Clone, Copy, Debug, PartialEq, Eq, Structural)]
pub enum State {
    Leader,
    Follower,
    Candidate,
}

/// A candidate's request for a vote.
#[derive(Clone, Copy, Debug, PartialEq, Eq, Structural)]
pub struct RequestVoteArgs {
    pub term: Term,
    pub candidate_id: Peer,
    pub last_log_index: Index,
    pub last_log_term: Term,
}

/// The answer to a vote request, with the responder's term.
#[derive(Clone, Copy, Debug, PartialEq, Eq, Structural)]
pub struct RequestVoteReply {
    pub term: Term,
    pub vote_granted: bool,
}

/// A leader's replication message; a heartbeat carries no entries.
#[derive(Debug)]
pub struct AppendEntriesArgs {
    pub term: Term,
    pub leader_id: Peer,
    pub prev_log_index: Index,
    pub prev_log_term: Term,
    pub entries: Vec<LogEntry>,
    pub leader_commit: Index,
}

/// The answer to a replication message, with the responder's term and, on
/// success, the index of the last entry it now shares with the leader.
#[derive(Clone, Copy, Debug, PartialEq, Eq, Structural)]
pub struct AppendEntriesReply {
    pub term: Term,
    pub success: bool,
    pub match_index: Index,
}

/// Whether a log that ends with (`term`, `index`) is at least as up to date as
/// one that ends with (`my_term`, `my_index`): the later term wins, then the
/// longer log.
pub open spec fn at_least_as_up_to_date(term: Term, index: Index, my_term: Term, my_index: Index) -> bool {
    term.0 > my_term.0 || (term.0 == my_term.0 && index >= my_index)
}

/// Whether `votes` holds `p`.
fn contains_peer(votes: &Vec<Peer>, p: Peer) -> (r: bool)
    ensures
        r == votes@.contains(p),
{
    let mut i: usize = 0;
    while i < votes.len()
        invariant
            i <= votes@.len(),
            forall|j: int| 0 <= j < i ==> votes@[j] != p,
        decreases votes@.len() - i,
    {
        if votes[i] == p {
            return true;
        }
        i = i + 1;
    }
    false
}

/// The consensus state of one node.
#[derive(Debug)]
pub struct RaftState {
    pub current_term: Term,
    pub log: LogArray,
    /// Who was voted for in the current term.
    pub voted_for: Option<Peer>,
    /// Index of highest log entry known to be committed.
    pub commit_index: Index,
    /// Index of highest log entry applied to state machine.
    pub last_applied: Index,
    /// Candidate, follower, or leader.
    pub state: State,
    /// The peers that granted their vote in the current election, self included.
    pub votes: Vec<Peer>,
}

impl RaftState {
    pub open spec fn wf(&self) -> bool {
        &&& self.log.wf()
        &&& self.last_applied <= self.commit_index
        &&& self.commit_index < self.log@.len()
        &&& self.votes@.no_duplicates()
    }

    /// Everything but the term, the vote, the role and the tally is as in `old`.
    pub open spec fn keeps_log(&self, old: &RaftState) -> bool {
        &&& self.log@ == old.log@
        &&& self.commit_index == old.commit_index
        &&& self.last_applied == old.last_applied
    }

    /// `self` is `old` after the node adopted the higher term `term` as a Follower.
    pub open spec fn adopted_term(&self, old: &RaftState, term: Term) -> bool {
        &&& self.current_term == term
        &&& self.voted_for is None
        &&& self.state == State::Follower
        &&& self.votes@.len() == 0
        &&& self.keeps_log(old)
    }

    /// `self` holds exactly what `old` held.
    pub open spec fn unchanged(&self, old: &RaftState) -> bool {
        &&& self.current_term == old.current_term
        &&& self.voted_for == old.voted_for
        &&& self.state == old.state
        &&& self.votes@ == old.votes@
        &&& self.keeps_log(old)
    }

    /// `self` is `old` after answering the vote request `args` with `r`: a
    /// newer term is adopted first; the vote is granted exactly when the
    /// request's term is not older than ours, we have not voted for someone
    /// else in that term, and the candidate's log is at least as up to date as
    /// ours; a grant records the candidate as our vote.
    pub open spec fn answered_vote(&self, old: &RaftState, args: &RequestVoteArgs, r: RequestVoteReply) -> bool {
        let newer = args.term.0 > old.current_term.0;
        let vote = if newer {
            None
        } else {
            old.voted_for
        };
        let grant = args.term.0 >= old.current_term.0 && (vote is None || vote == Some(
            args.candidate_id,
        )) && at_least_as_up_to_date(
            args.last_log_term,
            args.last_log_index,
            old.log@.last().1,
            (old.log@.len() - 1) as Index,
        );
        &&& r.vote_granted == grant
        &&& r.term == self.current_term
        &&& self.voted_for == if grant {
            Some(args.candidate_id)
        } else {
            vote
        }
        &&& newer ==> self.current_term == args.term && self.state == State::Follower
            && self.votes@.len() == 0
        &&& !newer ==> self.current_term == old.current_term && self.state == old.state
            && self.votes@ == old.votes@
        &&& self.keeps_log(old)
    }

    pub fn create() -> (r: RaftState)
        ensures
            r.wf(),
            r.current_term == Term(0),
            r.voted_for is None,
            r.log@ == seq![(0usize, Term(0), None::<Seq<u8>>)],
            r.commit_index == 0,
            r.last_applied == 0,
            r.state == State::Follower,
            r.votes@.len() == 0,
    {
        RaftState {
            current_term: Term(0),
            voted_for: None,
            log: LogArray::create(),
            commit_index: 0,
            last_applied: 0,
            state: State::Follower,
            votes: Vec::new(),
        }
    }

    /// Adopts `term` when it is higher than the current one: the node becomes a
    /// Follower with no vote in that term. A term that is not higher changes
    /// nothing.
    pub fn observe_term(&mut self, term: Term)
        requires
            old(self).wf(),
        ensures
            final(self).wf(),
            term.0 > old(self).current_term.0 ==> final(self).adopted_term(old(self), term),
            term.0 <= old(self).current_term.0 ==> final(self).unchanged(old(self)),
    {
        if term.0 > self.current_term.0 {
            self.current_term = term;
            self.voted_for = None;
            self.state = State::Follower;
            self.votes = Vec::new();
        }
    }

    /// The election timer fired. A Leader ignores it; any other node moves to
    /// the next term as a Candidate, votes for itself and returns the vote
    /// request to send to every peer.
    pub fn start_election(&mut self, me: Peer) -> (r: Option<RequestVoteArgs>)
        requires
            old(self).wf(),
            old(self).current_term.0 < usize::MAX,
        ensures
            final(self).wf(),
            old(self).state == State::Leader ==> r is None && final(self).unchanged(old(self)),
            old(self).state != State::Leader ==> {
                &&& r == Some(
                    RequestVoteArgs {
                        term: Term((old(self).current_term.0 + 1) as usize),
                        candidate_id: me,
                        last_log_index: (old(self).log@.len() - 1) as Index,
                        last_log_term: old(self).log@.last().1,
                    },
                )
                &&& final(self).current_term == Term((old(self).current_term.0 + 1) as usize)
                &&& final(self).state == State::Candidate
                &&& final(self).voted_for == Some(me)
                &&& final(self).votes@ == seq![me]
                &&& final(self).keeps_log(old(self))
            },
    {
        if self.state == State::Leader {
            return None;
        }
        self.current_term = Term(self.current_term.0 + 1);
        self.state = State::Candidate;
        self.voted_for = Some(me);
        self.votes = vec![me];
        assert(self.votes@ =~= seq![me]);
        Some(
            RequestVoteArgs {
                term: self.current_term,
                candidate_id: me,
                last_log_index: self.log.last_index(),
                last_log_term: self.log.last_term(),
            },
        )
    }

    /// Answers a vote request. The vote is granted exactly when the request's
    /// term is not older than ours (a newer one is adopted first), we have not
    /// voted for someone else in that term, and the candidate's log is at least
    /// as up to date as ours.
    pub fn handle_request_vote(&mut self, args: &RequestVoteArgs) -> (r: RequestVoteReply)
        requires
            old(self).wf(),
        ensures
            final(self).wf(),
            final(self).answered_vote(old(self), args, r),
    {
        self.observe_term(args.term);
        let grant = args.term.0 >= self.current_term.0 && (self.voted_for.is_none()
            || self.voted_for == Some(args.candidate_id)) && (args.last_log_term.0
            > self.log.last_term().0 || (args.last_log_term.0 == self.log.last_term().0
            && args.last_log_index >= self.log.last_index()));
        if grant {
            self.voted_for = Some(args.candidate_id);
        }
        RequestVoteReply { term: self.current_term, vote_granted: grant }
    }

    /// Counts the answer of `from` to our vote request in a cluster of
    /// `cluster_size` nodes. A newer term makes us a Follower in it. A grant in
    /// our term, while we are a Candidate, joins the tally, and the node becomes
    /// Leader once more than half the cluster has voted for it; the result says
    /// whether that happened now. Any other answer changes nothing.
    pub fn handle_vote_reply(&mut self, from: Peer, reply: &RequestVoteReply, cluster_size: usize) -> (r: bool)
        requires
            old(self).wf(),
        ensures
            final(self).wf(),
            reply.term.0 > old(self).current_term.0 ==> !r && final(self).adopted_term(
                old(self),
                reply.term,
            ),
            reply.term.0 <= old(self).current_term.0 ==> if old(self).state == State::Candidate
                && reply.term == old(self).current_term && reply.vote_granted {
                &&& final(self).votes@ == if old(self).votes@.contains(from) {
                    old(self).votes@
                } else {
                    old(self).votes@.push(from)
                }
                &&& r == (2 * final(self).votes@.len() > cluster_size)
                &&& final(self).state == if r {
                    State::Leader
                } else {
                    State::Candidate
                }
                &&& final(self).current_term == old(self).current_term
                &&& final(self).voted_for == old(self).voted_for
                &&& final(self).keeps_log(old(self))
            } else {
                !r && final(self).unchanged(old(self))
            },
    {
        if reply.term.0 > self.current_term.0 {
            self.observe_term(reply.term);
            return false;
        }
        if self.state != State::Candidate || reply.term != self.current_term || !reply.vote_granted {
            return false;
        }
        if !contains_peer(&self.votes, from) {
            self.votes.push(from);
            assert(self.votes@.no_duplicates());
        }
        if self.votes.len() > cluster_size / 2 {
            self.state = State::Leader;
            true
        } else {
            false
        }
    }
}

/// How many of `skip` leading entries of a replication message fall at or
/// below the receiver's commit index: those are already settled and are not
/// laid down again.
pub open spec fn settled_count(commit_index: Index, prev_log_index: Index, n: nat) -> int {
    if commit_index > prev_log_index {
        if commit_index - prev_log_index < n {
            commit_index - prev_log_index
        } else {
            n as int
        }
    } else {
        0
    }
}

/// How many of `members` hold the log up to index `n`.
pub open spec fn replicated(members: Seq<ClusterMember>, n: int) -> nat
    decreases members.len(),
{
    if members.len() == 0 {
        0
    } else {
        replicated(members.drop_last(), n) + if members.last().match_index >= n {
            1nat
        } else {
            0nat
        }
    }
}

/// How many of `members` hold the log up to index `n`.
fn count_replicated(members: &Vec<ClusterMember>, n: Index) -> (r: usize)
    ensures
        r == replicated(members@, n as int),
        r <= members@.len(),
{
    let mut c: usize = 0;
    let mut i: usize = 0;
    while i < members.len()
        invariant
            i <= members@.len(),
            c <= i,
            c == replicated(members@.subrange(0, i as int), n as int),
        decreases members@.len() - i,
    {
        assert(members@.subrange(0, i + 1).drop_last() =~= members@.subrange(0, i as int));
        if members[i].match_index >= n {
            c = c + 1;
        }
        i = i + 1;
    }
    assert(members@.subrange(0, i as int) =~= members@);
    c
}

/// The error of a client command sent to a node that is not the Leader.
#[derive(Clone, Copy, Debug, PartialEq, Eq, Structural)]
pub enum ClientError {
    NotLeader,
}

/// The store after the commands of `log` at positions `from` up to `to`,
/// excluded, are applied in order to `db`; entries without a command change
/// nothing.
pub open spec fn store_through(
    db: Map<Seq<char>, Seq<char>>,
    log: Seq<EntryView>,
    from: int,
    to: int,
) -> Map<Seq<char>, Seq<char>>
    decreases to - from,
{
    if to <= from {
        db
    } else {
        let before = store_through(db, log, from, to - 1);
        match log[to - 1].2 {
            Some(c) => store_after(before, c),
            None => before,
        }
    }
}

impl RaftState {
    /// Index `n` may be committed by a Leader: it is in the log, its entry is
    /// of the current term, and counting the Leader itself more than half of
    /// the cluster made of the Leader and `members` holds it.
    pub open spec fn quorum_at(&self, members: Seq<ClusterMember>, n: int) -> bool {
        &&& 1 <= n < self.log@.len()
        &&& self.log@[n].1 == self.current_term
        &&& 2 * (replicated(members, n) + 1) > members.len() + 1
    }

    /// A client command submitted to this node. A Leader appends it to its log
    /// in the current term and returns its index; any other node refuses it.
    pub fn append_command(&mut self, command: Vec<u8>) -> (r: Result<Index, ClientError>)
        requires
            old(self).wf(),
        ensures
            final(self).wf(),
            old(self).state != State::Leader ==> r == Err::<Index, ClientError>(
                ClientError::NotLeader,
            ) && final(self).unchanged(old(self)),
            old(self).state == State::Leader ==> {
                &&& r == Ok::<Index, ClientError>(old(self).log@.len() as Index)
                &&& final(self).log@ == old(self).log@.push(
                    (old(self).log@.len() as Index, old(self).current_term, Some(command@)),
                )
                &&& final(self).current_term == old(self).current_term
                &&& final(self).voted_for == old(self).voted_for
                &&& final(self).state == old(self).state
                &&& final(self).votes@ == old(self).votes@
                &&& final(self).commit_index == old(self).commit_index
                &&& final(self).last_applied == old(self).last_applied
            },
    {
        if self.state != State::Leader {
            return Err(ClientError::NotLeader);
        }
        let index = self.log.append(self.current_term, Some(command));
        Ok(index)
    }

    /// The replication message for a peer whose next entry to send is
    /// `next_index`: only a Leader sends one, and only when `next_index` lies
    /// within one past its log. It carries every entry from `next_index` on.
    pub fn build_append_entries(&self, me: Peer, next_index: Index) -> (r: Option<AppendEntriesArgs>)
        requires
            self.wf(),
        ensures
            r is Some <==> (self.state == State::Leader && 1 <= next_index <= self.log@.len()),
            r is Some ==> {
                let a = r->0;
                &&& a.term == self.current_term
                &&& a.leader_id == me
                &&& a.prev_log_index == next_index - 1
                &&& a.prev_log_term == self.log@[next_index - 1].1
                &&& a.entries@.map_values(|e: LogEntry| e@) == self.log@.subrange(
                    next_index as int,
                    self.log@.len() as int,
                )
                &&& a.leader_commit == self.commit_index
            },
    {
        if self.state != State::Leader || next_index < 1 || next_index > self.log.len() {
            return None;
        }
        Some(
            AppendEntriesArgs {
                term: self.current_term,
                leader_id: me,
                prev_log_index: next_index - 1,
                prev_log_term: self.log.term_at(next_index - 1),
                entries: self.log.entries_from(next_index),
                leader_commit: self.commit_index,
            },
        )
    }

    /// Handles a replication message. One from an older term is refused and
    /// changes nothing. Otherwise the sender's term is adopted and the node is a
    /// Follower; the message is refused when our log has no entry at
    /// `prev_log_index` with `prev_log_term`. When it does, the entries are laid
    /// down after it (those at or below our commit index are settled and left
    /// alone), and the commit index rises to the Leader's, but no further than
    /// the last entry the message vouches for.
    pub fn handle_append_entries(&mut self, args: &AppendEntriesArgs) -> (r: AppendEntriesReply)
        requires
            old(self).wf(),
            args.prev_log_index + args.entries@.len() < usize::MAX,
        ensures
            final(self).wf(),
            old(self).commit_index <= final(self).commit_index,
            final(self).last_applied == old(self).last_applied,
            args.term.0 < old(self).current_term.0 ==> r == (AppendEntriesReply {
                term: old(self).current_term,
                success: false,
                match_index: 0,
            }) && final(self).unchanged(old(self)),
            args.term.0 >= old(self).current_term.0 ==> {
                let ok = args.prev_log_index < old(self).log@.len()
                    && old(self).log@[args.prev_log_index as int].1 == args.prev_log_term;
                let last = args.prev_log_index + args.entries@.len();
                let k = settled_count(
                    old(self).commit_index,
                    args.prev_log_index,
                    args.entries@.len(),
                );
                &&& final(self).current_term == args.term
                &&& final(self).voted_for == if args.term.0 > old(self).current_term.0 {
                    None
                } else {
                    old(self).voted_for
                }
                &&& final(self).state == State::Follower
                &&& final(self).votes@.len() == 0
                &&& r.term == args.term
                &&& r.success == ok
                &&& !ok ==> r.match_index == 0 && final(self).log@ == old(self).log@
                    && final(self).commit_index == old(self).commit_index
                &&& ok ==> {
                    &&& r.match_index == last
                    &&& final(self).log@ == reconcile(
                        old(self).log@,
                        args.prev_log_index + 1 + k,
                        args.entries@.map_values(|e: LogEntry| e@).skip(k),
                    )
                    &&& final(self).commit_index == if args.leader_commit > old(
                        self,
                    ).commit_index && last > old(self).commit_index {
                        if args.leader_commit < last {
                            args.leader_commit as int
                        } else {
                            last
                        }
                    } else {
                        old(self).commit_index as int
                    }
                }
            },
    {
        if args.term.0 < self.current_term.0 {
            return AppendEntriesReply { term: self.current_term, success: false, match_index: 0 };
        }
        self.observe_term(args.term);
        self.state = State::Follower;
        self.votes = Vec::new();
        if !self.log.matches(args.prev_log_index, args.prev_log_term) {
            return AppendEntriesReply { term: self.current_term, success: false, match_index: 0 };
        }
        let prev = args.prev_log_index;
        let n = args.entries.len();
        let k: usize = if self.commit_index > prev {
            if self.commit_index - prev < n {
                self.commit_index - prev
            } else {
                n
            }
        } else {
            0
        };
        let ghost before = self.log@;
        let ghost sent = args.entries@.map_values(|e: LogEntry| e@).skip(k as int);
        self.log.merge_entries(prev + 1 + k, &args.entries, k);
        proof {
            lemma_reconcile(before, prev + 1 + k, sent);
        }
        let last = prev + n;
        if args.leader_commit > self.commit_index && last > self.commit_index {
            self.commit_index = if args.leader_commit < last {
                args.leader_commit
            } else {
                last
            };
        }
        AppendEntriesReply { term: self.current_term, success: true, match_index: last }
    }

    /// Handles a peer's answer to the replication message that carried
    /// `sent_count` entries after `sent_prev`. A newer term makes us a Follower
    /// in it. While we lead that term, a success records the peer as holding
    /// everything sent and the next entry to send as the one after; a refusal
    /// moves the next entry to send one back, never below 1. Any other answer
    /// changes nothing.
    pub fn handle_append_reply(
        &mut self,
        member: &mut ClusterMember,
        sent_prev: Index,
        sent_count: usize,
        reply: &AppendEntriesReply,
    )
        requires
            old(self).wf(),
            sent_prev + sent_count < usize::MAX,
            old(member).match_index < usize::MAX,
        ensures
            final(self).wf(),
            final(member).id == old(member).id,
            final(member).address@ == old(member).address@,
            reply.term.0 > old(self).current_term.0 ==> final(self).adopted_term(
                old(self),
                reply.term,
            ) && final(member).match_index == old(member).match_index && final(member).next_index
                == old(member).next_index,
            reply.term.0 <= old(self).current_term.0 ==> final(self).unchanged(old(self)),
            reply.term.0 <= old(self).current_term.0 ==> if old(self).state == State::Leader
                && reply.term == old(self).current_term {
                if reply.success {
                    let sent_last = sent_prev + sent_count;
                    let m = if old(member).match_index > sent_last {
                        old(member).match_index as int
                    } else {
                        sent_last
                    };
                    &&& final(member).match_index == m
                    &&& final(member).next_index == m + 1
                } else {
                    &&& final(member).match_index == old(member).match_index
                    &&& final(member).next_index == if old(member).next_index > 1 {
                        old(member).next_index - 1
                    } else {
                        1
                    }
                }
            } else {
                &&& final(member).match_index == old(member).match_index
                &&& final(member).next_index == old(member).next_index
            },
    {
        if reply.term.0 > self.current_term.0 {
            self.observe_term(reply.term);
            return ;
        }
        if self.state != State::Leader || reply.term != self.current_term {
            return ;
        }
        if reply.success {
            let sent_last = sent_prev + sent_count;
            if member.match_index < sent_last {
                member.match_index = sent_last;
            }
            member.next_index = member.match_index + 1;
        } else if member.next_index > 1 {
            member.next_index = member.next_index - 1;
        } else {
            member.next_index = 1;
        }
    }

    /// Raises a Leader's commit index to the highest index past it that a
    /// quorum of the cluster holds and that belongs to the current term; when
    /// there is none, or the node does not lead, nothing changes.
    pub fn advance_commit_index(&mut self, members: &Vec<ClusterMember>)
        requires
            old(self).wf(),
        ensures
            final(self).wf(),
            old(self).commit_index <= final(self).commit_index,
            final(self).current_term == old(self).current_term,
            final(self).voted_for == old(self).voted_for,
            final(self).state == old(self).state,
            final(self).votes@ == old(self).votes@,
            final(self).log@ == old(self).log@,
            final(self).last_applied == old(self).last_applied,
            old(self).state != State::Leader ==> final(self).commit_index == old(self).commit_index,
            old(self).state == State::Leader ==> {
                &&& final(self).commit_index == old(self).commit_index || old(self).quorum_at(
                    members@,
                    final(self).commit_index as int,
                )
                &&& forall|n: int|
                    final(self).commit_index < n < old(self).log@.len() ==> !old(self).quorum_at(
                        members@,
                        n,
                    )
            },
    {
        if self.state != State::Leader {
            return ;
        }
        let mut n = self.log.last_index();
        while n > self.commit_index
            invariant
                self.wf(),
                self.state == State::Leader,
                old(self).state == State::Leader,
                self.current_term == old(self).current_term,
                self.voted_for == old(self).voted_for,
                self.votes@ == old(self).votes@,
                self.log@ == old(self).log@,
                self.last_applied == old(self).last_applied,
                self.commit_index == old(self).commit_index,
                n < self.log@.len(),
                forall|m: int| n < m < old(self).log@.len() ==> !old(self).quorum_at(members@, m),
            decreases n,
        {
            if self.log.term_at(n) == self.current_term {
                let c = count_replicated(members, n);
                if c >= members.len() - c {
                    self.commit_index = n;
                    return ;
                }
            }
            n = n - 1;
        }
    }

    /// Applies, in index order, every committed entry not yet applied, and
    /// returns each applied index with the store's answer to its command.
    pub fn apply_committed(&mut self, sm: &mut StateMachine) -> (r: Vec<(Index, Result<Option<Vec<u8>>, ApplyError>)>)
        requires
            old(self).wf(),
        ensures
            final(self).wf(),
            final(self).last_applied == old(self).commit_index,
            final(self).commit_index == old(self).commit_index,
            final(self).current_term == old(self).current_term,
            final(self).voted_for == old(self).voted_for,
            final(self).state == old(self).state,
            final(self).votes@ == old(self).votes@,
            final(self).log@ == old(self).log@,
            r@.len() == old(self).commit_index - old(self).last_applied,
            forall|j: int| 0 <= j < r@.len() ==> (#[trigger] r@[j]).0 == old(self).last_applied + 1 + j,
            final(sm)@ == store_through(
                old(sm)@,
                old(self).log@,
                old(self).last_applied + 1,
                old(self).commit_index + 1,
            ),
    {
        let mut out: Vec<(Index, Result<Option<Vec<u8>>, ApplyError>)> = Vec::new();
        let ghost start = self.last_applied;
        while self.last_applied < self.commit_index
            invariant
                self.wf(),
                start == old(self).last_applied,
                start <= self.last_applied,
                self.commit_index == old(self).commit_index,
                self.current_term == old(self).current_term,
                self.voted_for == old(self).voted_for,
                self.state == old(self).state,
                self.votes@ == old(self).votes@,
                self.log@ == old(self).log@,
                out@.len() == self.last_applied - start,
                forall|j: int| 0 <= j < out@.len() ==> (#[trigger] out@[j]).0 == start + 1 + j,
                sm@ == store_through(old(sm)@, self.log@, start + 1, self.last_applied + 1),
            decreases self.commit_index - self.last_applied,
        {
            let i = self.last_applied + 1;
            let e = self.log.entry_at(i);
            let res = match &e.command {
                Some(c) => sm.apply(c.as_slice()),
                None => Ok(None),
            };
            out.push((i, res));
            self.last_applied = i;
        }
        out
    }
}

/// A node grants at most one vote per term: after granting a vote, any later
/// grant in the same term goes to the same candidate.
pub proof fn lemma_one_vote_per_term(
    s0: RaftState,
    a1: RequestVoteArgs,
    r1: RequestVoteReply,
    s1: RaftState,
    a2: RequestVoteArgs,
    r2: RequestVoteReply,
    s2: RaftState,
)
    requires
        s1.answered_vote(&s0, &a1, r1),
        s2.answered_vote(&s1, &a2, r2),
        r1.vote_granted,
        r2.vote_granted,
        s2.current_term == s1.current_term,
    ensures
        a1.candidate_id == a2.candidate_id,
{
}

} // verus!

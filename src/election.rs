use crate::raft_state::{Peer, RaftState, RequestVoteArgs, State, Term};
use rand::Rng;
use vstd::prelude::*;

verus! {

pub const ELECTION_TIMEOUT_BASE_MILLIS: u64 = 200;

pub const ELECTION_TIMEOUT_VAR_MILLIS: u64 = 200;

/// The latest clock reading, in milliseconds, for which a deadline can be set.
pub const LATEST_RESET_MILLIS: u64 = 18446744073709551215;

/// Relies on rand's `Rng::gen_range` over `thread_rng`: a value drawn from
/// `0..bound`, which must not be empty.
#[verifier::external_body]
fn random_below(bound: u64) -> (r: u64)
    requires
        bound > 0,
    ensures
        r < bound,
{
    rand::thread_rng().gen_range(0..bound)
}

/// The election timer: a deadline on a monotonic millisecond clock, and a
/// version that every reset bumps, so that a waiter woken by a reset can tell
/// that the deadline it slept on is stale.
#[derive(Debug)]
pub struct ElectionState {
    pub version: usize,
    pub deadline: Option<u64>,
}

/// Whether a waiter that read version `observed` may act on a wakeup at `now`:
/// the timer has not been reset since, and its deadline has passed.
pub open spec fn fires(timer: ElectionState, observed: usize, now: u64) -> bool {
    &&& timer.version == observed
    &&& timer.deadline is Some
    &&& now >= timer.deadline->0
}

impl ElectionState {
    pub fn create() -> (r: ElectionState)
        ensures
            r.version == 0,
            r.deadline is None,
    {
        ElectionState { version: 0, deadline: None }
    }

    /// A deadline drawn at random from `now + base .. now + base + var`, with the
    /// base and variable parts of the election timeout.
    pub fn election_timeout(now: u64) -> (r: u64)
        requires
            now <= LATEST_RESET_MILLIS,
        ensures
            now + ELECTION_TIMEOUT_BASE_MILLIS <= r,
            r < now + ELECTION_TIMEOUT_BASE_MILLIS + ELECTION_TIMEOUT_VAR_MILLIS,
    {
        now + ELECTION_TIMEOUT_BASE_MILLIS + random_below(ELECTION_TIMEOUT_VAR_MILLIS)
    }

    /// Resets the timer to fire `jitter` milliseconds after the base timeout
    /// from `now`, and bumps the version.
    pub fn reset_with_jitter(&mut self, now: u64, jitter: u64)
        requires
            old(self).version < usize::MAX,
            now <= LATEST_RESET_MILLIS,
            jitter < ELECTION_TIMEOUT_VAR_MILLIS,
        ensures
            final(self).version == old(self).version + 1,
            final(self).deadline == Some((now + ELECTION_TIMEOUT_BASE_MILLIS + jitter) as u64),
    {
        self.version = self.version + 1;
        self.deadline = Some(now + ELECTION_TIMEOUT_BASE_MILLIS + jitter);
    }

    /// Resets the timer to a fresh random deadline and bumps the version.
    pub fn reset_election_timer(&mut self, now: u64)
        requires
            old(self).version < usize::MAX,
            now <= LATEST_RESET_MILLIS,
        ensures
            final(self).version == old(self).version + 1,
            final(self).deadline is Some,
            now + ELECTION_TIMEOUT_BASE_MILLIS <= final(self).deadline->0,
            final(self).deadline->0 < now + ELECTION_TIMEOUT_BASE_MILLIS
                + ELECTION_TIMEOUT_VAR_MILLIS,
    {
        let jitter = random_below(ELECTION_TIMEOUT_VAR_MILLIS);
        self.reset_with_jitter(now, jitter);
    }

    /// Whether a wakeup at `now`, by a waiter that read version `observed`
    /// before it slept, is a genuine expiry.
    pub fn should_fire(&self, observed: usize, now: u64) -> (r: bool)
        ensures
            r == fires(*self, observed, now),
    {
        match self.deadline {
            Some(d) => self.version == observed && now >= d,
            None => false,
        }
    }
}

/// A reset between the moment a waiter read the version and its wakeup makes
/// that wakeup stale, whatever the time: it never starts an election.
pub proof fn lemma_reset_voids_stale_wakeup(before: ElectionState, after: ElectionState, now: u64)
    requires
        after.version == before.version + 1,
    ensures
        !fires(after, before.version, now),
{
}

/// The election timer woke a waiter that had read version `observed`, at
/// `now`. A stale wakeup, or one while this node leads, changes nothing and
/// sends nothing. A genuine one starts an election: the node becomes a
/// Candidate in the next term, votes for itself and resets its own timer, and
/// the vote request for every peer is returned.
pub fn on_election_timer(
    state: &mut RaftState,
    timer: &mut ElectionState,
    observed: usize,
    now: u64,
    jitter: u64,
    me: Peer,
) -> (r: Option<RequestVoteArgs>)
    requires
        old(state).wf(),
        old(state).current_term.0 < usize::MAX,
        old(timer).version < usize::MAX,
        now <= LATEST_RESET_MILLIS,
        jitter < ELECTION_TIMEOUT_VAR_MILLIS,
    ensures
        final(state).wf(),
        !fires(*old(timer), observed, now) || old(state).state == State::Leader ==> {
            &&& r is None
            &&& final(state).unchanged(old(state))
            &&& final(timer).version == old(timer).version
            &&& final(timer).deadline == old(timer).deadline
        },
        fires(*old(timer), observed, now) && old(state).state != State::Leader ==> {
            &&& r == Some(
                RequestVoteArgs {
                    term: Term((old(state).current_term.0 + 1) as usize),
                    candidate_id: me,
                    last_log_index: (old(state).log@.len() - 1) as usize,
                    last_log_term: old(state).log@.last().1,
                },
            )
            &&& final(state).current_term == Term((old(state).current_term.0 + 1) as usize)
            &&& final(state).state == State::Candidate
            &&& final(state).voted_for == Some(me)
            &&& final(state).votes@ == seq![me]
            &&& final(state).keeps_log(old(state))
            &&& final(timer).version == old(timer).version + 1
            &&& final(timer).deadline == Some((now + ELECTION_TIMEOUT_BASE_MILLIS + jitter) as u64)
        },
{
    if !timer.should_fire(observed, now) || state.state == State::Leader {
        return None;
    }
    let args = state.start_election(me);
    timer.reset_with_jitter(now, jitter);
    args
}

/// The election timer woke a waiter that had read version `observed`, at
/// `now`; a genuine expiry resets the timer to a random deadline. Otherwise as
/// `on_election_timer`.
pub fn election_timer_fired(
    state: &mut RaftState,
    timer: &mut ElectionState,
    observed: usize,
    now: u64,
    me: Peer,
) -> (r: Option<RequestVoteArgs>)
    requires
        old(state).wf(),
        old(state).current_term.0 < usize::MAX,
        old(timer).version < usize::MAX,
        now <= LATEST_RESET_MILLIS,
    ensures
        final(state).wf(),
        !fires(*old(timer), observed, now) || old(state).state == State::Leader ==> {
            &&& r is None
            &&& final(state).unchanged(old(state))
            &&& final(timer).version == old(timer).version
            &&& final(timer).deadline == old(timer).deadline
        },
        fires(*old(timer), observed, now) && old(state).state != State::Leader ==> {
            &&& r == Some(
                RequestVoteArgs {
                    term: Term((old(state).current_term.0 + 1) as usize),
                    candidate_id: me,
                    last_log_index: (old(state).log@.len() - 1) as usize,
                    last_log_term: old(state).log@.last().1,
                },
            )
            &&& final(state).current_term == Term((old(state).current_term.0 + 1) as usize)
            &&& final(state).state == State::Candidate
            &&& final(state).voted_for == Some(me)
            &&& final(state).votes@ == seq![me]
            &&& final(state).keeps_log(old(state))
            &&& final(timer).version == old(timer).version + 1
            &&& final(timer).deadline is Some
            &&& now + ELECTION_TIMEOUT_BASE_MILLIS <= final(timer).deadline->0
            &&& final(timer).deadline->0 < now + ELECTION_TIMEOUT_BASE_MILLIS
                + ELECTION_TIMEOUT_VAR_MILLIS
        },
{
    let jitter = random_below(ELECTION_TIMEOUT_VAR_MILLIS);
    on_election_timer(state, timer, observed, now, jitter, me)
}

} // verus!

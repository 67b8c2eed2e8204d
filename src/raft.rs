use crate::log_array::Index;
use crate::raft_state::Peer;
use vstd::prelude::*;

verus! {

/// A member of the cluster, with the progress a Leader tracks for it.
#[derive(Debug, Default, Clone)]
pub struct ClusterMember {
    pub id: u64,
    pub address: String,
    /// Highest log entry known to be replicated.
    pub match_index: Index,
    /// Index of the next log entry to send.
    pub next_index: Index,
}

impl ClusterMember {
    /// A member with no replication progress yet.
    pub fn new(id: u64, address: String) -> (r: ClusterMember)
        ensures
            r.id == id,
            r.address@ == address@,
            r.match_index == 0,
            r.next_index == 0,
    {
        ClusterMember { id, address, match_index: 0, next_index: 0 }
    }
}

/// The members as a fresh Leader whose last log index is `last_index` first
/// sees them: nothing known to be replicated, the next entry to send just past
/// the Leader's log.
pub fn start_leadership(members: &Vec<ClusterMember>, last_index: Index) -> (r: Vec<ClusterMember>)
    requires
        last_index < usize::MAX,
    ensures
        r@.len() == members@.len(),
        forall|i: int|
            0 <= i < r@.len() ==> {
                &&& (#[trigger] r@[i]).id == members@[i].id
                &&& r@[i].address@ == members@[i].address@
                &&& r@[i].match_index == 0
                &&& r@[i].next_index == last_index + 1
            },
{
    let mut r: Vec<ClusterMember> = Vec::new();
    let mut i: usize = 0;
    while i < members.len()
        invariant
            i <= members@.len(),
            last_index < usize::MAX,
            r@.len() == i,
            forall|j: int|
                0 <= j < i ==> {
                    &&& (#[trigger] r@[j]).id == members@[j].id
                    &&& r@[j].address@ == members@[j].address@
                    &&& r@[j].match_index == 0
                    &&& r@[j].next_index == last_index + 1
                },
        decreases members@.len() - i,
    {
        let m = &members[i];
        r.push(
            ClusterMember {
                id: m.id,
                address: m.address.clone(),
                match_index: 0,
                next_index: last_index + 1,
            },
        );
        i = i + 1;
    }
    r
}

/// The peers of node `peer_index` in a cluster of `peer_size` nodes: every
/// position but its own, in order.
pub fn other_peers(peer_size: usize, peer_index: usize) -> (r: Vec<Peer>)
    requires
        peer_index < peer_size,
    ensures
        r@.len() == peer_size - 1,
        forall|i: int|
            0 <= i < r@.len() ==> #[trigger] r@[i] == Peer(
                if i < peer_index {
                    i as usize
                } else {
                    (i + 1) as usize
                },
            ),
{
    let mut r: Vec<Peer> = Vec::new();
    let mut p: usize = 0;
    while p < peer_size
        invariant
            peer_index < peer_size,
            p <= peer_size,
            r@.len() == if p <= peer_index {
                p as int
            } else {
                p - 1
            },
            forall|i: int|
                0 <= i < r@.len() ==> #[trigger] r@[i] == Peer(
                    if i < peer_index {
                        i as usize
                    } else {
                        (i + 1) as usize
                    },
                ),
        decreases peer_size - p,
    {
        if p != peer_index {
            r.push(Peer(p));
        }
        p = p + 1;
    }
    r
}

} // verus!

use vstd::prelude::*;
use vstd::set_lib::{lemma_int_range, lemma_len_subset, lemma_set_disjoint_lens, set_int_range};

verus! {

/// The voters whose ballot in one term went to `candidate`.
pub open spec fn voters_for(ballots: Map<int, int>, candidate: int) -> Set<int> {
    ballots.dom().filter(|v: int| ballots[v] == candidate)
}

/// In one term every node grants at most one vote, so the votes of a term are a
/// map from voter to candidate over the nodes `0 .. cluster_size`. Two
/// candidates that each hold the votes of more than half of the cluster are
/// then the same node: a term has at most one Leader.
pub proof fn lemma_one_leader_per_term(cluster_size: int, ballots: Map<int, int>, a: int, b: int)
    requires
        cluster_size >= 0,
        forall|v: int| #[trigger] ballots.dom().contains(v) ==> 0 <= v < cluster_size,
        2 * voters_for(ballots, a).len() > cluster_size,
        2 * voters_for(ballots, b).len() > cluster_size,
    ensures
        a == b,
{
    let v = lemma_majorities_meet(cluster_size, voters_for(ballots, a), voters_for(ballots, b));
    assert(ballots[v] == a && ballots[v] == b);
}

/// Any two majorities of the nodes `0 .. cluster_size` share a node. In
/// particular the majority that holds a committed entry and the majority that
/// elected a later Leader meet in a node that granted that Leader its vote,
/// which it does only for a candidate whose log is at least as up to date as
/// its own.
pub proof fn lemma_majorities_meet(cluster_size: int, a: Set<int>, b: Set<int>) -> (v: int)
    requires
        cluster_size >= 0,
        forall|x: int| #[trigger] a.contains(x) ==> 0 <= x < cluster_size,
        forall|x: int| #[trigger] b.contains(x) ==> 0 <= x < cluster_size,
        2 * a.len() > cluster_size,
        2 * b.len() > cluster_size,
    ensures
        a.contains(v),
        b.contains(v),
{
    let nodes = set_int_range(0, cluster_size);
    lemma_int_range(0, cluster_size);
    assert(a.subset_of(nodes));
    assert(b.subset_of(nodes));
    lemma_len_subset(a, nodes);
    lemma_len_subset(b, nodes);
    if a.disjoint(b) {
        lemma_set_disjoint_lens(a, b);
        assert(a.union(b).subset_of(nodes));
        lemma_len_subset(a.union(b), nodes);
    }
    assert(!a.disjoint(b));
    let v = choose|v: int| a.contains(v) && b.contains(v);
    v
}

} // verus!

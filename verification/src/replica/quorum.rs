//! Counting replicas: how many of the cluster have come how far.
//!
//! A replica keeps a tally of what the others have told it: the op number
//! up to which each backup holds the log, or the view that each replica has
//! asked for. What a replica has said of one number holds of every number
//! below it: a backup acknowledges an op number only when it holds every
//! entry up to it, and a replica that asks for a view has left all views
//! before it.

use std::collections::BTreeMap;
use vstd::prelude::*;

use super::cluster::{quorum_of, Cluster};
use super::ReplicaIdentity;

verus! {

/// Whether `replica` has come as far as `number`.
pub open spec fn has_reached(tally: Map<u64, u64>, replica: ReplicaIdentity, number: int) -> bool {
    tally.contains_key(replica.id) && tally[replica.id] >= number
}

/// The number of members that have come as far as `number`. The replica
/// `own`, which keeps the tally, counts among them: a primary holds the
/// entries that it proposes, and a replica is for the view that it asks for.
pub open spec fn holders(
    members: Seq<ReplicaIdentity>,
    own: ReplicaIdentity,
    tally: Map<u64, u64>,
    number: int,
) -> nat
    decreases members.len(),
{
    if members.len() == 0 {
        0
    } else {
        let rest = holders(members.drop_last(), own, tally, number);
        if members.last() == own || has_reached(tally, members.last(), number) {
            rest + 1
        } else {
            rest
        }
    }
}

/// Whether a quorum of the cluster has come as far as `number`.
pub open spec fn quorate(
    members: Seq<ReplicaIdentity>,
    own: ReplicaIdentity,
    tally: Map<u64, u64>,
    number: int,
) -> bool {
    holders(members, own, tally, number) >= quorum_of(members.len())
}

/// Whether `point` is where the commit number comes to stand when it stood
/// at `committed` and the log ends at `last`, given the primary's tally of
/// acknowledgements: it moves over each entry that a quorum holds, one
/// after the other, and stops before the first that no quorum holds.
pub open spec fn is_commit_point(
    members: Seq<ReplicaIdentity>,
    primary: ReplicaIdentity,
    acknowledged: Map<u64, u64>,
    committed: int,
    last: int,
    point: int,
) -> bool {
    &&& committed <= point <= last
    &&& forall|k: int| committed < k <= point ==> quorate(members, primary, acknowledged, k)
    &&& point == last || !quorate(members, primary, acknowledged, point + 1)
}

/// The tally after `replica` has said that it has come as far as `number`:
/// the highest number of each replica stays.
pub open spec fn raised(tally: Map<u64, u64>, replica: ReplicaIdentity, number: u64) -> Map<
    u64,
    u64,
> {
    if has_reached(tally, replica, number as int) {
        tally
    } else {
        tally.insert(replica.id, number)
    }
}

/// The higher the number, the fewer replicas have reached it.
pub proof fn holders_fall(
    members: Seq<ReplicaIdentity>,
    own: ReplicaIdentity,
    tally: Map<u64, u64>,
    lower: int,
    higher: int,
)
    requires
        lower <= higher,
    ensures
        holders(members, own, tally, higher) <= holders(members, own, tally, lower),
    decreases members.len(),
{
    if members.len() > 0 {
        holders_fall(members.drop_last(), own, tally, lower, higher);
    }
}

/// No more replicas have reached a number than the cluster has members.
pub proof fn holders_are_members(
    members: Seq<ReplicaIdentity>,
    own: ReplicaIdentity,
    tally: Map<u64, u64>,
    number: int,
)
    ensures
        holders(members, own, tally, number) <= members.len(),
    decreases members.len(),
{
    if members.len() > 0 {
        holders_are_members(members.drop_last(), own, tally, number);
    }
}

/// The replica that keeps the tally counts, if it is a member.
pub proof fn holders_include_own(
    members: Seq<ReplicaIdentity>,
    own: ReplicaIdentity,
    tally: Map<u64, u64>,
    number: int,
)
    requires
        members.contains(own),
    ensures
        holders(members, own, tally, number) >= 1,
    decreases members.len(),
{
    if members.last() != own {
        let at = choose|i: int| 0 <= i < members.len() && members[i] == own;
        assert(members.drop_last()[at] == own);
        holders_include_own(members.drop_last(), own, tally, number);
    }
}

/// A replica that says how far it has come takes no other replica back:
/// no number loses a holder.
pub proof fn raising_keeps_holders(
    members: Seq<ReplicaIdentity>,
    own: ReplicaIdentity,
    tally: Map<u64, u64>,
    replica: ReplicaIdentity,
    reached: u64,
    number: int,
)
    ensures
        holders(members, own, raised(tally, replica, reached), number) >= holders(
            members,
            own,
            tally,
            number,
        ),
    decreases members.len(),
{
    if members.len() > 0 {
        raising_keeps_holders(members.drop_last(), own, tally, replica, reached, number);
    }
}

/// The commit number never moves to an entry that fewer replicas hold than
/// a quorum, the primary counted, nor to an entry before the one ahead of
/// it: every entry that it moves over is held by a quorum.
pub proof fn commit_needs_quorum(
    members: Seq<ReplicaIdentity>,
    primary: ReplicaIdentity,
    acknowledged: Map<u64, u64>,
    committed: int,
    last: int,
    point: int,
    op_number: int,
)
    requires
        is_commit_point(members, primary, acknowledged, committed, last, point),
        committed < op_number <= point,
    ensures
        holders(members, primary, acknowledged, op_number) >= quorum_of(members.len()),
        op_number - 1 > committed ==> holders(members, primary, acknowledged, op_number - 1)
            >= quorum_of(members.len()),
{
    assert(quorate(members, primary, acknowledged, op_number));
    if op_number - 1 > committed {
        assert(quorate(members, primary, acknowledged, op_number - 1));
    }
}

/// The commit point is the last entry that a quorum holds: beyond it no
/// entry has one.
pub proof fn commit_point_is_greatest(
    members: Seq<ReplicaIdentity>,
    primary: ReplicaIdentity,
    acknowledged: Map<u64, u64>,
    committed: int,
    last: int,
    point: int,
    op_number: int,
)
    requires
        is_commit_point(members, primary, acknowledged, committed, last, point),
        point < op_number <= last,
    ensures
        !quorate(members, primary, acknowledged, op_number),
{
    holders_fall(members, primary, acknowledged, point + 1, op_number);
}

/// There is one commit point.
pub proof fn commit_point_is_unique(
    members: Seq<ReplicaIdentity>,
    primary: ReplicaIdentity,
    acknowledged: Map<u64, u64>,
    committed: int,
    last: int,
    point: int,
    other: int,
)
    requires
        is_commit_point(members, primary, acknowledged, committed, last, point),
        is_commit_point(members, primary, acknowledged, committed, last, other),
    ensures
        point == other,
{
}

/// In a cluster of `2f + 1` replicas a quorum is `f + 1` of them.
pub proof fn quorum_of_odd_cluster(f: nat)
    ensures
        quorum_of(2 * f + 1) == f + 1,
{
}

/// Two quorums of one cluster are together more than the cluster has
/// members, so they share a replica.
pub proof fn quorums_overlap(size: nat)
    ensures
        quorum_of(size) + quorum_of(size) > size,
{
}

/// The highest number that each replica has reached, as far as it has said.
pub struct Tally {
    highest: BTreeMap<u64, u64>,
}

impl View for Tally {
    type V = Map<u64, u64>;

    closed spec fn view(&self) -> Map<u64, u64> {
        self.highest@
    }
}

impl Tally {
    pub fn new() -> (tally: Self)
        ensures
            tally@ == Map::<u64, u64>::empty(),
    {
        Self { highest: BTreeMap::new() }
    }

    /// Takes note that `replica` has come as far as `number`.
    pub fn record(&mut self, replica: ReplicaIdentity, number: u64)
        ensures
            final(self)@ == raised(old(self)@, replica, number),
    {
        if !self.has(replica, number) {
            self.highest.insert(replica.id, number);
        }
    }

    pub fn has(&self, replica: ReplicaIdentity, number: u64) -> (reached: bool)
        ensures
            reached == has_reached(self@, replica, number as int),
    {
        match self.highest.get(&replica.id) {
            Some(highest) => *highest >= number,
            None => false,
        }
    }

    /// Counts the members that have come as far as `number`, `own` among
    /// them.
    pub fn count<O>(&self, cluster: &Cluster<O>, own: ReplicaIdentity, number: u64) -> (count:
        usize)
        ensures
            count == holders(cluster.members(), own, self@, number as int),
            count <= cluster.members().len(),
    {
        let size = cluster.size();
        let mut count: usize = 0;
        let mut position: usize = 0;
        while position < size
            invariant
                position <= size,
                size == cluster.members().len(),
                count <= position,
                count == holders(
                    cluster.members().take(position as int),
                    own,
                    self@,
                    number as int,
                ),
            decreases size - position,
        {
            let member = cluster.member(position).unwrap();
            proof {
                let seen = cluster.members().take(position + 1);
                assert(seen.drop_last() == cluster.members().take(position as int));
                assert(seen.last() == member);
            }
            if member == own || self.has(member, number) {
                count += 1;
            }
            position += 1;
        }
        proof {
            assert(cluster.members().take(size as int) == cluster.members());
        }
        count
    }

    /// Whether a quorum of the cluster has come as far as `number`, `own`
    /// counted.
    pub fn has_quorum<O>(&self, cluster: &Cluster<O>, own: ReplicaIdentity, number: u64) -> (reached:
        bool)
        ensures
            reached == quorate(cluster.members(), own, self@, number as int),
    {
        self.count(cluster, own, number) >= cluster.quorum()
    }

    /// Finds where the commit number comes to stand when it stands at
    /// `committed` and the log ends at `last`, with this the primary's
    /// tally of acknowledgements.
    pub fn commit_point<O>(
        &self,
        cluster: &Cluster<O>,
        primary: ReplicaIdentity,
        committed: u64,
        last: u64,
    ) -> (point: u64)
        requires
            committed <= last,
        ensures
            is_commit_point(
                cluster.members(),
                primary,
                self@,
                committed as int,
                last as int,
                point as int,
            ),
    {
        let mut point: u64 = committed;
        while point < last && self.has_quorum(cluster, primary, point + 1)
            invariant
                committed <= point <= last,
                forall|k: int|
                    committed < k <= point ==> quorate(cluster.members(), primary, self@, k),
            decreases last - point,
        {
            point += 1;
        }
        point
    }
}

} // verus!

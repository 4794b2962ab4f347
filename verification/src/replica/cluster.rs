//! The members of the cluster, the primary of each view, and the messages
//! that wait to be sent.

use vstd::prelude::*;

use super::ReplicaIdentity;
use crate::message::ClusterMessageEnvelope;
use crate::transport::TransportResult;

verus! {

pub type ClusterResult<T> = Result<T, ClusterError>;

#[derive(Debug, Clone, Copy, PartialEq, Eq, Structural)]
pub enum ClusterError {
    /// A cluster has at least three replicas.
    InsufficientReplicas,
}

/// To whom a message goes.
#[derive(Debug, Clone, Copy, PartialEq, Eq, Structural)]
pub enum Destination {
    /// Every member of the cluster but the sender.
    Everyone,
    Replica(ReplicaIdentity),
}

/// A message that waits to be sent.
pub struct OutboundMessage<O> {
    pub destination: Destination,
    pub message: ClusterMessageEnvelope<O>,
}

/// Whether the identities stand in strictly ascending order.
pub open spec fn ascending(replicas: Seq<ReplicaIdentity>) -> bool {
    forall|i: int, j: int| 0 <= i < j < replicas.len() ==> replicas[i].id < replicas[j].id
}

/// The number of replicas that a decision needs: more than half of `size`.
pub open spec fn quorum_of(size: nat) -> nat {
    size / 2 + 1
}

/// The members other than `sender`, in their order.
pub open spec fn others(members: Seq<ReplicaIdentity>, sender: ReplicaIdentity) -> Seq<
    ReplicaIdentity,
>
    decreases members.len(),
{
    if members.len() == 0 {
        Seq::empty()
    } else if members.last() == sender {
        others(members.drop_last(), sender)
    } else {
        others(members.drop_last(), sender).push(members.last())
    }
}

/// The replicas to which `outbound` goes: the one it names, or every member
/// but its sender, in ascending order.
pub open spec fn recipients_of<O>(
    members: Seq<ReplicaIdentity>,
    outbound: OutboundMessage<O>,
) -> Seq<ReplicaIdentity> {
    match outbound.destination {
        Destination::Replica(recipient) => seq![recipient],
        Destination::Everyone => others(members, outbound.message.sender),
    }
}

/// The others are the members that are not the sender: each of them, and
/// no one else.
pub proof fn others_are_the_rest(
    members: Seq<ReplicaIdentity>,
    sender: ReplicaIdentity,
    replica: ReplicaIdentity,
)
    ensures
        others(members, sender).contains(replica) <==> members.contains(replica) && replica
            != sender,
        others(members, sender).len() <= members.len(),
    decreases members.len(),
{
    if members.len() > 0 {
        let rest = members.drop_last();
        others_are_the_rest(rest, sender, replica);
        if members.contains(replica) {
            let at = choose|i: int| 0 <= i < members.len() && members[i] == replica;
            if at < rest.len() {
                assert(rest[at] == replica);
            }
        }
        if rest.contains(replica) {
            let at = choose|i: int| 0 <= i < rest.len() && rest[i] == replica;
            assert(members[at] == replica);
        }
        if members.last() != sender {
            let all = others(members, sender);
            assert(all.last() == members.last());
            assert(all.drop_last() == others(rest, sender));
            if others(rest, sender).contains(replica) {
                let at = choose|i: int|
                    0 <= i < others(rest, sender).len() && others(rest, sender)[i] == replica;
                assert(all[at] == replica);
            }
            if all.contains(replica) {
                let at = choose|i: int| 0 <= i < all.len() && all[i] == replica;
                if at < all.len() - 1 {
                    assert(others(rest, sender)[at] == replica);
                } else {
                    assert(members[members.len() - 1] == replica);
                }
            }
        }
    }
}

pub struct Cluster<O> {
    replicas: Vec<ReplicaIdentity>,
    message_buffer: Vec<OutboundMessage<O>>,
}

impl<O> Cluster<O> {
    #[verifier::type_invariant]
    spec fn established(self) -> bool {
        &&& ascending(self.replicas@)
        &&& self.replicas@.len() >= 3
    }

    /// The members, in ascending order.
    pub closed spec fn members(&self) -> Seq<ReplicaIdentity> {
        self.replicas@
    }

    /// The messages that wait to be sent, oldest first.
    pub closed spec fn outbox(&self) -> Seq<OutboundMessage<O>> {
        self.message_buffer@
    }

    /// The primary of the view `view_number`: the members take turns in
    /// ascending order.
    pub open spec fn primary_of(&self, view_number: u64) -> ReplicaIdentity {
        self.members()[view_number as int % self.members().len() as int]
    }

    pub fn bootstrap(replicas: Vec<ReplicaIdentity>) -> (result: ClusterResult<Self>)
        ensures
            result is Ok <==> replicas@.to_set().len() >= 3,
            result matches Ok(cluster) ==> {
                &&& ascending(cluster.members())
                &&& cluster.members().to_set() == replicas@.to_set()
                &&& cluster.outbox() == Seq::<OutboundMessage<O>>::empty()
            },
            result matches Err(error) ==> error == ClusterError::InsufficientReplicas,
    {
        let mut members: Vec<ReplicaIdentity> = Vec::new();
        let mut next: usize = 0;
        while next < replicas.len()
            invariant
                next <= replicas.len(),
                ascending(members@),
                forall|r: ReplicaIdentity|
                    members@.contains(r) <==> replicas@.take(next as int).contains(r),
            decreases replicas.len() - next,
        {
            let replica = replicas[next];
            let ghost before = members@;
            let place = Self::place_of(&members, replica);
            if place == members.len() || members[place].id != replica.id {
                members.insert(place, replica);
                proof {
                    assert(members@[place as int] == replica);
                    assert forall|r: ReplicaIdentity| members@.contains(r) implies before.contains(r)
                        || r == replica by {
                        let k = choose|k: int| 0 <= k < members@.len() && members@[k] == r;
                        if k < place {
                            assert(before[k] == r);
                        } else if k > place {
                            assert(before[k - 1] == r);
                        }
                    }
                    assert forall|r: ReplicaIdentity| before.contains(r) implies members@.contains(
                        r,
                    ) by {
                        let k = choose|k: int| 0 <= k < before.len() && before[k] == r;
                        if k < place {
                            assert(members@[k] == r);
                        } else {
                            assert(members@[k + 1] == r);
                        }
                    }
                }
            }
            proof {
                assert(members@[place as int] == replica);
                assert(members@.contains(replica));
                let seen = replicas@.take(next as int);
                let seen_next = replicas@.take(next + 1);
                assert(seen_next == seen.push(replica));
                assert forall|r: ReplicaIdentity| seen_next.contains(r) implies seen.contains(r) || r
                    == replica by {
                    let k = choose|k: int| 0 <= k < seen_next.len() && seen_next[k] == r;
                    if k < seen.len() {
                        assert(seen[k] == r);
                    }
                }
                assert forall|r: ReplicaIdentity| seen.contains(r) || r == replica implies seen_next.contains(
                    r,
                ) by {
                    if r == replica {
                        assert(seen_next[next as int] == r);
                    } else {
                        let k = choose|k: int| 0 <= k < seen.len() && seen[k] == r;
                        assert(seen_next[k] == r);
                    }
                }
                assert forall|r: ReplicaIdentity| members@.contains(r) <==> seen_next.contains(
                    r,
                ) by {
                    if members@.contains(r) {
                        assert(before.contains(r) || r == replica);
                        assert(seen.contains(r) || r == replica);
                        assert(seen_next.contains(r));
                    }
                    if seen_next.contains(r) {
                        assert(seen.contains(r) || r == replica);
                        assert(before.contains(r) || r == replica);
                        assert(members@.contains(r));
                    }
                }
            }
            next += 1;
        }
        proof {
            assert(replicas@.take(next as int) == replicas@);
            assert(members@.to_set() =~= replicas@.to_set());
            members@.unique_seq_to_set();
        }
        if members.len() < 3 {
            return Err(ClusterError::InsufficientReplicas);
        }
        Ok(Self { replicas: members, message_buffer: Vec::new() })
    }

    /// The place at which `replica` stands among `members`, or at which it
    /// would have to be put: the first whose identity is not below it.
    fn place_of(members: &Vec<ReplicaIdentity>, replica: ReplicaIdentity) -> (place: usize)
        requires
            ascending(members@),
        ensures
            place <= members.len(),
            forall|i: int| 0 <= i < place ==> members[i].id < replica.id,
            forall|i: int| place <= i < members.len() ==> replica.id <= members[i].id,
    {
        let mut place: usize = 0;
        while place < members.len() && members[place].id < replica.id
            invariant
                place <= members.len(),
                ascending(members@),
                forall|i: int| 0 <= i < place ==> members[i].id < replica.id,
            decreases members.len() - place,
        {
            place += 1;
        }
        place
    }

    pub fn current_primary(&self, view_number: u64) -> (primary: ReplicaIdentity)
        ensures
            primary == self.primary_of(view_number),
    {
        proof {
            use_type_invariant(self);
        }
        let size: u64 = self.replicas.len() as u64;
        let turn: u64 = view_number % size;
        self.replicas[turn as usize]
    }

    /// The number of members. A cluster has at least three, and holds them
    /// in ascending order.
    pub fn size(&self) -> (size: usize)
        ensures
            size == self.members().len(),
            size >= 3,
            ascending(self.members()),
    {
        proof {
            use_type_invariant(self);
        }
        self.replicas.len()
    }

    /// The number of replicas that a decision needs.
    pub fn quorum(&self) -> (quorum: usize)
        ensures
            quorum == quorum_of(self.members().len()),
    {
        self.replicas.len() / 2 + 1
    }

    /// The member at `position` in ascending order.
    pub fn member(&self, position: usize) -> (result: Option<ReplicaIdentity>)
        ensures
            result == if position < self.members().len() {
                Some(self.members()[position as int])
            } else {
                None
            },
    {
        if position < self.replicas.len() {
            Some(self.replicas[position])
        } else {
            None
        }
    }

    pub fn is_member(&self, replica: ReplicaIdentity) -> (found: bool)
        ensures
            found == self.members().contains(replica),
    {
        proof {
            use_type_invariant(self);
        }
        let place = Self::place_of(&self.replicas, replica);
        let found = place < self.replicas.len() && self.replicas[place].id == replica.id;
        proof {
            if found {
                assert(self.members()[place as int] == replica);
            }
        }
        found
    }

    /// The replicas to which `outbound` goes.
    pub fn recipients(&self, outbound: &OutboundMessage<O>) -> (recipients: Vec<ReplicaIdentity>)
        ensures
            recipients@ == recipients_of(self.members(), *outbound),
    {
        let mut recipients: Vec<ReplicaIdentity> = Vec::new();
        match outbound.destination {
            Destination::Replica(recipient) => {
                recipients.push(recipient);
                assert(recipients@ == seq![recipient]);
            },
            Destination::Everyone => {
                let sender = outbound.message.sender;
                let mut position: usize = 0;
                while position < self.replicas.len()
                    invariant
                        position <= self.replicas.len(),
                        self.replicas@ == self.members(),
                        recipients@ == others(self.members().take(position as int), sender),
                    decreases self.replicas.len() - position,
                {
                    proof {
                        let seen = self.members().take(position + 1);
                        assert(seen.drop_last() == self.members().take(position as int));
                        assert(seen.last() == self.replicas@[position as int]);
                    }
                    if self.replicas[position] != sender {
                        recipients.push(self.replicas[position]);
                    }
                    position += 1;
                }
                proof {
                    assert(self.members().take(position as int) == self.members());
                }
            },
        }
        recipients
    }

    pub fn broadcast(&mut self, message: ClusterMessageEnvelope<O>) -> (result: TransportResult<()>)
        ensures
            result is Ok,
            final(self).members() == old(self).members(),
            final(self).outbox() == old(self).outbox().push(
                OutboundMessage { destination: Destination::Everyone, message },
            ),
    {
        self.enqueue(OutboundMessage { destination: Destination::Everyone, message });
        Ok(())
    }

    pub fn send(&mut self, recipient: ReplicaIdentity, message: ClusterMessageEnvelope<O>) -> (result:
        TransportResult<()>)
        ensures
            result is Ok,
            final(self).members() == old(self).members(),
            final(self).outbox() == old(self).outbox().push(
                OutboundMessage { destination: Destination::Replica(recipient), message },
            ),
    {
        self.enqueue(OutboundMessage { destination: Destination::Replica(recipient), message });
        Ok(())
    }

    fn enqueue(&mut self, outbound: OutboundMessage<O>)
        ensures
            final(self).members() == old(self).members(),
            final(self).outbox() == old(self).outbox().push(outbound),
    {
        proof {
            use_type_invariant(&*self);
        }
        let mut buffer: Vec<OutboundMessage<O>> = Vec::new();
        std::mem::swap(&mut buffer, &mut self.message_buffer);
        buffer.push(outbound);
        self.message_buffer = buffer;
    }

    /// Hands over the messages that wait to be sent, oldest first, and
    /// leaves none waiting.
    pub fn take_outbound(&mut self) -> (messages: Vec<OutboundMessage<O>>)
        ensures
            messages@ == old(self).outbox(),
            final(self).members() == old(self).members(),
            final(self).outbox() == Seq::<OutboundMessage<O>>::empty(),
    {
        proof {
            use_type_invariant(&*self);
        }
        let mut buffer: Vec<OutboundMessage<O>> = Vec::new();
        std::mem::swap(&mut buffer, &mut self.message_buffer);
        buffer
    }
}

} // verus!
